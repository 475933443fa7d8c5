//! What a tray takes from the system, and what it gives back.

use vstd::prelude::*;

use crate::system::{CallView, Reply, MF_POPUP, MF_STRING};

verus! {

/// Something that the system hands out and wants back.
pub enum Resource {
    Window(usize),
    Icon(usize),
    Dc(usize),
    Object(usize),
    Menu(usize),
}

/// What a call takes from the system, given the reply to it.
pub open spec fn taken(call: CallView, reply: Reply) -> Option<Resource> {
    match call {
        CallView::CreateWindow { .. } => if reply.handle_spec() != 0 {
            Some(Resource::Window(reply.handle_spec()))
        } else {
            None
        },
        CallView::GetDc => if reply.handle_spec() != 0 {
            Some(Resource::Dc(reply.handle_spec()))
        } else {
            None
        },
        CallView::CreateSection { .. } => if reply.bitmap_spec() != 0 {
            Some(Resource::Object(reply.bitmap_spec()))
        } else {
            None
        },
        CallView::CreateMask { .. } => if reply.handle_spec() != 0 {
            Some(Resource::Object(reply.handle_spec()))
        } else {
            None
        },
        CallView::CreateIcon { .. } => if reply.handle_spec() != 0 {
            Some(Resource::Icon(reply.handle_spec()))
        } else {
            None
        },
        CallView::CreateMenu => if reply.handle_spec() != 0 {
            Some(Resource::Menu(reply.handle_spec()))
        } else {
            None
        },
        _ => None,
    }
}

/// What a call gives back to the system. A menu that is put into another one
/// goes with it, unless the system would not put it in.
pub open spec fn given_back(call: CallView, reply: Reply) -> Option<Resource> {
    match call {
        CallView::DestroyWindow { window } => Some(Resource::Window(window)),
        CallView::DestroyIcon { icon } => Some(Resource::Icon(icon)),
        CallView::ReleaseDc { dc } => if dc != 0 {
            Some(Resource::Dc(dc))
        } else {
            None
        },
        CallView::DeleteObject { object } => Some(Resource::Object(object)),
        CallView::DestroyMenu { menu } => Some(Resource::Menu(menu)),
        CallView::AppendMenu { flags, item, .. } => if flags == MF_POPUP | MF_STRING && reply
            != Reply::Flag(false) {
            Some(Resource::Menu(item))
        } else {
            None
        },
        _ => None,
    }
}

/// What stays behind after a call, with nobody to give it back: a menu that the
/// system would not put into another one, and a bitmap that has no place for its
/// pixels.
pub open spec fn stray(call: CallView, reply: Reply) -> Option<Resource> {
    match call {
        CallView::AppendMenu { flags, item, .. } => if flags == MF_POPUP | MF_STRING && reply
            == Reply::Flag(false) {
            Some(Resource::Menu(item))
        } else {
            None
        },
        CallView::CreateSection { .. } => if reply.bitmap_spec() != 0 && reply.bits_spec() == 0 {
            Some(Resource::Object(reply.bitmap_spec()))
        } else {
            None
        },
        _ => None,
    }
}

/// The calls that an operation makes, with the replies to them. The operation is
/// given by the call that it makes after each sequence of replies.
pub open spec fn trace(
    calls: spec_fn(Seq<Reply>) -> Option<CallView>,
    replies: Seq<Reply>,
) -> Seq<(CallView, Reply)> {
    Seq::new(replies.len(), |i: int| (calls(replies.take(i))->0, replies[i]))
}

/// Whether each reply answers a call of an operation.
pub open spec fn answered(
    calls: spec_fn(Seq<Reply>) -> Option<CallView>,
    replies: Seq<Reply>,
) -> bool {
    forall|i: int| 0 <= i < replies.len() ==> calls(#[trigger] replies.take(i)) is Some
}

/// How often a resource was taken in one call, less how often it was given back.
pub open spec fn change(call: CallView, reply: Reply, resource: Resource) -> int {
    only(taken(call, reply), resource) - only(given_back(call, reply), resource)
}

/// How often a resource was taken in the course of some calls, less how often
/// it was given back.
pub open spec fn balance(calls: Seq<(CallView, Reply)>, resource: Resource) -> int
    decreases calls.len(),
{
    if calls.len() == 0 {
        0
    } else {
        balance(calls.drop_last(), resource) + change(calls.last().0, calls.last().1, resource)
    }
}

/// How often a resource stayed behind in the course of some calls.
pub open spec fn strays(calls: Seq<(CallView, Reply)>, resource: Resource) -> int
    decreases calls.len(),
{
    if calls.len() == 0 {
        0
    } else {
        strays(calls.drop_last(), resource) + only(
            stray(calls.last().0, calls.last().1),
            resource,
        )
    }
}

/// How often a resource is held where at most one is.
pub open spec fn only(held: Option<Resource>, resource: Resource) -> int {
    if held == Some(resource) {
        1
    } else {
        0
    }
}

/// How often a resource is held after some calls, those aside that stayed behind.
pub open spec fn held(calls: Seq<(CallView, Reply)>, resource: Resource) -> int {
    balance(calls, resource) - strays(calls, resource)
}

/// By how much one call changes how often a resource is held.
pub open spec fn held_change(call: CallView, reply: Reply, resource: Resource) -> int {
    change(call, reply, resource) - only(stray(call, reply), resource)
}

pub(crate) proof fn lemma_held_push(
    calls: Seq<(CallView, Reply)>,
    call: CallView,
    reply: Reply,
    resource: Resource,
)
    ensures
        held(calls.push((call, reply)), resource) == held(calls, resource) + held_change(
            call,
            reply,
            resource,
        ),
{
    assert(calls.push((call, reply)).drop_last() =~= calls);
}

/// One more reply is one more call in a trace.
pub(crate) proof fn lemma_trace_push(
    calls: spec_fn(Seq<Reply>) -> Option<CallView>,
    replies: Seq<Reply>,
    reply: Reply,
)
    requires
        answered(calls, replies.push(reply)),
    ensures
        answered(calls, replies),
        calls(replies) is Some,
        trace(calls, replies.push(reply)) == trace(calls, replies).push(
            (calls(replies)->0, reply),
        ),
{
    let longer = replies.push(reply);
    assert(longer.take(replies.len() as int) =~= replies);
    assert forall|i: int| 0 <= i < replies.len() implies calls(#[trigger] replies.take(i)) is Some
    by {
        assert(longer.take(i) =~= replies.take(i));
    }
    assert forall|i: int| 0 <= i < replies.len() implies #[trigger] longer.take(i) == replies.take(
        i,
    ) by {
        assert(longer.take(i) =~= replies.take(i));
    }
    assert(trace(calls, longer) =~= trace(calls, replies).push((calls(replies)->0, reply)));
}

} // verus!
