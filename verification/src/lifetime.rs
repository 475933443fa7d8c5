//! A tray from its making to its end.

use vstd::prelude::*;

use crate::create::CreationRun;
use crate::error::WindowsTrayError;
use crate::ledger::Resource;
use crate::system::{CallView, Reply};
use crate::tray::TrayView;
use crate::update::UpdateRun;

verus! {

/// The tray after some updates of its icon.
pub open spec fn tray_after(tray: TrayView, updates: Seq<UpdateRun>) -> TrayView {
    if updates.len() == 0 {
        tray
    } else {
        updates.last().state()
    }
}

/// Whether updates of the icon were made one after the other, each to its end.
/// Between two of them the menu and the tooltip may have changed, but not the
/// window or the icon.
pub open spec fn in_sequence(tray: TrayView, updates: Seq<UpdateRun>) -> bool {
    forall|i: int|
        0 <= i < updates.len() ==> {
            let update = #[trigger] updates[i];
            let before = tray_after(tray, updates.take(i));
            &&& crate::ledger::answered(update.calls(), update.replies)
            &&& update.call() is None
            &&& update.before.window == before.window
            &&& update.before.icon == before.icon
        }
}

/// The calls of some updates, with the replies to them.
pub open spec fn update_calls(updates: Seq<UpdateRun>) -> Seq<(CallView, Reply)>
    decreases updates.len(),
{
    if updates.len() == 0 {
        Seq::empty()
    } else {
        update_calls(updates.drop_last()) + crate::ledger::trace(
            updates.last().calls(),
            updates.last().replies,
        )
    }
}

proof fn lemma_held_add(
    first: Seq<(CallView, Reply)>,
    second: Seq<(CallView, Reply)>,
    resource: Resource,
)
    ensures
        crate::ledger::held(first + second, resource) == crate::ledger::held(first, resource)
            + crate::ledger::held(second, resource),
    decreases second.len(),
{
    if second.len() == 0 {
        assert(first + second =~= first);
    } else {
        lemma_held_add(first, second.drop_last(), resource);
        assert((first + second).drop_last() =~= first + second.drop_last());
    }
}

proof fn lemma_updates_held(tray: TrayView, updates: Seq<UpdateRun>, resource: Resource)
    requires
        in_sequence(tray, updates),
    ensures
        tray.holds(resource) + crate::ledger::held(update_calls(updates), resource) == tray_after(
            tray,
            updates,
        ).holds(resource),
    decreases updates.len(),
{
    if updates.len() > 0 {
        let earlier = updates.drop_last();
        let last = updates.last();
        assert(updates.take(updates.len() - 1) =~= earlier);
        assert(last == updates[updates.len() - 1]);
        assert forall|i: int| 0 <= i < earlier.len() implies {
            let update = #[trigger] earlier[i];
            let before = tray_after(tray, earlier.take(i));
            &&& crate::ledger::answered(update.calls(), update.replies)
            &&& update.call() is None
            &&& update.before.window == before.window
            &&& update.before.icon == before.icon
        } by {
            assert(earlier.take(i) =~= updates.take(i));
            assert(earlier[i] == updates[i]);
        }
        lemma_updates_held(tray, earlier, resource);
        crate::update::law_icons_exchanged(last, resource);
        lemma_held_add(
            update_calls(earlier),
            crate::ledger::trace(last.calls(), last.replies),
            resource,
        );
    }
}

/// Whatever the system replies, and however often the icon, the menu and the
/// tooltip of a tray are set, by the time the tray has been taken away everything
/// that was taken for it has been given back, but for bitmaps that have no place
/// for their pixels. What is taken away has the window and the icon that the last
/// update of the icon left.
pub proof fn law_everything_given_back(
    creation: CreationRun,
    made: TrayView,
    updates: Seq<UpdateRun>,
    tray: TrayView,
    replies: Seq<Reply>,
    resource: Resource,
)
    requires
        crate::ledger::answered(creation.calls(), creation.replies),
        creation.call() is None,
        creation.outcome() == Some(Ok::<TrayView, WindowsTrayError>(made)),
        in_sequence(made, updates),
        tray.window == tray_after(made, updates).window,
        tray.icon == tray_after(made, updates).icon,
        replies.len() == tray.teardown().len(),
    ensures
        ({
            let calls = crate::ledger::trace(creation.calls(), creation.replies) + update_calls(
                updates,
            ) + crate::tray::with_replies(tray.teardown(), replies);
            crate::ledger::balance(calls, resource) == crate::ledger::strays(calls, resource)
        }),
{
    let first = crate::ledger::trace(creation.calls(), creation.replies);
    let last = crate::tray::with_replies(tray.teardown(), replies);
    crate::create::law_creation_keeps_nothing_else(creation, resource);
    lemma_updates_held(made, updates, resource);
    crate::tray::law_teardown_gives_back(tray, replies, resource);
    lemma_held_add(first, update_calls(updates), resource);
    lemma_held_add(first + update_calls(updates), last, resource);
}

} // verus!
