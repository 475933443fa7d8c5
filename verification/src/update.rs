//! Setting another icon.

use vstd::prelude::*;

use crate::error::WindowsTrayError;
use crate::icon::{IconBuild, IconRun};
use crate::ledger::Resource;
use crate::pixels::{BgraImage, BgraView};
use crate::system::{
    CallView, NotifyIconData, NotifyView, Reply, Step, SystemCall, NIF_ICON, NIF_MESSAGE,
    NIM_MODIFY,
};
use crate::tray::{notify_result, TrayState, TrayView};

verus! {

/// The setting of another icon: the tray as it was, the image, or why there is
/// none, and the replies to the calls made so far.
pub struct UpdateRun {
    pub before: TrayView,
    pub image: Result<BgraView, WindowsTrayError>,
    pub replies: Seq<Reply>,
}

impl UpdateRun {
    /// The making of the icon.
    pub open spec fn building(self) -> IconRun {
        IconRun { image: self.image, replies: self.replies }
    }

    /// The icon that was made.
    pub open spec fn icon(self) -> Result<usize, WindowsTrayError> {
        self.building().outcome()
    }

    /// The replies that came after the icon was made.
    pub open spec fn later(self) -> Seq<Reply> {
        self.replies.skip(self.building().span())
    }

    /// The tray with an icon, and what the shell is then told.
    pub open spec fn with_icon(self, icon: usize) -> TrayView {
        TrayView {
            icon,
            nid: NotifyView { icon, flags: NIF_ICON | NIF_MESSAGE, ..self.before.nid },
            ..self.before
        }
    }

    /// The tray as it is. It has the new icon as soon as that is made, and the
    /// old one again where the shell does not take the new one.
    pub open spec fn state(self) -> TrayView {
        if self.building().call() is Some {
            self.before
        } else {
            match self.icon() {
                Err(_) => self.before,
                Ok(icon) => if self.later().len() == 0 || self.later()[0].flag_spec() {
                    self.with_icon(icon)
                } else {
                    self.with_icon(self.before.icon)
                },
            }
        }
    }

    /// The next call, if there is one.
    pub open spec fn call(self) -> Option<CallView> {
        if self.building().call() is Some {
            self.building().call()
        } else {
            match self.icon() {
                Err(_) => None,
                Ok(icon) => if self.later().len() == 0 {
                    Some(
                        CallView::NotifyIcon {
                            message: NIM_MODIFY,
                            data: self.with_icon(icon).nid,
                        },
                    )
                } else if self.later().len() > 1 {
                    None
                } else if !self.later()[0].flag_spec() {
                    Some(CallView::DestroyIcon { icon })
                } else if self.before.icon != 0 {
                    Some(CallView::DestroyIcon { icon: self.before.icon })
                } else {
                    None
                },
            }
        }
    }

    /// What the setting of the icon comes to, once there is no next call.
    pub open spec fn outcome(self) -> Result<(), WindowsTrayError> {
        match self.icon() {
            Err(error) => Err(error),
            Ok(_) => crate::tray::notified(self.later()[0].flag_spec()),
        }
    }

    /// The call that is made after each sequence of replies.
    pub open spec fn calls(self) -> spec_fn(Seq<Reply>) -> Option<CallView> {
        |replies: Seq<Reply>| UpdateRun { replies, ..self }.call()
    }

    /// The run after one more reply.
    pub open spec fn after(self, reply: Reply) -> UpdateRun {
        if self.call() is None {
            self
        } else {
            UpdateRun { replies: self.replies.push(reply), ..self }
        }
    }
}

/// What remains to be done for a new icon.
#[derive(Clone, Copy)]
enum UpdateStage {
    Build,
    Tell { icon: usize },
    Drop { icon: usize, result: Result<(), WindowsTrayError> },
    Ended { result: Result<(), WindowsTrayError> },
}

/// The setting of another icon.
pub struct IconUpdate {
    old_icon: usize,
    nid: NotifyIconData,
    build: IconBuild,
    stage: UpdateStage,
    run: Ghost<UpdateRun>,
}

impl View for IconUpdate {
    type V = UpdateRun;

    closed spec fn view(&self) -> UpdateRun {
        self.run@
    }
}

impl IconUpdate {
    /// Whether the stage is the one that the replies lead to.
    pub closed spec fn wf(&self) -> bool {
        let run = self@;
        let built = run.building().call() is None && run.replies.len() >= run.building().span();
        &&& self.build.wf()
        &&& run.before.sound()
        &&& self.old_icon == run.before.icon
        &&& match self.stage {
            UpdateStage::Build => {
                &&& self.build@ == run.building()
                &&& run.building().call() is Some
            },
            UpdateStage::Tell { icon } => {
                &&& built
                &&& run.icon() == Ok::<usize, WindowsTrayError>(icon)
                &&& run.later().len() == 0
                &&& self.nid@ == run.with_icon(icon).nid
            },
            UpdateStage::Drop { icon, result } => {
                &&& built
                &&& run.later().len() == 1
                &&& run.call() == Some(CallView::DestroyIcon { icon })
                &&& result == run.outcome()
            },
            UpdateStage::Ended { result } => {
                &&& run.call() is None
                &&& result == run.outcome()
            },
        }
    }

    /// Starts to set another icon, made of an image. Where there is no image, the
    /// tray keeps the icon that it has.
    pub fn new(state: &TrayState, image: Result<BgraImage, WindowsTrayError>) -> (update:
        IconUpdate)
        requires
            state@.sound(),
            image matches Ok(drawn) ==> crate::icon::image_fits(drawn@),
        ensures
            update.wf(),
            update@ == (UpdateRun {
                before: state@,
                image: crate::pixels::image_view(image),
                replies: Seq::empty(),
            }),
    {
        let ghost run = UpdateRun {
            before: state@,
            image: crate::pixels::image_view(image),
            replies: Seq::empty(),
        };
        let build = IconBuild::new(image);
        let stage = match build.result() {
            Some(Err(error)) => UpdateStage::Ended { result: Err(error) },
            _ => UpdateStage::Build,
        };
        IconUpdate { old_icon: state.icon, nid: state.nid, build, stage, run: Ghost(run) }
    }

    /// What comes next: a call, or the end.
    pub fn next(&self) -> (step: Step<Result<(), WindowsTrayError>>)
        requires
            self.wf(),
        ensures
            match step {
                Step::Call(call) => self@.call() == Some(call@),
                Step::Done(result) => self@.call() is None && result == self@.outcome(),
            },
    {
        match self.stage {
            UpdateStage::Build => match self.build.next() {
                Step::Call(call) => Step::Call(call),
                Step::Done(_) => Step::Done(Err(WindowsTrayError::BadIcon)),
            },
            UpdateStage::Tell { icon: _ } => Step::Call(
                SystemCall::NotifyIcon { message: NIM_MODIFY, data: self.nid },
            ),
            UpdateStage::Drop { icon, result: _ } => Step::Call(SystemCall::DestroyIcon { icon }),
            UpdateStage::Ended { result } => Step::Done(result),
        }
    }

    /// Takes the reply to the call that `next` gave, and brings the tray up to
    /// date.
    pub fn reply(&mut self, state: &mut TrayState, reply: Reply)
        requires
            old(self).wf(),
            old(state)@ == old(self)@.state(),
        ensures
            final(self).wf(),
            final(self)@ == old(self)@.after(reply),
            final(state)@ == final(self)@.state(),
            final(state)@.sound(),
            final(state)@.window == old(state)@.window,
    {
        let ghost before = self.run@;
        let ghost run = before.after(reply);
        proof {
            if before.building().call() is None && before.replies.len()
                >= before.building().span() {
                crate::icon::lemma_icon_later(before.building(), reply);
            }
        }
        let stage = match self.stage {
            UpdateStage::Build => {
                self.build.reply(reply);
                match self.build.result() {
                    None => UpdateStage::Build,
                    Some(Err(error)) => UpdateStage::Ended { result: Err(error) },
                    Some(Ok(icon)) => {
                        state.icon = icon;
                        state.nid.icon = icon;
                        state.nid.flags = NIF_ICON | NIF_MESSAGE;
                        self.nid = state.nid;
                        UpdateStage::Tell { icon }
                    },
                }
            },
            UpdateStage::Tell { icon } => {
                let result = notify_result(reply);
                match result {
                    Ok(_) => if self.old_icon != 0 {
                        UpdateStage::Drop { icon: self.old_icon, result }
                    } else {
                        UpdateStage::Ended { result }
                    },
                    Err(_) => {
                        state.icon = self.old_icon;
                        state.nid.icon = self.old_icon;
                        UpdateStage::Drop { icon, result }
                    },
                }
            },
            UpdateStage::Drop { icon: _, result } => UpdateStage::Ended { result },
            UpdateStage::Ended { result: _ } => return ,
        };
        self.stage = stage;
        self.run = Ghost(run);
    }
}

/// How often a resource is held in the course of an update, over what the tray
/// held before.
spec fn held_in_update(run: UpdateRun, resource: Resource) -> int {
    if run.building().call() is Some {
        crate::icon::held_on_the_way(run.building(), resource)
    } else {
        match run.icon() {
            Err(_) => 0,
            Ok(icon) => {
                let made = run.later().len();
                let new = crate::ledger::only(Some(Resource::Icon(icon)), resource);
                let old = crate::ledger::only(Some(Resource::Icon(run.before.icon)), resource);
                if made < 2 {
                    new
                } else if !run.later()[0].flag_spec() {
                    0
                } else {
                    new - old
                }
            },
        }
    }
}

proof fn lemma_update_held(run: UpdateRun, resource: Resource)
    requires
        crate::ledger::answered(run.calls(), run.replies),
    ensures
        crate::ledger::held(crate::ledger::trace(run.calls(), run.replies), resource)
            == held_in_update(run, resource),
        run.building().call() is None ==> run.replies.len() >= run.building().span(),
        run.building().call() is None && run.icon() is Ok ==> run.later().len() <= 2,
    decreases run.replies.len(),
{
    let calls = run.calls();
    if run.replies.len() == 0 {
        crate::icon::lemma_icon_start(run.building(), resource);
    } else {
        let shorter = UpdateRun { replies: run.replies.drop_last(), ..run };
        let last = run.replies.last();
        assert(run.replies =~= shorter.replies.push(last));
        assert(shorter.calls() =~= calls);
        crate::ledger::lemma_trace_push(calls, shorter.replies, last);
        lemma_update_held(shorter, resource);
        crate::ledger::lemma_held_push(
            crate::ledger::trace(calls, shorter.replies),
            shorter.call()->0,
            last,
            resource,
        );
        if shorter.building().call() is Some {
            crate::icon::lemma_icon_step(shorter.building(), last, resource);
            if run.building().call() is None {
                crate::icon::lemma_icon_end(run.building(), resource);
            }
        } else {
            crate::icon::lemma_icon_later(shorter.building(), last);
        }
    }
}

/// After an update the tray holds the icon that it has now, and no longer the one
/// that it had before: what was taken and given back in between comes to just
/// that, but for a bitmap that has no place for its pixels.
pub proof fn law_icons_exchanged(run: UpdateRun, resource: Resource)
    requires
        crate::ledger::answered(run.calls(), run.replies),
        run.call() is None,
    ensures
        run.before.holds(resource) + crate::ledger::balance(
            crate::ledger::trace(run.calls(), run.replies),
            resource,
        ) == run.state().holds(resource) + crate::ledger::strays(
            crate::ledger::trace(run.calls(), run.replies),
            resource,
        ),
{
    lemma_update_held(run, resource);
}

/// An update that fails leaves the tray with the icon that it had. Only the flags
/// of what the shell was told last can differ, and only where the shell did not
/// take the new icon.
pub proof fn law_failed_update_keeps_icon(run: UpdateRun)
    requires
        run.before.sound(),
        run.call() is None,
        run.outcome() is Err,
    ensures
        run.icon() is Err ==> run.state() == run.before,
        run.icon() is Ok ==> run.state() == (TrayView {
            nid: NotifyView { flags: NIF_ICON | NIF_MESSAGE, ..run.before.nid },
            ..run.before
        }),
{
}

/// An update that succeeds leaves the tray with the icon that was made, and the
/// shell was told of it.
pub proof fn law_update_sets_icon(run: UpdateRun)
    requires
        run.call() is None,
        run.outcome() is Ok,
    ensures
        run.icon() == Ok::<usize, WindowsTrayError>(run.state().icon),
        run.state().nid.icon == run.state().icon,
        run.later()[0].flag_spec(),
{
}

/// At every moment of an update the shell was told of the icon that the tray has.
pub proof fn law_update_keeps_sound(run: UpdateRun)
    requires
        run.before.sound(),
    ensures
        run.state().sound(),
        run.state().window == run.before.window,
        run.state().menu == run.before.menu,
        run.state().map == run.before.map,
        run.state().nid.tip == run.before.nid.tip,
        run.state().restart_message == run.before.restart_message,
{
}

/// An update ends, after ten calls at most.
pub proof fn law_update_ends(run: UpdateRun)
    requires
        run.replies.len() >= 10,
    ensures
        run.call() is None,
{
}

/// Whether the system made an icon, and all that it takes.
pub open spec fn icon_made(image: Result<BgraView, WindowsTrayError>, replies: Seq<Reply>) -> bool {
    &&& image is Ok
    &&& replies.len() >= 8
    &&& replies[1].bitmap_spec() != 0
    &&& replies[1].bits_spec() != 0
    &&& replies[4].handle_spec() != 0
    &&& replies[5].handle_spec() != 0
}

proof fn lemma_icon_made(run: UpdateRun)
    ensures
        run.building().call() is None && run.icon() is Ok && run.replies.len() >= 8 <==> icon_made(
            run.image,
            run.replies,
        ),
        icon_made(run.image, run.replies) ==> {
            &&& run.later().len() == run.replies.len() - 8
            &&& run.later().len() > 0 ==> run.later()[0] == run.replies[8]
            &&& run.icon() == Ok::<usize, WindowsTrayError>(run.replies[5].handle_spec())
        },
{
}

/// Every call of an update comes at its time. The shell is told of the icon that the
/// system made, and of nothing else that is new. The icon that is destroyed is the
/// one that the tray had where the shell took the new one, and the new one where it
/// did not. All other calls are those for the icon.
pub proof fn law_calls_of_an_update(run: UpdateRun)
    requires
        run.call() is Some,
    ensures
        match run.call()->0 {
            CallView::NotifyIcon { message, data } => {
                &&& message == 1
                &&& run.replies.len() == 8
                &&& icon_made(run.image, run.replies)
                &&& data.icon == run.replies[5].handle_spec()
                &&& data.flags == 3
                &&& data.window == run.before.nid.window
                &&& data.id == run.before.nid.id
                &&& data.callback_message == run.before.nid.callback_message
                &&& data.tip == run.before.nid.tip
                &&& data == run.state().nid
                &&& run.state().icon == data.icon
            },
            CallView::DestroyIcon { icon } => {
                &&& run.replies.len() == 9
                &&& icon_made(run.image, run.replies)
                &&& icon == if run.replies[8] == Reply::Flag(true) {
                    run.before.icon
                } else {
                    run.replies[5].handle_spec()
                }
                &&& icon != 0
            },
            _ => run.call() == (IconRun { image: run.image, replies: run.replies }).call(),
        },
{
    lemma_icon_made(run);
    assert(2u32 | 1 == 3) by (bit_vector);
}

/// An update goes on with the calls for the icon; then, if there is one, it tells
/// the shell; then it destroys the icon that is not wanted, if there is one; and then
/// it ends. It succeeds where the shell took the icon, and only there.
pub proof fn law_update_goes_on(run: UpdateRun)
    ensures
        ({
            let building = IconRun { image: run.image, replies: run.replies };
            let made = icon_made(run.image, run.replies);
            let told = run.replies[8] == Reply::Flag(true);
            let count = run.replies.len();
            &&& building.call() is Some ==> run.call() == building.call()
            &&& building.call() is None && !made ==> {
                &&& building.outcome() is Err ==> run.call() is None && run.outcome() == Err::<
                    (),
                    WindowsTrayError,
                >(building.outcome()->Err_0)
            }
            &&& made && count == 8 ==> run.call() is Some && run.call()->0 is NotifyIcon
            &&& made && count == 9 ==> (run.call() is Some <==> !told || run.before.icon != 0)
            &&& made && count >= 10 ==> run.call() is None
            &&& made && count >= 9 ==> run.outcome() == if told {
                Ok::<(), WindowsTrayError>(())
            } else {
                Err(WindowsTrayError::ApiFailed("Shell_NotifyIconW"))
            }
        }),
{
    lemma_icon_made(run);
}

/// The tray is as it was until the icon is made, and stays so where none is. It has
/// the new icon then, unless the shell does not take it: then it has the old one.
/// Apart from the icon, and what the shell was last told to look at, nothing changes.
pub proof fn law_tray_during_update(run: UpdateRun)
    ensures
        ({
            let building = IconRun { image: run.image, replies: run.replies };
            let made = icon_made(run.image, run.replies);
            let kept = run.replies.len() == 8 || run.replies[8] == Reply::Flag(true);
            let state = run.state();
            let before = run.before;
            &&& building.call() is Some || building.outcome() is Err ==> state == before
            &&& made ==> {
                &&& state.icon == if kept {
                    run.replies[5].handle_spec()
                } else {
                    before.icon
                }
                &&& state.nid.icon == state.icon
                &&& state.nid.flags == 3
            }
            &&& state.window == before.window
            &&& state.menu == before.menu
            &&& state.map == before.map
            &&& state.restart_message == before.restart_message
            &&& state.nid.window == before.nid.window
            &&& state.nid.id == before.nid.id
            &&& state.nid.callback_message == before.nid.callback_message
            &&& state.nid.tip == before.nid.tip
        }),
{
    lemma_icon_made(run);
    assert(2u32 | 1 == 3) by (bit_vector);
}

/// A reply is kept for as long as there is a call to answer.
pub proof fn law_update_replies_kept(run: UpdateRun, reply: Reply)
    ensures
        run.after(reply).before == run.before,
        run.after(reply).image == run.image,
        run.after(reply).replies == if run.call() is Some {
            run.replies.push(reply)
        } else {
            run.replies
        },
{
}

} // verus!
