//! Making a tray.

use std::collections::HashMap;

use vstd::prelude::*;

use crate::decode::icon_to_bgra;
use crate::error::WindowsTrayError;
use crate::icon::{IconBuild, IconRun};
use crate::ledger::Resource;
use crate::model::{CommandId, ItemView, TrayMenuModel, TrayModel};
use crate::pixels::{BgraImage, BgraView};
use crate::system::{
    CallView, NotifyIconData, NotifyView, Reply, Step, SystemCall, NIF_ICON, NIF_MESSAGE, NIF_TIP,
    NIM_ADD, WM_TRAYICON,
};
use crate::tooltip::write_tooltip;
use crate::tray::{TrayState, TrayView, WindowsTrayHandle, ICON_ID};
use crate::wide::to_wide;

verus! {

/// The class of the windows that get the messages of tray icons.
pub const TRAY_WINDOW_CLASS: &'static str = "MakepadShellTrayWindow";

/// The message by which the shell says that it started anew.
pub const TASKBAR_CREATED: &'static str = "TaskbarCreated";

/// What the shell is first told of an icon.
pub open spec fn first_nid(window: usize, icon: usize, tooltip: Option<Seq<char>>) -> NotifyView {
    NotifyView {
        window,
        id: ICON_ID,
        flags: if tooltip is Some {
            NIF_MESSAGE | NIF_ICON | NIF_TIP
        } else {
            NIF_MESSAGE | NIF_ICON
        },
        callback_message: WM_TRAYICON,
        icon,
        tip: crate::tooltip::tip_of(tooltip),
    }
}

/// The making of a tray: the image of its icon, or why there is none, its tooltip
/// and its menu, and the replies to the calls made so far. Of some icons it cannot
/// be said what they look like; the making stops where the image is needed.
pub struct CreationRun {
    pub image: Option<Result<BgraView, WindowsTrayError>>,
    pub tooltip: Option<Seq<char>>,
    pub menu: Seq<ItemView>,
    pub replies: Seq<Reply>,
}

impl CreationRun {
    /// The running program.
    pub open spec fn instance(self) -> usize {
        self.replies[0].handle_spec()
    }

    /// The window that was made.
    pub open spec fn window(self) -> usize {
        self.replies[2].handle_spec()
    }

    /// The making of the icon.
    pub open spec fn building(self) -> IconRun {
        IconRun { image: self.image->0, replies: self.replies.skip(3) }
    }

    /// The icon that was made.
    pub open spec fn icon(self) -> Result<usize, WindowsTrayError> {
        self.building().outcome()
    }

    /// The replies that came after the icon was made.
    pub open spec fn later(self) -> Seq<Reply> {
        self.building().replies.skip(self.building().span())
    }

    /// What the shell is told of the icon.
    pub open spec fn nid(self) -> NotifyView {
        first_nid(self.window(), self.icon()->Ok_0, self.tooltip)
    }

    /// The next call, if there is one.
    pub open spec fn call(self) -> Option<CallView> {
        let class_name = crate::wide::wide(TRAY_WINDOW_CLASS@);
        let window = self.window();
        let made = self.replies.len();
        if made == 0 {
            Some(CallView::GetModuleHandle)
        } else if self.instance() == 0 {
            None
        } else if made == 1 {
            Some(CallView::RegisterClass { instance: self.instance(), class_name })
        } else if made == 2 {
            Some(CallView::CreateWindow { instance: self.instance(), class_name })
        } else if window == 0 || self.image is None {
            None
        } else if self.building().call() is Some {
            self.building().call()
        } else {
            let later = self.later();
            match self.icon() {
                Err(_) => if later.len() == 0 {
                    Some(CallView::DestroyWindow { window })
                } else {
                    None
                },
                Ok(icon) => if later.len() == 0 {
                    Some(CallView::NotifyIcon { message: NIM_ADD, data: self.nid() })
                } else if later[0].flag_spec() {
                    if later.len() == 1 {
                        Some(
                            CallView::RegisterMessage { name: crate::wide::wide(TASKBAR_CREATED@) },
                        )
                    } else if later.len() == 2 {
                        Some(CallView::AttachState { window })
                    } else {
                        None
                    }
                } else {
                    if later.len() == 1 {
                        Some(CallView::DestroyIcon { icon })
                    } else if later.len() == 2 {
                        Some(CallView::DestroyWindow { window })
                    } else {
                        None
                    }
                },
            }
        }
    }

    /// What the making of the tray comes to, once there is no next call. There is
    /// no outcome where there are a program and a window, but it cannot be said
    /// what the icon looks like.
    pub open spec fn outcome(self) -> Option<Result<TrayView, WindowsTrayError>> {
        if self.instance() == 0 {
            Some(Err(WindowsTrayError::ApiFailed("GetModuleHandleW")))
        } else if self.window() == 0 {
            Some(Err(WindowsTrayError::ApiFailed("CreateWindowExW")))
        } else if self.image is None {
            None
        } else {
            Some(
                match self.icon() {
                    Err(error) => Err(error),
                    Ok(icon) => if self.later()[0].flag_spec() {
                        Ok(
                            TrayView {
                                window: self.window(),
                                nid: self.nid(),
                                icon,
                                menu: self.menu,
                                map: Map::empty(),
                                restart_message: self.later()[1].message_spec(),
                            },
                        )
                    } else {
                        Err(WindowsTrayError::ApiFailed("Shell_NotifyIconW"))
                    },
                },
            )
        }
    }

    /// The call that is made after each sequence of replies.
    pub open spec fn calls(self) -> spec_fn(Seq<Reply>) -> Option<CallView> {
        |replies: Seq<Reply>| CreationRun { replies, ..self }.call()
    }

    /// The run after one more reply.
    pub open spec fn after(self, reply: Reply) -> CreationRun {
        if self.call() is None {
            self
        } else {
            CreationRun { replies: self.replies.push(reply), ..self }
        }
    }
}

/// What remains to be done for a tray.
#[derive(Clone, Copy)]
enum CreationStage {
    FindProgram,
    RegisterClass { instance: usize },
    MakeWindow { instance: usize },
    Build { window: usize },
    Tell { nid: NotifyIconData },
    Register { nid: NotifyIconData },
    Attach { nid: NotifyIconData, restart: u32 },
    DropIcon { window: usize, icon: usize, error: WindowsTrayError },
    DropWindow { window: usize, error: WindowsTrayError },
    Failed { error: WindowsTrayError },
    Stopped,
    Made { nid: NotifyIconData, restart: u32 },
}

/// The making of a tray.
pub struct TrayCreation {
    tooltip: Option<String>,
    menu: TrayMenuModel,
    drawn: bool,
    build: IconBuild,
    stage: CreationStage,
    run: Ghost<CreationRun>,
}

impl View for TrayCreation {
    type V = CreationRun;

    closed spec fn view(&self) -> CreationRun {
        self.run@
    }
}

/// A tooltip as a sequence of characters.
pub open spec fn text_view(tooltip: Option<String>) -> Option<Seq<char>> {
    match tooltip {
        Some(text) => Some(text@),
        None => None,
    }
}

/// An image, where it can be said what it looks like, with the pixels as a
/// sequence.
pub open spec fn option_view(image: Option<Result<BgraImage, WindowsTrayError>>) -> Option<
    Result<BgraView, WindowsTrayError>,
> {
    match image {
        Some(known) => Some(crate::pixels::image_view(known)),
        None => None,
    }
}

impl TrayCreation {
    /// Whether the stage is the one that the replies lead to.
    pub closed spec fn wf(&self) -> bool {
        let run = self@;
        let made = run.replies.len();
        let later = run.later();
        &&& self.build.wf()
        &&& run.tooltip == text_view(self.tooltip)
        &&& run.menu == self.menu@
        &&& self.drawn == (run.image is Some)
        &&& match self.stage {
            CreationStage::FindProgram => made == 0 && self.fresh(),
            CreationStage::RegisterClass { instance } => {
                &&& made == 1
                &&& self.fresh()
                &&& instance == run.instance()
                &&& instance != 0
            },
            CreationStage::MakeWindow { instance } => {
                &&& made == 2
                &&& self.fresh()
                &&& instance == run.instance()
                &&& instance != 0
            },
            CreationStage::Build { window } => {
                &&& self.windowed()
                &&& window == run.window()
                &&& self.build@ == run.building()
                &&& run.building().call() is Some
            },
            CreationStage::Tell { nid } => {
                &&& self.built()
                &&& run.icon() is Ok
                &&& later.len() == 0
                &&& nid@ == run.nid()
            },
            CreationStage::Register { nid } => {
                &&& self.built()
                &&& run.icon() is Ok
                &&& later.len() == 1
                &&& later[0].flag_spec()
                &&& nid@ == run.nid()
            },
            CreationStage::Attach { nid, restart } => {
                &&& self.built()
                &&& run.icon() is Ok
                &&& later.len() == 2
                &&& later[0].flag_spec()
                &&& nid@ == run.nid()
                &&& restart == later[1].message_spec()
            },
            CreationStage::DropIcon { window, icon, error } => {
                &&& self.built()
                &&& run.icon() == Ok::<usize, WindowsTrayError>(icon)
                &&& window == run.window()
                &&& later.len() == 1
                &&& !later[0].flag_spec()
                &&& run.outcome() == Some(Err::<TrayView, WindowsTrayError>(error))
            },
            CreationStage::DropWindow { window, error } => {
                &&& self.built()
                &&& run.call() == Some(CallView::DestroyWindow { window })
                &&& run.outcome() == Some(Err::<TrayView, WindowsTrayError>(error))
            },
            CreationStage::Failed { error } => {
                &&& run.call() is None
                &&& run.outcome() == Some(Err::<TrayView, WindowsTrayError>(error))
            },
            CreationStage::Stopped => {
                &&& run.call() is None
                &&& run.outcome() is None
            },
            CreationStage::Made { nid, restart } => {
                &&& self.built()
                &&& run.icon() is Ok
                &&& later.len() == 3
                &&& later[0].flag_spec()
                &&& nid@ == run.nid()
                &&& restart == later[1].message_spec()
            },
        }
    }

    /// Whether nothing was done for the icon yet.
    spec fn fresh(&self) -> bool {
        self@.image matches Some(image) ==> self.build@ == (IconRun {
            image,
            replies: Seq::empty(),
        })
    }

    /// Whether there are a window and an image, or a reason why there is no image.
    spec fn windowed(&self) -> bool {
        let run = self@;
        &&& run.replies.len() >= 3
        &&& run.instance() != 0
        &&& run.window() != 0
        &&& run.image is Some
    }

    /// Whether the icon was made, or found to be bad.
    spec fn built(&self) -> bool {
        let building = self@.building();
        &&& self.windowed()
        &&& building.call() is None
        &&& building.replies.len() >= building.span()
    }

    /// Starts to make a tray, with an icon made of an image. Where there is no
    /// image, there will be no tray.
    pub fn new(
        image: Option<Result<BgraImage, WindowsTrayError>>,
        tooltip: Option<String>,
        menu: TrayMenuModel,
    ) -> (creation: TrayCreation)
        requires
            image matches Some(Ok(drawn)) ==> crate::icon::image_fits(drawn@),
        ensures
            creation.wf(),
            creation@ == (CreationRun {
                image: option_view(image),
                tooltip: text_view(tooltip),
                menu: menu@,
                replies: Seq::empty(),
            }),
    {
        let ghost run = CreationRun {
            image: option_view(image),
            tooltip: text_view(tooltip),
            menu: menu@,
            replies: Seq::empty(),
        };
        let drawn: bool = image.is_some();
        let build = match image {
            Some(image) => IconBuild::new(image),
            None => IconBuild::new(Err(WindowsTrayError::BadIcon)),
        };
        TrayCreation {
            tooltip,
            menu,
            drawn,
            build,
            stage: CreationStage::FindProgram,
            run: Ghost(run),
        }
    }

    /// What comes next: a call, or the tray, or nothing.
    pub fn next(&self) -> (step: Step<Option<Result<WindowsTrayHandle, WindowsTrayError>>>)
        requires
            self.wf(),
        ensures
            match step {
                Step::Call(call) => self@.call() == Some(call@),
                Step::Done(Some(Ok(handle))) => {
                    &&& self@.call() is None
                    &&& handle.wf()
                    &&& self@.outcome() == Some(Ok::<TrayView, WindowsTrayError>(handle@))
                },
                Step::Done(Some(Err(error))) => {
                    &&& self@.call() is None
                    &&& self@.outcome() == Some(Err::<TrayView, WindowsTrayError>(error))
                },
                Step::Done(None) => {
                    &&& self@.call() is None
                    &&& self@.outcome() is None
                },
            },
    {
        match self.stage {
            CreationStage::FindProgram => Step::Call(SystemCall::GetModuleHandle),
            CreationStage::RegisterClass { instance } => {
                let class_name: Vec<u16> = to_wide(TRAY_WINDOW_CLASS);
                Step::Call(SystemCall::RegisterClass { instance, class_name })
            },
            CreationStage::MakeWindow { instance } => {
                let class_name: Vec<u16> = to_wide(TRAY_WINDOW_CLASS);
                Step::Call(SystemCall::CreateWindow { instance, class_name })
            },
            CreationStage::Build { window: _ } => match self.build.next() {
                Step::Call(call) => Step::Call(call),
                Step::Done(_) => Step::Done(Some(Err(WindowsTrayError::BadIcon))),
            },
            CreationStage::Tell { nid } => Step::Call(
                SystemCall::NotifyIcon { message: NIM_ADD, data: nid },
            ),
            CreationStage::Register { nid: _ } => Step::Call(
                SystemCall::RegisterMessage { name: to_wide(TASKBAR_CREATED) },
            ),
            CreationStage::Attach { nid, restart: _ } => Step::Call(
                SystemCall::AttachState { window: nid.window },
            ),
            CreationStage::DropIcon { window: _, icon, error: _ } => Step::Call(
                SystemCall::DestroyIcon { icon },
            ),
            CreationStage::DropWindow { window, error: _ } => Step::Call(
                SystemCall::DestroyWindow { window },
            ),
            CreationStage::Failed { error } => Step::Done(Some(Err(error))),
            CreationStage::Stopped => Step::Done(None),
            CreationStage::Made { nid, restart } => {
                let state = TrayState {
                    hwnd: nid.window,
                    nid,
                    icon: nid.icon,
                    menu: self.menu.clone(),
                    menu_map: HashMap::new(),
                    taskbar_restart_msg: restart,
                };
                Step::Done(Some(Ok(WindowsTrayHandle::new(state))))
            },
        }
    }

    /// Takes the reply to the call that `next` gave.
    pub fn reply(&mut self, reply: Reply)
        requires
            old(self).wf(),
        ensures
            final(self).wf(),
            final(self)@ == old(self)@.after(reply),
    {
        let ghost before = self.run@;
        let ghost run = before.after(reply);
        proof {
            if before.replies.len() >= 3 {
                assert(before.replies.push(reply).skip(3) =~= before.replies.skip(3).push(reply));
            } else if before.replies.len() == 2 {
                assert(before.replies.push(reply).skip(3) =~= Seq::<Reply>::empty());
            }
            if self.built() {
                crate::icon::lemma_icon_later(before.building(), reply);
            }
        }
        let stage = match self.stage {
            CreationStage::FindProgram => {
                let instance: usize = reply.handle();
                if instance == 0 {
                    CreationStage::Failed { error: WindowsTrayError::ApiFailed("GetModuleHandleW") }
                } else {
                    CreationStage::RegisterClass { instance }
                }
            },
            CreationStage::RegisterClass { instance } => CreationStage::MakeWindow { instance },
            CreationStage::MakeWindow { instance: _ } => {
                let window: usize = reply.handle();
                if window == 0 {
                    CreationStage::Failed { error: WindowsTrayError::ApiFailed("CreateWindowExW") }
                } else if !self.drawn {
                    CreationStage::Stopped
                } else {
                    self.icon_stage(window)
                }
            },
            CreationStage::Build { window } => {
                self.build.reply(reply);
                self.icon_stage(window)
            },
            CreationStage::Tell { nid } => if reply.flag() {
                CreationStage::Register { nid }
            } else {
                CreationStage::DropIcon {
                    window: nid.window,
                    icon: nid.icon,
                    error: WindowsTrayError::ApiFailed("Shell_NotifyIconW"),
                }
            },
            CreationStage::Register { nid } => CreationStage::Attach {
                nid,
                restart: reply.message(),
            },
            CreationStage::Attach { nid, restart } => CreationStage::Made { nid, restart },
            CreationStage::DropIcon { window, icon: _, error } => CreationStage::DropWindow {
                window,
                error,
            },
            CreationStage::DropWindow { window: _, error } => CreationStage::Failed { error },
            CreationStage::Failed { error: _ } => return ,
            CreationStage::Stopped => return ,
            CreationStage::Made { nid: _, restart: _ } => return ,
        };
        self.stage = stage;
        self.run = Ghost(run);
    }

    /// What comes after a reply once there is a window.
    fn icon_stage(&self, window: usize) -> (stage: CreationStage)
        requires
            self.build.wf(),
        ensures
            ({
                let build = self.build@;
                match stage {
                    CreationStage::Build { window: kept } => {
                        &&& kept == window
                        &&& build.call() is Some
                    },
                    CreationStage::DropWindow { window: kept, error } => {
                        &&& kept == window
                        &&& build.call() is None
                        &&& build.replies.len() == build.span()
                        &&& build.outcome() == Err::<usize, WindowsTrayError>(error)
                    },
                    CreationStage::Tell { nid } => {
                        &&& build.call() is None
                        &&& build.replies.len() == build.span()
                        &&& build.outcome() == Ok::<usize, WindowsTrayError>(nid.icon)
                        &&& nid@ == first_nid(window, nid.icon, text_view(self.tooltip))
                    },
                    _ => false,
                }
            }),
    {
        match self.build.result() {
            None => CreationStage::Build { window },
            Some(Err(error)) => CreationStage::DropWindow { window, error },
            Some(Ok(icon)) => CreationStage::Tell { nid: nid_of(window, icon, &self.tooltip) },
        }
    }
}

/// What the shell is first told of an icon.
fn nid_of(window: usize, icon: usize, tooltip: &Option<String>) -> (nid: NotifyIconData)
    ensures
        nid@ == first_nid(window, icon, text_view(*tooltip)),
{
    let mut nid = NotifyIconData {
        window,
        id: ICON_ID,
        flags: NIF_MESSAGE | NIF_ICON,
        callback_message: WM_TRAYICON,
        icon,
        tip: [0u16; 128],
    };
    match tooltip {
        Some(text) => {
            write_tooltip(&mut nid, Some(text.as_str()));
            nid.flags = nid.flags | NIF_TIP;
        },
        None => write_tooltip(&mut nid, None),
    }
    nid
}

/// Starts to make a tray. Where the decoder does not take the bytes of the icon,
/// or its image is too large for a bitmap, the making stops once there is a
/// window.
pub fn create_tray_windows(model: TrayModel) -> (creation: TrayCreation)
    ensures
        creation.wf(),
        creation@ == (CreationRun {
            image: if crate::decode::icon_fits(model.icon->bytes@) {
                Some(crate::decode::icon_image(model.icon->bytes@))
            } else {
                None
            },
            tooltip: text_view(model.tooltip),
            menu: model.menu@,
            replies: Seq::empty(),
        }),
        creation@.image is None ==> !crate::decode::decodable(model.icon->bytes@)
            || crate::decode::makes_no_bitmap(model.icon->bytes@),
        crate::decode::unreadable(model.icon->bytes@) ==> creation@.image == Some(
            Err::<BgraView, WindowsTrayError>(WindowsTrayError::BadIcon),
        ),
{
    let image = icon_to_bgra(&model.icon);
    TrayCreation::new(image, model.tooltip, model.menu)
}

/// How often a resource is held in the course of the making of a tray.
spec fn held_in_creation(run: CreationRun, resource: Resource) -> int {
    let window = crate::ledger::only(Some(Resource::Window(run.window())), resource);
    if run.replies.len() < 3 || run.window() == 0 {
        0
    } else if run.image is None {
        window
    } else if run.building().call() is Some {
        window + crate::icon::held_on_the_way(run.building(), resource)
    } else {
        let made = run.later().len();
        match run.icon() {
            Err(_) => if made == 0 {
                window
            } else {
                0
            },
            Ok(handle) => {
                let icon = crate::ledger::only(Some(Resource::Icon(handle)), resource);
                if made < 2 || run.later()[0].flag_spec() {
                    window + icon
                } else if made == 2 {
                    window
                } else {
                    0
                }
            },
        }
    }
}

proof fn lemma_creation_held(run: CreationRun, resource: Resource)
    requires
        crate::ledger::answered(run.calls(), run.replies),
    ensures
        crate::ledger::held(crate::ledger::trace(run.calls(), run.replies), resource)
            == held_in_creation(run, resource),
        run.replies.len() > 1 ==> run.instance() != 0,
        run.replies.len() > 3 ==> run.window() != 0,
        run.replies.len() > 3 ==> run.image is Some,
        run.replies.len() >= 3 && run.window() != 0 && run.image is Some
            && run.building().call() is None ==> run.building().replies.len() >= run.building().span(),
    decreases run.replies.len(),
{
    let calls = run.calls();
    if run.replies.len() > 0 {
        let shorter = CreationRun { replies: run.replies.drop_last(), ..run };
        let last = run.replies.last();
        assert(run.replies =~= shorter.replies.push(last));
        assert(shorter.calls() =~= calls);
        crate::ledger::lemma_trace_push(calls, shorter.replies, last);
        lemma_creation_held(shorter, resource);
        crate::ledger::lemma_held_push(
            crate::ledger::trace(calls, shorter.replies),
            shorter.call()->0,
            last,
            resource,
        );
        if shorter.replies.len() == 2 {
            assert(run.building().replies =~= Seq::<Reply>::empty());
            crate::icon::lemma_icon_start(run.building(), resource);
        } else if shorter.replies.len() >= 3 {
            assert(run.building().replies =~= shorter.building().replies.push(last));
            if shorter.building().call() is Some {
                crate::icon::lemma_icon_step(shorter.building(), last, resource);
                if run.building().call() is None {
                    crate::icon::lemma_icon_end(run.building(), resource);
                }
            } else {
                crate::icon::lemma_icon_later(shorter.building(), last);
            }
        }
    }
}

/// A tray that was made holds its window and its icon. Where no tray was made,
/// nothing is held, but for a bitmap that has no place for its pixels. Where the
/// making stopped for want of an image, the window is held.
pub proof fn law_creation_keeps_nothing_else(run: CreationRun, resource: Resource)
    requires
        crate::ledger::answered(run.calls(), run.replies),
        run.call() is None,
    ensures
        crate::ledger::balance(crate::ledger::trace(run.calls(), run.replies), resource)
            == crate::ledger::strays(crate::ledger::trace(run.calls(), run.replies), resource) + (
        match run.outcome() {
            Some(Ok(tray)) => tray.holds(resource),
            Some(Err(_)) => 0,
            None => crate::ledger::only(Some(Resource::Window(run.window())), resource),
        }),
{
    lemma_creation_held(run, resource);
}

/// What the shell was told of a tray that was made is sound, and the icon is the
/// one that was made for it.
pub proof fn law_created_tray_sound(run: CreationRun, tray: TrayView)
    requires
        run.call() is None,
        run.outcome() == Some(Ok::<TrayView, WindowsTrayError>(tray)),
    ensures
        tray.sound(),
        run.icon() == Ok::<usize, WindowsTrayError>(tray.icon),
        tray.menu == run.menu,
        tray.nid.tip == crate::tooltip::tip_of(run.tooltip),
{
}

/// Without an image there is no tray: once there is a window, the reason why there
/// is no image is the reason why there is no tray.
pub proof fn law_no_tray_without_image(run: CreationRun, error: WindowsTrayError)
    requires
        run.image == Some(Err::<BgraView, WindowsTrayError>(error)),
        run.instance() != 0,
        run.window() != 0,
    ensures
        run.outcome() == Some(Err::<TrayView, WindowsTrayError>(error)),
{
}

/// Whatever the icon, a program that is not found and a window that is not made
/// are reported as such, and nothing is asked for after them.
pub proof fn law_icon_comes_after_the_window(run: CreationRun)
    requires
        run.replies.len() > 0,
    ensures
        run.instance() == 0 ==> {
            &&& run.call() is None
            &&& run.outcome() == Some(
                Err::<TrayView, WindowsTrayError>(WindowsTrayError::ApiFailed("GetModuleHandleW")),
            )
        },
        run.replies.len() > 2 && run.instance() != 0 && run.window() == 0 ==> {
            &&& run.call() is None
            &&& run.outcome() == Some(
                Err::<TrayView, WindowsTrayError>(WindowsTrayError::ApiFailed("CreateWindowExW")),
            )
        },
{
}

/// The making of a tray ends, after fourteen calls at most.
pub proof fn law_creation_ends(run: CreationRun)
    requires
        run.replies.len() >= 14,
    ensures
        run.call() is None,
{
}

/// Whether the system made an icon once there was a window.
pub open spec fn icon_made(run: CreationRun) -> bool {
    &&& run.image is Some
    &&& run.replies.len() >= 3
    &&& crate::update::icon_made(run.image->0, run.replies.skip(3))
}

proof fn lemma_created_icon(run: CreationRun)
    ensures
        run.replies.len() >= 11 && run.image is Some && run.building().call() is None && run.icon()
            is Ok <==> icon_made(run),
        icon_made(run) ==> {
            &&& run.later().len() == run.replies.len() - 11
            &&& run.later().len() > 0 ==> run.later()[0] == run.replies[11]
            &&& run.later().len() > 1 ==> run.later()[1] == run.replies[12]
            &&& run.icon() == Ok::<usize, WindowsTrayError>(run.replies[8].handle_spec())
            &&& run.replies[8].handle_spec() != 0
        },
{
    if run.replies.len() >= 3 {
        let rest = run.replies.skip(3);
        assert(forall|i: int| 0 <= i < rest.len() ==> rest[i] == run.replies[i + 3]);
    }
}

/// Every call of the making of a tray comes at its time and carries what it should:
/// the class and the window have their name and belong to the program, the shell is
/// told of the window, of the icon that the system made and of the tooltip, and what
/// is destroyed is that icon and that window, and only where there will be no tray.
/// All other calls are those for the icon.
pub proof fn law_calls_of_a_creation(run: CreationRun)
    requires
        run.call() is Some,
    ensures
        ({
            let made = run.replies.len();
            let window = run.replies[2].handle_spec();
            match run.call()->0 {
                CallView::GetModuleHandle => made == 0,
                CallView::RegisterClass { instance, class_name } => {
                    &&& made == 1
                    &&& instance == run.replies[0].handle_spec()
                    &&& class_name == crate::wide::wide("MakepadShellTrayWindow"@)
                },
                CallView::CreateWindow { instance, class_name } => {
                    &&& made == 2
                    &&& instance == run.replies[0].handle_spec()
                    &&& class_name == crate::wide::wide("MakepadShellTrayWindow"@)
                },
                CallView::NotifyIcon { message, data } => {
                    &&& made == 11
                    &&& icon_made(run)
                    &&& message == 0
                    &&& data.window == window
                    &&& data.id == 1
                    &&& data.flags == if run.tooltip is Some {
                        7u32
                    } else {
                        3
                    }
                    &&& data.callback_message == 0x8001
                    &&& data.icon == run.replies[8].handle_spec()
                    &&& data.tip == crate::tooltip::tip_of(run.tooltip)
                },
                CallView::RegisterMessage { name } => {
                    &&& made == 12
                    &&& icon_made(run)
                    &&& run.replies[11] == Reply::Flag(true)
                    &&& name == crate::wide::wide("TaskbarCreated"@)
                },
                CallView::AttachState { window: to } => {
                    &&& made == 13
                    &&& icon_made(run)
                    &&& run.replies[11] == Reply::Flag(true)
                    &&& to == window
                },
                CallView::DestroyIcon { icon } => {
                    &&& made == 12
                    &&& icon_made(run)
                    &&& run.replies[11] != Reply::Flag(true)
                    &&& icon == run.replies[8].handle_spec()
                },
                CallView::DestroyWindow { window: gone } => {
                    &&& made >= 3
                    &&& gone == window
                    &&& gone != 0
                    &&& icon_made(run) ==> made == 13 && run.replies[11] != Reply::Flag(true)
                    &&& run.outcome() matches Some(Err(_))
                },
                _ => {
                    &&& made >= 3
                    &&& window != 0
                    &&& run.image is Some
                    &&& run.call() == (IconRun {
                        image: run.image->0,
                        replies: run.replies.skip(3),
                    }).call()
                },
            }
        }),
{
    lemma_created_icon(run);
    assert(1u32 | 2 == 3 && 3u32 | 4 == 7) by (bit_vector);
}

/// The making of a tray goes on for as long as the system gives what it is asked for,
/// and takes back what it made where the system does not.
pub proof fn law_creation_goes_on(run: CreationRun)
    ensures
        ({
            let count = run.replies.len();
            let instance = run.replies[0].handle_spec();
            let window = run.replies[2].handle_spec();
            let building = IconRun { image: run.image->0, replies: run.replies.skip(3) };
            let told = run.replies[11] == Reply::Flag(true);
            let ready = count >= 3 && instance != 0 && window != 0;
            &&& count == 0 ==> run.call() is Some && run.call()->0 is GetModuleHandle
            &&& count > 0 && instance == 0 ==> run.call() is None
            &&& count == 1 && instance != 0 ==> run.call() is Some && run.call()->0 is RegisterClass
            &&& count == 2 && instance != 0 ==> run.call() is Some && run.call()->0 is CreateWindow
            &&& count >= 3 && window == 0 ==> run.call() is None
            &&& ready && run.image is None ==> run.call() is None
            &&& ready && run.image is Some && building.call() is Some ==> run.call()
                == building.call()
            &&& ready && run.image is Some && building.call() is None && building.outcome() is Err
                ==> {
                &&& building.replies.len() == building.span() ==> run.call() == Some(
                    CallView::DestroyWindow { window },
                )
                &&& building.replies.len() > building.span() ==> run.call() is None
            }
            &&& ready && icon_made(run) ==> {
                &&& count == 11 ==> run.call() is Some && run.call()->0 is NotifyIcon
                &&& count == 12 && told ==> run.call() is Some && run.call()->0 is RegisterMessage
                &&& count == 13 && told ==> run.call() is Some && run.call()->0 is AttachState
                &&& count == 12 && !told ==> run.call() is Some && run.call()->0 is DestroyIcon
                &&& count == 13 && !told ==> run.call() is Some && run.call()->0 is DestroyWindow
                &&& count >= 14 ==> run.call() is None
            }
        }),
{
    lemma_created_icon(run);
}

/// What the making of a tray comes to: the failure of the first call that the system
/// did not answer as it should, or a tray with the window and the icon that the system
/// made, the menu and the tooltip that were asked for, and the message that the system
/// gave for a shell that starts anew. No command has a number yet.
pub proof fn law_outcome_of_a_creation(run: CreationRun)
    requires
        run.call() is None,
    ensures
        ({
            let instance = run.replies[0].handle_spec();
            let window = run.replies[2].handle_spec();
            let building = IconRun { image: run.image->0, replies: run.replies.skip(3) };
            let told = run.replies[11] == Reply::Flag(true);
            &&& run.outcome() is None <==> instance != 0 && window != 0 && run.image is None
            &&& instance == 0 ==> run.outcome() == Some(
                Err::<TrayView, WindowsTrayError>(WindowsTrayError::ApiFailed("GetModuleHandleW")),
            )
            &&& instance != 0 && window == 0 ==> run.outcome() == Some(
                Err::<TrayView, WindowsTrayError>(WindowsTrayError::ApiFailed("CreateWindowExW")),
            )
            &&& instance != 0 && window != 0 && run.image is Some ==> {
                &&& building.outcome() matches Err(error) ==> run.outcome() == Some(
                    Err::<TrayView, WindowsTrayError>(error),
                )
                &&& icon_made(run) && !told ==> run.outcome() == Some(
                    Err::<TrayView, WindowsTrayError>(
                        WindowsTrayError::ApiFailed("Shell_NotifyIconW"),
                    ),
                )
                &&& icon_made(run) && told ==> (run.outcome() matches Some(Ok(tray)) && {
                    &&& tray.window == window
                    &&& tray.icon == run.replies[8].handle_spec()
                    &&& tray.menu == run.menu
                    &&& tray.map == Map::<u32, CommandId>::empty()
                    &&& tray.restart_message == run.replies[12].message_spec()
                    &&& tray.nid.window == window
                    &&& tray.nid.icon == tray.icon
                    &&& tray.nid.id == 1
                    &&& tray.nid.callback_message == 0x8001
                    &&& tray.nid.flags == if run.tooltip is Some {
                        7u32
                    } else {
                        3
                    }
                    &&& tray.nid.tip == crate::tooltip::tip_of(run.tooltip)
                })
            }
        }),
{
    lemma_created_icon(run);
    assert(1u32 | 2 == 3 && 3u32 | 4 == 7) by (bit_vector);
}

/// A reply is kept for as long as there is a call to answer.
pub proof fn law_creation_replies_kept(run: CreationRun, reply: Reply)
    ensures
        run.after(reply).image == run.image,
        run.after(reply).tooltip == run.tooltip,
        run.after(reply).menu == run.menu,
        run.after(reply).replies == if run.call() is Some {
            run.replies.push(reply)
        } else {
            run.replies
        },
{
}

/// What is said of the tooltip and the image of a tray is said of what they hold.
pub proof fn law_creation_keeps_its_inputs(
    text: String,
    image: Result<BgraImage, WindowsTrayError>,
)
    ensures
        text_view(Some(text)) == Some(text@),
        text_view(None) is None,
        option_view(Some(image)) == Some(crate::pixels::image_view(image)),
        option_view(None) is None,
{
}

} // verus!
