//! A tray icon that is shown, and what can be done with it.

use std::collections::HashMap;

use vstd::prelude::*;

use crate::decode::icon_to_bgra;
use crate::error::WindowsTrayError;
use crate::ledger::Resource;
use crate::model::{CommandId, ItemView, TrayIcon, TrayMenuModel};
use crate::pixels::BgraView;
use crate::popup::{PopupMenu, PopupRun};
use crate::system::{
    CallView, NotifyIconData, NotifyView, Reply, SystemCall, NIF_MESSAGE, NIF_TIP, NIM_ADD,
    NIM_DELETE, NIM_MODIFY, TIP_UNITS, WM_CONTEXTMENU, WM_DESTROY, WM_LBUTTONDBLCLK, WM_LBUTTONUP,
    WM_RBUTTONUP, WM_TRAYICON,
};
use crate::tooltip::write_tooltip;
use crate::update::{IconUpdate, UpdateRun};

verus! {

/// The number of the one icon that a tray has in its window.
pub const ICON_ID: u32 = 1;

/// What is known of a tray icon that is shown.
#[derive(Debug)]
pub struct TrayState {
    /// The window that gets the messages of the icon.
    pub hwnd: usize,
    /// What the shell was told of the icon.
    pub nid: NotifyIconData,
    /// The icon itself.
    pub icon: usize,
    /// The menu.
    pub menu: TrayMenuModel,
    /// The commands by their numbers in the menu that was shown last.
    pub menu_map: HashMap<u32, CommandId>,
    /// The message by which the shell says that it started anew; zero if there
    /// is none.
    pub taskbar_restart_msg: u32,
}

/// What is known of a tray icon, with texts and entries as sequences.
pub struct TrayView {
    pub window: usize,
    pub nid: NotifyView,
    pub icon: usize,
    pub menu: Seq<ItemView>,
    pub map: Map<u32, CommandId>,
    pub restart_message: u32,
}

impl View for TrayState {
    type V = TrayView;

    open spec fn view(&self) -> TrayView {
        TrayView {
            window: self.hwnd,
            nid: self.nid@,
            icon: self.icon,
            menu: self.menu@,
            map: self.menu_map@,
            restart_message: self.taskbar_restart_msg,
        }
    }
}

impl Clone for TrayState {
    fn clone(&self) -> (copy: Self)
        ensures
            copy@ == self@,
    {
        TrayState {
            hwnd: self.hwnd,
            nid: self.nid,
            icon: self.icon,
            menu: self.menu.clone(),
            menu_map: self.menu_map.clone(),
            taskbar_restart_msg: self.taskbar_restart_msg,
        }
    }
}

impl TrayView {
    /// Whether the shell was told of the window and the icon that there are, and
    /// of a tooltip that ends.
    pub open spec fn sound(self) -> bool {
        &&& self.window != 0
        &&& self.nid.window == self.window
        &&& self.nid.id == ICON_ID
        &&& self.nid.callback_message == WM_TRAYICON
        &&& self.nid.icon == self.icon
        &&& self.nid.tip.len() == TIP_UNITS
        &&& self.nid.tip.last() == 0
    }

    /// What is known after another menu was set.
    pub open spec fn with_menu(self, menu: Seq<ItemView>) -> TrayView {
        TrayView { menu, ..self }
    }

    /// What is known after the numbers of the commands changed.
    pub open spec fn with_map(self, map: Map<u32, CommandId>) -> TrayView {
        TrayView { map, ..self }
    }

    /// What is known after another tooltip was set.
    pub open spec fn with_tooltip(self, tooltip: Option<Seq<char>>) -> TrayView {
        TrayView {
            nid: NotifyView {
                tip: crate::tooltip::tip_of(tooltip),
                flags: NIF_TIP | NIF_MESSAGE,
                ..self.nid
            },
            ..self
        }
    }

    /// How often the tray holds a resource: its window and its icon.
    pub open spec fn holds(self, resource: Resource) -> int {
        crate::ledger::only(Some(Resource::Window(self.window)), resource) + crate::ledger::only(
            if self.icon == 0 {
                None
            } else {
                Some(Resource::Icon(self.icon))
            },
            resource,
        )
    }

    /// The calls that take a tray away.
    pub open spec fn teardown(self) -> Seq<CallView> {
        let removal = seq![CallView::NotifyIcon { message: NIM_DELETE, data: self.nid }];
        let icon = if self.icon == 0 {
            Seq::empty()
        } else {
            seq![CallView::DestroyIcon { icon: self.icon }]
        };
        let window = seq![
            CallView::DetachState { window: self.window },
            CallView::DestroyWindow { window: self.window },
        ];
        removal + icon + window
    }
}

/// What the answer of the shell to a message on an icon means.
pub open spec fn notified(told: bool) -> Result<(), WindowsTrayError> {
    if told {
        Ok(())
    } else {
        Err(WindowsTrayError::ApiFailed("Shell_NotifyIconW"))
    }
}

/// Says what the answer of the shell to a message on an icon means.
pub fn notify_result(reply: Reply) -> (result: Result<(), WindowsTrayError>)
    ensures
        result == notified(reply.flag_spec()),
{
    if reply.flag() {
        Ok(())
    } else {
        Err(WindowsTrayError::ApiFailed("Shell_NotifyIconW"))
    }
}

/// What the window of a tray does about a message.
#[derive(Debug, PartialEq, Eq)]
pub enum WindowAction {
    /// Make a call, whatever the reply.
    Call(SystemCall),
    /// Tell the application that the icon was activated.
    Activate,
    /// Show the menu.
    ShowMenu,
    /// Do nothing.
    Ignore,
    /// Leave the message to the system.
    Default,
}

/// What the window of a tray does about a message, with the call as its view.
pub enum ActionView {
    Call(CallView),
    Activate,
    ShowMenu,
    Ignore,
    Default,
}

impl View for WindowAction {
    type V = ActionView;

    open spec fn view(&self) -> ActionView {
        match *self {
            WindowAction::Call(call) => ActionView::Call(call@),
            WindowAction::Activate => ActionView::Activate,
            WindowAction::ShowMenu => ActionView::ShowMenu,
            WindowAction::Ignore => ActionView::Ignore,
            WindowAction::Default => ActionView::Default,
        }
    }
}

/// What is done about an event on the icon.
pub open spec fn event_action(event: u32) -> ActionView {
    if event == WM_LBUTTONUP || event == WM_LBUTTONDBLCLK {
        ActionView::Activate
    } else if event == WM_RBUTTONUP || event == WM_CONTEXTMENU {
        ActionView::ShowMenu
    } else {
        ActionView::Ignore
    }
}

/// What is done about a message. Without a tray behind the window, the system
/// handles it. A new shell is told of the icon again.
pub open spec fn message_action(state: Option<TrayView>, msg: u32, lparam: isize) -> ActionView {
    match state {
        None => ActionView::Default,
        Some(tray) => if tray.restart_message != 0 && msg == tray.restart_message {
            ActionView::Call(CallView::NotifyIcon { message: NIM_ADD, data: tray.nid })
        } else if msg == WM_TRAYICON {
            event_action(lparam as u32)
        } else if msg == WM_DESTROY {
            ActionView::Ignore
        } else {
            ActionView::Default
        },
    }
}

/// Decides what the window of a tray does about a message.
pub fn tray_wnd_proc(state: Option<&TrayState>, msg: u32, lparam: isize) -> (action: WindowAction)
    ensures
        action@ == message_action(
            match state {
                Some(tray) => Some(tray@),
                None => None,
            },
            msg,
            lparam,
        ),
{
    let tray = match state {
        Some(tray) => tray,
        None => return WindowAction::Default,
    };
    if tray.taskbar_restart_msg != 0 && msg == tray.taskbar_restart_msg {
        return WindowAction::Call(SystemCall::NotifyIcon { message: NIM_ADD, data: tray.nid });
    }
    if msg == WM_TRAYICON {
        let event: u32 = lparam as u32;
        if event == WM_LBUTTONUP || event == WM_LBUTTONDBLCLK {
            return WindowAction::Activate;
        }
        if event == WM_RBUTTONUP || event == WM_CONTEXTMENU {
            return WindowAction::ShowMenu;
        }
        return WindowAction::Ignore;
    }
    if msg == WM_DESTROY {
        return WindowAction::Ignore;
    }
    WindowAction::Default
}

/// Starts to show the menu of a tray.
pub fn show_tray_menu<'a>(state: &'a TrayState) -> (popup: PopupMenu<'a>)
    ensures
        popup.wf(),
        popup@ == (PopupRun {
            window: state@.window,
            items: state@.menu,
            replies: Seq::empty(),
            known: Map::empty(),
        }),
{
    PopupMenu::new(state.hwnd, &state.menu)
}

/// A tray icon that is shown.
#[derive(Debug)]
pub struct WindowsTrayHandle {
    hwnd: usize,
    state: TrayState,
}

impl View for WindowsTrayHandle {
    type V = TrayView;

    closed spec fn view(&self) -> TrayView {
        self.state@
    }
}

impl WindowsTrayHandle {
    /// Whether the handle and the tray have the same window, and what the shell
    /// was told is sound.
    pub closed spec fn wf(&self) -> bool {
        &&& self.hwnd == self.state.hwnd
        &&& self.state@.sound()
    }

    /// The handle of a tray.
    pub(crate) fn new(state: TrayState) -> (handle: WindowsTrayHandle)
        requires
            state@.sound(),
        ensures
            handle.wf(),
            handle@ == state@,
    {
        WindowsTrayHandle { hwnd: state.hwnd, state }
    }

    /// What is known of the tray.
    pub fn state(&self) -> (state: &TrayState)
        ensures
            state@ == self@,
    {
        &self.state
    }

    /// Sets another menu. It is shown from the next time on.
    pub fn update_menu(&mut self, menu: &TrayMenuModel) -> (result: Result<(), WindowsTrayError>)
        requires
            old(self).wf(),
        ensures
            final(self).wf(),
            final(self)@ == old(self)@.with_menu(menu@),
            result is Ok,
    {
        self.state.menu = menu.clone();
        Ok(())
    }

    /// Sets another tooltip, and gives the call that tells the shell of it. What
    /// the reply means, `notify_result` says.
    pub fn update_tooltip(&mut self, tooltip: Option<&str>) -> (call: SystemCall)
        requires
            old(self).wf(),
        ensures
            final(self).wf(),
            final(self)@ == old(self)@.with_tooltip(crate::tooltip::tooltip_view(tooltip)),
            call@ == (CallView::NotifyIcon { message: NIM_MODIFY, data: final(self)@.nid }),
    {
        write_tooltip(&mut self.state.nid, tooltip);
        self.state.nid.flags = NIF_TIP | NIF_MESSAGE;
        SystemCall::NotifyIcon { message: NIM_MODIFY, data: self.state.nid }
    }

    /// Starts to set another icon. There is no way to do so where the decoder
    /// does not take the bytes, nor where the image is too large for a bitmap.
    pub fn update_icon(&self, icon: &TrayIcon) -> (update: Option<IconUpdate>)
        requires
            self.wf(),
        ensures
            update is Some <==> crate::decode::icon_fits(icon->bytes@),
            update matches Some(started) ==> started.wf() && started@ == (UpdateRun {
                before: self@,
                image: crate::decode::icon_image(icon->bytes@),
                replies: Seq::empty(),
            }),
            update is None ==> !crate::decode::decodable(icon->bytes@)
                || crate::decode::makes_no_bitmap(icon->bytes@),
            crate::decode::unreadable(icon->bytes@) ==> (update matches Some(started)
                && started@.image == Err::<BgraView, WindowsTrayError>(WindowsTrayError::BadIcon)),
    {
        let image = icon_to_bgra(icon)?;
        Some(IconUpdate::new(&self.state, image))
    }

    /// Takes the reply to a call that an update of the icon gave.
    pub fn update_icon_reply(&mut self, update: &mut IconUpdate, reply: Reply)
        requires
            old(self).wf(),
            old(update).wf(),
            old(self)@ == old(update)@.state(),
        ensures
            final(self).wf(),
            final(update).wf(),
            final(update)@ == old(update)@.after(reply),
            final(self)@ == final(update)@.state(),
    {
        update.reply(&mut self.state, reply);
    }

    /// Takes the reply to a call that the showing of a menu gave.
    pub fn show_menu_reply<'a>(&mut self, popup: &mut PopupMenu<'a>, reply: Reply)
        requires
            old(self).wf(),
            old(popup).wf(),
        ensures
            final(self).wf(),
            final(popup).wf(),
            final(popup)@ == old(popup)@.after(reply, old(self)@.map),
            final(self)@ == old(self)@.with_map(old(popup)@.noted(reply, old(self)@.map)),
    {
        popup.reply(&mut self.state.menu_map, reply);
    }

    /// The calls that take the tray away, to be made in order, whatever the
    /// replies.
    pub fn teardown(&self) -> (calls: Vec<SystemCall>)
        requires
            self.wf(),
        ensures
            calls@.map_values(|call: SystemCall| call@) == self@.teardown(),
    {
        let mut calls: Vec<SystemCall> = Vec::new();
        calls.push(SystemCall::NotifyIcon { message: NIM_DELETE, data: self.state.nid });
        if self.state.icon != 0 {
            calls.push(SystemCall::DestroyIcon { icon: self.state.icon });
        }
        calls.push(SystemCall::DetachState { window: self.hwnd });
        calls.push(SystemCall::DestroyWindow { window: self.hwnd });
        assert(calls@.map_values(|call: SystemCall| call@) =~= self@.teardown());
        calls
    }
}

/// Calls with the replies to them.
pub open spec fn with_replies(calls: Seq<CallView>, replies: Seq<Reply>) -> Seq<
    (CallView, Reply),
> {
    Seq::new(calls.len(), |i: int| (calls[i], replies[i]))
}

/// Whatever the system replies, the calls that take a tray away give back its
/// window and its icon, each once, and nothing else.
pub proof fn law_teardown_gives_back(tray: TrayView, replies: Seq<Reply>, resource: Resource)
    requires
        replies.len() == tray.teardown().len(),
    ensures
        tray.holds(resource) + crate::ledger::balance(
            with_replies(tray.teardown(), replies),
            resource,
        ) == 0,
        crate::ledger::strays(with_replies(tray.teardown(), replies), resource) == 0,
{
    let calls = with_replies(tray.teardown(), replies);
    reveal_with_fuel(crate::ledger::balance, 5);
    reveal_with_fuel(crate::ledger::strays, 5);
    assert(calls.drop_last().last() == calls[calls.len() - 2]);
    assert(calls.drop_last().drop_last().last() == calls[calls.len() - 3]);
    if tray.icon != 0 {
        assert(calls.drop_last().drop_last().drop_last().last() == calls[0]);
    }
}

/// The shell is told first. The window goes last, when it no longer finds the
/// tray.
pub proof fn law_window_goes_last(tray: TrayView)
    ensures
        tray.teardown().last() == (CallView::DestroyWindow { window: tray.window }),
        tray.teardown()[tray.teardown().len() - 2] == (CallView::DetachState {
            window: tray.window,
        }),
        tray.teardown()[0] == (CallView::NotifyIcon { message: NIM_DELETE, data: tray.nid }),
{
}

/// Another menu, other numbers or another tooltip leave what the shell was told sound, and what
/// the tray holds as it was.
pub proof fn law_updates_keep_sound(
    tray: TrayView,
    menu: Seq<ItemView>,
    map: Map<u32, CommandId>,
    tooltip: Option<Seq<char>>,
    resource: Resource,
)
    requires
        tray.sound(),
    ensures
        tray.with_menu(menu).sound(),
        tray.with_map(map).sound(),
        tray.with_tooltip(tooltip).sound(),
        tray.with_menu(menu).holds(resource) == tray.holds(resource),
        tray.with_map(map).holds(resource) == tray.holds(resource),
        tray.with_tooltip(tooltip).holds(resource) == tray.holds(resource),
{
}

/// Whoever has the handle of a tray knows that the shell was told of the window and
/// the icon that there are, and of a tooltip that ends.
pub proof fn law_handle_sound(handle: WindowsTrayHandle)
    requires
        handle.wf(),
    ensures
        handle@.sound(),
{
}

/// Of two tooltips the later one stands, whatever the earlier one was; so it is
/// with two menus, and the two do not touch each other.
pub proof fn law_last_update_stands(
    tray: TrayView,
    menu: Seq<ItemView>,
    earlier_menu: Seq<ItemView>,
    tooltip: Option<Seq<char>>,
    earlier: Option<Seq<char>>,
)
    ensures
        tray.with_menu(earlier_menu).with_menu(menu) == tray.with_menu(menu),
        tray.with_tooltip(earlier).with_tooltip(tooltip) == tray.with_tooltip(tooltip),
        tray.with_menu(menu).with_tooltip(tooltip) == tray.with_tooltip(tooltip).with_menu(menu),
{
}

/// Where the shell started anew, it is told of the icon as it was told last, even
/// where the message has the number of another one.
pub proof fn law_icon_shown_again(tray: TrayView, lparam: isize)
    requires
        tray.restart_message != 0,
    ensures
        message_action(Some(tray), tray.restart_message, lparam) == ActionView::Call(
            CallView::NotifyIcon { message: NIM_ADD, data: tray.nid },
        ),
{
}

/// Without a tray behind it, a window leaves every message to the system.
pub proof fn law_no_tray_no_action(msg: u32, lparam: isize)
    ensures
        message_action(None, msg, lparam) == ActionView::Default,
{
}

/// What the window of a tray does about a message. A message from the icon counts by
/// its event: the left button, released or clicked twice, activates the tray; the
/// right button and the menu key open the menu; other events do nothing. A new shell
/// is told of the icon, and the end of the window is taken note of. All other messages
/// are the system's.
pub proof fn law_messages_and_actions(tray: TrayView, msg: u32, lparam: isize)
    ensures
        ({
            let action = message_action(Some(tray), msg, lparam);
            let event = lparam as u32;
            let anew = tray.restart_message != 0 && msg == tray.restart_message;
            &&& action is Activate <==> !anew && msg == 0x8001 && (event == 0x202 || event
                == 0x203)
            &&& action is ShowMenu <==> !anew && msg == 0x8001 && (event == 0x205 || event == 0x7B)
            &&& action is Call <==> anew
            &&& action matches ActionView::Call(call) ==> (call matches CallView::NotifyIcon {
                message,
                data,
            } && message == 0 && data == tray.nid)
            &&& action is Default <==> !anew && msg != 0x8001 && msg != 2
        }),
{
}

/// The calls that take a tray away: the shell is told to forget the icon as it knows
/// it, the icon is destroyed where there is one, the window forgets the tray, and the
/// window is destroyed. There are no others.
pub proof fn law_teardown_in_order(tray: TrayView)
    ensures
        ({
            let calls = tray.teardown();
            let count = calls.len();
            &&& count == if tray.icon == 0 {
                3int
            } else {
                4
            }
            &&& calls[0] matches CallView::NotifyIcon { message, data } && message == 2 && data
                == tray.nid
            &&& tray.icon != 0 ==> calls[1] == (CallView::DestroyIcon { icon: tray.icon })
            &&& calls[count - 2] == (CallView::DetachState { window: tray.window })
            &&& calls[count - 1] == (CallView::DestroyWindow { window: tray.window })
        }),
{
}

/// A menu or numbers that are set are there, and nothing else has changed. A tooltip
/// that is set is what the shell is told to look at, and nothing else has changed.
pub proof fn law_updates_change_only_that(
    tray: TrayView,
    menu: Seq<ItemView>,
    map: Map<u32, CommandId>,
    tooltip: Option<Seq<char>>,
)
    ensures
        tray.with_menu(menu).menu == menu,
        tray.with_menu(menu).window == tray.window,
        tray.with_menu(menu).nid == tray.nid,
        tray.with_menu(menu).icon == tray.icon,
        tray.with_menu(menu).map == tray.map,
        tray.with_menu(menu).restart_message == tray.restart_message,
        tray.with_map(map).map == map,
        tray.with_map(map).window == tray.window,
        tray.with_map(map).nid == tray.nid,
        tray.with_map(map).icon == tray.icon,
        tray.with_map(map).menu == tray.menu,
        tray.with_map(map).restart_message == tray.restart_message,
        tray.with_tooltip(tooltip).window == tray.window,
        tray.with_tooltip(tooltip).icon == tray.icon,
        tray.with_tooltip(tooltip).menu == tray.menu,
        tray.with_tooltip(tooltip).map == tray.map,
        tray.with_tooltip(tooltip).restart_message == tray.restart_message,
        tray.with_tooltip(tooltip).nid.tip == crate::tooltip::tip_of(tooltip),
        tray.with_tooltip(tooltip).nid.flags == 5,
        tray.with_tooltip(tooltip).nid.window == tray.nid.window,
        tray.with_tooltip(tooltip).nid.id == tray.nid.id,
        tray.with_tooltip(tooltip).nid.callback_message == tray.nid.callback_message,
        tray.with_tooltip(tooltip).nid.icon == tray.nid.icon,
{
    assert(4u32 | 1 == 5) by (bit_vector);
}

/// The shell having taken a message on the icon is success, and nothing else is.
pub proof fn law_shell_decides(told: bool)
    ensures
        notified(told) is Ok <==> told,
        notified(told) matches Err(error) ==> error == WindowsTrayError::ApiFailed(
            "Shell_NotifyIconW",
        ),
{
}

/// What is said of a tray is said of its own fields, and what is said of an action of
/// its own call.
pub proof fn law_trays_keep_their_fields(state: TrayState, action: WindowAction)
    ensures
        state@.window == state.hwnd,
        state@.nid == state.nid@,
        state@.icon == state.icon,
        state@.menu == state.menu@,
        state@.map == state.menu_map@,
        state@.restart_message == state.taskbar_restart_msg,
        match action {
            WindowAction::Call(call) => action@ == ActionView::Call(call@),
            WindowAction::Activate => action@ is Activate,
            WindowAction::ShowMenu => action@ is ShowMenu,
            WindowAction::Ignore => action@ is Ignore,
            WindowAction::Default => action@ is Default,
        },
{
}

} // verus!
