use windows_tray::icon::header_of;
use windows_tray::pixels::BgraImage;
use windows_tray::system::{NotifyIconData, NIF_ICON, NIF_MESSAGE, NIF_TIP, NIM_ADD, NIM_DELETE, NIM_MODIFY};
use windows_tray::tooltip::write_tooltip;
use windows_tray::tray::notify_result;
use windows_tray::wide::to_wide;
use windows_tray::{
    create_tray_windows, show_tray_menu, tray_wnd_proc, CommandId, IconUpdate, Reply, Step,
    SystemCall, TrayCommandItem, TrayCreation, TrayIcon, TrayMenuItem, TrayMenuModel, TrayModel,
    WindowAction, WindowsTrayError, WindowsTrayHandle,
};

/// A stand-in for the system, which counts what it has handed out.
struct System {
    fails: Vec<&'static str>,
    next_handle: usize,
    open: Vec<(&'static str, usize)>,
    calls: Vec<SystemCall>,
}

impl System {
    fn new(fails: &[&'static str]) -> System {
        System { fails: fails.to_vec(), next_handle: 10, open: Vec::new(), calls: Vec::new() }
    }

    fn take(&mut self, kind: &'static str) -> usize {
        if self.fails.contains(&kind) {
            return 0;
        }
        self.next_handle += 1;
        self.open.push((kind, self.next_handle));
        self.next_handle
    }

    fn give_back(&mut self, kind: &'static str, handle: usize) {
        let at = self.open.iter().position(|held| *held == (kind, handle));
        self.open.remove(at.unwrap());
    }

    fn perform(&mut self, call: SystemCall) -> Reply {
        let reply = match &call {
            SystemCall::GetModuleHandle => {
                Reply::Handle(if self.fails.contains(&"module") { 0 } else { 3 })
            }
            SystemCall::CreateWindow { .. } => Reply::Handle(self.take("window")),
            SystemCall::DestroyWindow { window } => {
                self.give_back("window", *window);
                Reply::Done
            }
            SystemCall::RegisterMessage { .. } => Reply::Message(0xC0DE),
            SystemCall::NotifyIcon { .. } => Reply::Flag(!self.fails.contains(&"shell")),
            SystemCall::DestroyIcon { icon } => {
                self.give_back("icon", *icon);
                Reply::Done
            }
            SystemCall::GetDc => Reply::Handle(self.take("dc")),
            SystemCall::CreateSection { .. } => {
                let bitmap = self.take("bitmap");
                Reply::Section { bitmap, bits: bitmap * 16 }
            }
            SystemCall::ReleaseDc { dc } => {
                self.give_back("dc", *dc);
                Reply::Done
            }
            SystemCall::CreateMask { .. } => {
                let mask = if self.fails.contains(&"mask") { 0 } else { self.take("bitmap") };
                Reply::Handle(mask)
            }
            SystemCall::CreateIcon { .. } => Reply::Handle(self.take("icon")),
            SystemCall::DeleteObject { object } => {
                self.give_back("bitmap", *object);
                Reply::Done
            }
            _ => Reply::Done,
        };
        self.calls.push(call);
        reply
    }

    fn create(&mut self, creation: TrayCreation) -> Result<WindowsTrayHandle, WindowsTrayError> {
        self.finish(creation).unwrap()
    }

    fn finish(
        &mut self,
        mut creation: TrayCreation,
    ) -> Option<Result<WindowsTrayHandle, WindowsTrayError>> {
        loop {
            match creation.next() {
                Step::Call(call) => {
                    let reply = self.perform(call);
                    creation.reply(reply);
                }
                Step::Done(result) => return result,
            }
        }
    }

    fn update_icon(
        &mut self,
        handle: &mut WindowsTrayHandle,
        mut update: IconUpdate,
    ) -> Result<(), WindowsTrayError> {
        loop {
            match update.next() {
                Step::Call(call) => {
                    let reply = self.perform(call);
                    handle.update_icon_reply(&mut update, reply);
                }
                Step::Done(result) => return result,
            }
        }
    }

    fn take_away(&mut self, handle: WindowsTrayHandle) {
        for call in handle.teardown() {
            self.perform(call);
        }
    }
}

fn picture(width: u32) -> Vec<u8> {
    let mut bytes: Vec<u8> = Vec::new();
    let mut encoder = png::Encoder::new(&mut bytes, width, 1);
    encoder.set_color(png::ColorType::Rgba);
    encoder.set_depth(png::BitDepth::Eight);
    let mut writer = encoder.write_header().unwrap();
    writer.write_image_data(&vec![1; width as usize * 4]).unwrap();
    writer.finish().unwrap();
    bytes
}

fn chunk(tag: &[u8; 4], data: &[u8]) -> Vec<u8> {
    let mut body: Vec<u8> = tag.to_vec();
    body.extend_from_slice(data);
    let mut sum: u32 = 0xFFFF_FFFF;
    for byte in &body {
        sum ^= u32::from(*byte);
        for _ in 0..8 {
            sum = if sum & 1 == 1 { (sum >> 1) ^ 0xEDB8_8320 } else { sum >> 1 };
        }
    }
    let mut out: Vec<u8> = (data.len() as u32).to_be_bytes().to_vec();
    out.extend_from_slice(&body);
    out.extend_from_slice(&(!sum).to_be_bytes());
    out
}

fn menu(id: u64) -> TrayMenuModel {
    TrayMenuModel {
        items: vec![TrayMenuItem::Command(TrayCommandItem {
            id: CommandId(id),
            label: "Quit".to_string(),
            enabled: true,
            checked: false,
        })],
    }
}

fn model(bytes: Vec<u8>, tooltip: Option<&str>) -> TrayModel {
    TrayModel {
        icon: TrayIcon::Png { bytes },
        tooltip: tooltip.map(|text| text.to_string()),
        menu: menu(7),
    }
}

fn make(system: &mut System, tooltip: Option<&str>) -> WindowsTrayHandle {
    let creation = create_tray_windows(model(picture(2), tooltip));
    system.create(creation).unwrap()
}

fn tip(text: &str) -> [u16; 128] {
    let mut units: [u16; 128] = [0; 128];
    for (place, unit) in text.encode_utf16().enumerate() {
        units[place] = unit;
    }
    units
}

#[test]
fn a_tray_is_made_in_order() {
    let mut system = System::new(&[]);
    let handle = make(&mut system, Some("Hello"));
    let class_name = to_wide("MakepadShellTrayWindow");
    let data = NotifyIconData {
        window: 11,
        id: 1,
        flags: NIF_MESSAGE | NIF_ICON | NIF_TIP,
        callback_message: 0x8001,
        icon: 15,
        tip: tip("Hello"),
    };
    assert_eq!(
        system.calls,
        vec![
            SystemCall::GetModuleHandle,
            SystemCall::RegisterClass { instance: 3, class_name: class_name.clone() },
            SystemCall::CreateWindow { instance: 3, class_name },
            SystemCall::GetDc,
            SystemCall::CreateSection { dc: 12, header: header_of(2, 1) },
            SystemCall::ReleaseDc { dc: 12 },
            SystemCall::CopyPixels { bits: 208, pixels: vec![1; 8] },
            SystemCall::CreateMask { width: 2, height: 1 },
            SystemCall::CreateIcon { mask: 14, color: 13 },
            SystemCall::DeleteObject { object: 13 },
            SystemCall::DeleteObject { object: 14 },
            SystemCall::NotifyIcon { message: NIM_ADD, data },
            SystemCall::RegisterMessage { name: to_wide("TaskbarCreated") },
            SystemCall::AttachState { window: 11 },
        ]
    );
    assert_eq!(system.open, vec![("window", 11), ("icon", 15)]);
    let state = handle.state();
    assert_eq!((state.hwnd, state.icon, state.taskbar_restart_msg), (11, 15, 0xC0DE));
    assert_eq!(state.nid, data);
    assert_eq!(state.menu.items.len(), 1);
}

#[test]
fn without_a_tooltip_the_shell_is_told_of_none() {
    let mut system = System::new(&[]);
    let handle = make(&mut system, None);
    assert_eq!(handle.state().nid.flags, NIF_MESSAGE | NIF_ICON);
    assert_eq!(handle.state().nid.tip, [0; 128]);
}

#[test]
fn an_empty_tooltip_is_still_a_tooltip() {
    let mut system = System::new(&[]);
    let handle = make(&mut system, Some(""));
    assert_eq!(handle.state().nid.flags, NIF_MESSAGE | NIF_ICON | NIF_TIP);
    assert_eq!(handle.state().nid.tip, [0; 128]);
}

fn failure(fails: &[&'static str], bytes: Vec<u8>) -> (WindowsTrayError, Vec<SystemCall>) {
    let mut system = System::new(fails);
    let creation = create_tray_windows(model(bytes, None));
    let error = system.create(creation).unwrap_err();
    assert!(system.open.is_empty());
    (error, system.calls)
}

#[test]
fn without_a_program_there_is_no_tray() {
    let (error, calls) = failure(&["module"], picture(2));
    assert_eq!(error, WindowsTrayError::ApiFailed("GetModuleHandleW"));
    assert_eq!(calls, vec![SystemCall::GetModuleHandle]);
}

#[test]
fn without_a_window_there_is_no_tray() {
    let (error, calls) = failure(&["window"], picture(2));
    assert_eq!(error, WindowsTrayError::ApiFailed("CreateWindowExW"));
    assert_eq!(calls.len(), 3);
}

#[test]
fn with_a_bad_icon_the_window_is_destroyed() {
    let (error, calls) = failure(&[], vec![1, 2, 3]);
    assert_eq!(error, WindowsTrayError::BadIcon);
    assert_eq!(calls.len(), 4);
    assert_eq!(calls[3], SystemCall::DestroyWindow { window: 11 });
    let (empty, _) = failure(&[], vec![]);
    assert_eq!(empty, WindowsTrayError::BadIcon);
}

#[test]
fn where_the_icon_is_not_made_the_window_is_destroyed() {
    for missing in ["bitmap", "mask", "icon"] {
        let (error, calls) = failure(&[missing], picture(2));
        assert_eq!(error, WindowsTrayError::BadIcon);
        assert_eq!(calls.last(), Some(&SystemCall::DestroyWindow { window: 11 }));
    }
}

#[test]
fn where_the_shell_refuses_the_icon_goes_before_the_window() {
    let (error, calls) = failure(&["shell"], picture(2));
    assert_eq!(error, WindowsTrayError::ApiFailed("Shell_NotifyIconW"));
    let count = calls.len();
    assert_eq!(calls[count - 2], SystemCall::DestroyIcon { icon: 15 });
    assert_eq!(calls[count - 1], SystemCall::DestroyWindow { window: 11 });
}

/// An indexed file of one pixel with a broken palette. Its line can be read where
/// it has one.
fn broken(line: &[u8]) -> Vec<u8> {
    let mut bytes: Vec<u8> = vec![0x89, 0x50, 0x4E, 0x47, 0x0D, 0x0A, 0x1A, 0x0A];
    bytes.extend_from_slice(&chunk(b"IHDR", &[0, 0, 0, 1, 0, 0, 0, 1, 8, 3, 0, 0, 0]));
    bytes.extend_from_slice(&chunk(b"PLTE", &[5]));
    bytes.extend_from_slice(&chunk(b"IDAT", line));
    bytes.extend_from_slice(&chunk(b"IEND", &[]));
    bytes
}

/// A zlib stream of two zeros.
const LINE: [u8; 13] = [0x78, 0x01, 0x01, 2, 0, 0xFD, 0xFF, 0, 0, 0, 2, 0, 1];

#[test]
fn an_icon_that_cannot_be_decoded_stops_the_making_at_the_window() {
    let mut system = System::new(&[]);
    let creation = create_tray_windows(model(broken(&LINE), None));
    assert!(system.finish(creation).is_none());
    assert_eq!(system.calls.len(), 3);
    assert_eq!(system.open, vec![("window", 11)]);
}

#[test]
fn an_icon_that_cannot_be_decoded_starts_no_update() {
    let mut system = System::new(&[]);
    let handle = make(&mut system, None);
    assert!(handle.update_icon(&TrayIcon::Png { bytes: broken(&LINE) }).is_none());
}

#[test]
fn the_program_and_the_window_come_before_any_icon() {
    for bytes in [picture(2), broken(&LINE), broken(&[]), vec![]] {
        let (no_program, calls) = failure(&["module"], bytes.clone());
        assert_eq!(no_program, WindowsTrayError::ApiFailed("GetModuleHandleW"));
        assert_eq!(calls.len(), 1);
        let (no_window, calls) = failure(&["window"], bytes);
        assert_eq!(no_window, WindowsTrayError::ApiFailed("CreateWindowExW"));
        assert_eq!(calls.len(), 3);
    }
}

#[test]
fn a_broken_icon_without_a_line_is_a_bad_icon() {
    let (error, calls) = failure(&[], broken(&[]));
    assert_eq!(error, WindowsTrayError::BadIcon);
    assert_eq!(calls.last(), Some(&SystemCall::DestroyWindow { window: 11 }));
    let mut system = System::new(&[]);
    let mut handle = make(&mut system, None);
    let before = handle.state().nid;
    system.calls.clear();
    let update = handle.update_icon(&TrayIcon::Png { bytes: broken(&[]) }).unwrap();
    assert_eq!(system.update_icon(&mut handle, update), Err(WindowsTrayError::BadIcon));
    assert!(system.calls.is_empty());
    assert_eq!(handle.state().nid, before);
}

#[test]
fn a_tray_can_be_made_of_an_image() {
    let image = BgraImage { width: 1, height: 1, pixels: vec![1, 2, 3, 4] };
    let mut system = System::new(&[]);
    let creation = TrayCreation::new(Some(Ok(image)), Some("x".to_string()), menu(1));
    let handle = system.create(creation).unwrap();
    assert_eq!(handle.state().nid.tip, tip("x"));
    let refused = TrayCreation::new(Some(Err(WindowsTrayError::Unsupported)), None, menu(1));
    let error = system.create(refused).unwrap_err();
    assert_eq!(error, WindowsTrayError::Unsupported);
}

#[test]
fn another_icon_takes_the_place_of_the_first() {
    let mut system = System::new(&[]);
    let mut handle = make(&mut system, Some("Hello"));
    let update = handle.update_icon(&TrayIcon::Png { bytes: picture(4) }).unwrap();
    system.calls.clear();
    assert_eq!(system.update_icon(&mut handle, update), Ok(()));
    assert_eq!(system.open, vec![("window", 11), ("icon", 19)]);
    let state = handle.state();
    assert_eq!((state.icon, state.nid.icon), (19, 19));
    assert_eq!(state.nid.flags, NIF_ICON | NIF_MESSAGE);
    assert_eq!(state.nid.tip, tip("Hello"));
    assert_eq!(system.calls[1], SystemCall::CreateSection { dc: 16, header: header_of(4, 1) });
    assert_eq!(system.calls[8], SystemCall::NotifyIcon { message: NIM_MODIFY, data: state.nid });
    assert_eq!(system.calls[9], SystemCall::DestroyIcon { icon: 15 });
    assert_eq!(system.calls.len(), 10);
}

#[test]
fn a_refused_icon_leaves_the_first() {
    let mut system = System::new(&[]);
    let mut handle = make(&mut system, Some("Hello"));
    let before = handle.state().nid;
    let update = handle.update_icon(&TrayIcon::Png { bytes: picture(4) }).unwrap();
    system.fails.push("shell");
    system.calls.clear();
    let result = system.update_icon(&mut handle, update);
    assert_eq!(result, Err(WindowsTrayError::ApiFailed("Shell_NotifyIconW")));
    assert_eq!(system.open, vec![("window", 11), ("icon", 15)]);
    assert_eq!(system.calls[9], SystemCall::DestroyIcon { icon: 19 });
    let state = handle.state();
    assert_eq!(state.icon, 15);
    assert_eq!(state.nid, NotifyIconData { flags: NIF_ICON | NIF_MESSAGE, ..before });
}

#[test]
fn the_tray_has_the_new_icon_while_the_shell_is_told() {
    let mut system = System::new(&[]);
    let mut handle = make(&mut system, None);
    let mut update = handle.update_icon(&TrayIcon::Png { bytes: picture(4) }).unwrap();
    while let Step::Call(call) = update.next() {
        let asked = matches!(call, SystemCall::NotifyIcon { .. });
        if asked {
            assert_eq!(handle.state().icon, 19);
            assert_eq!(handle.state().nid.icon, 19);
        }
        let reply = system.perform(call);
        handle.update_icon_reply(&mut update, reply);
    }
}

#[test]
fn a_bad_icon_changes_nothing() {
    let mut system = System::new(&[]);
    let mut handle = make(&mut system, None);
    let before = handle.state().nid;
    system.calls.clear();
    let update = handle.update_icon(&TrayIcon::Png { bytes: vec![0; 9] }).unwrap();
    let result = system.update_icon(&mut handle, update);
    assert_eq!(result, Err(WindowsTrayError::BadIcon));
    assert!(system.calls.is_empty());
    assert_eq!(handle.state().nid, before);
    system.fails.push("mask");
    let unmade = handle.update_icon(&TrayIcon::Png { bytes: picture(1) }).unwrap();
    assert_eq!(system.update_icon(&mut handle, unmade), Err(WindowsTrayError::BadIcon));
    assert_eq!(handle.state().nid, before);
    assert_eq!(system.open, vec![("window", 11), ("icon", 15)]);
}

#[test]
fn another_tooltip_is_told_to_the_shell() {
    let mut system = System::new(&[]);
    let mut handle = make(&mut system, Some("a longer tooltip"));
    let call = handle.update_tooltip(Some("new"));
    let state = handle.state();
    assert_eq!(state.nid.tip, tip("new"));
    assert_eq!(state.nid.flags, NIF_TIP | NIF_MESSAGE);
    assert_eq!(call, SystemCall::NotifyIcon { message: NIM_MODIFY, data: state.nid });
    let cleared = handle.update_tooltip(None);
    assert_eq!(handle.state().nid.tip, [0; 128]);
    assert_eq!(cleared, SystemCall::NotifyIcon { message: NIM_MODIFY, data: handle.state().nid });
}

#[test]
fn the_answer_of_the_shell_decides() {
    assert_eq!(notify_result(Reply::Flag(true)), Ok(()));
    let error = WindowsTrayError::ApiFailed("Shell_NotifyIconW");
    assert_eq!(notify_result(Reply::Flag(false)), Err(error));
}

#[test]
fn a_tooltip_is_cut_where_it_is_too_long() {
    let mut system = System::new(&[]);
    let mut handle = make(&mut system, None);
    let exact = "x".repeat(127);
    handle.update_tooltip(Some(exact.as_str()));
    assert_eq!(handle.state().nid.tip, tip(&exact));
    let long = "y".repeat(128);
    handle.update_tooltip(Some(long.as_str()));
    assert_eq!(handle.state().nid.tip, tip(&long[..127]));
    assert_eq!(handle.state().nid.tip[127], 0);
}

#[test]
fn a_cut_may_fall_between_two_units_of_a_character() {
    let mut data = NotifyIconData {
        window: 1,
        id: 2,
        flags: 3,
        callback_message: 4,
        icon: 5,
        tip: [9; 128],
    };
    let text = format!("{}\u{1F600}", "z".repeat(126));
    write_tooltip(&mut data, Some(text.as_str()));
    assert_eq!(data.tip[125], 0x7A);
    assert_eq!(data.tip[126], 0xD83D);
    assert_eq!(data.tip[127], 0);
    assert_eq!((data.window, data.id, data.flags, data.callback_message, data.icon), (1, 2, 3, 4, 5));
    write_tooltip(&mut data, None);
    assert_eq!(data.tip, [0; 128]);
}

#[test]
fn another_menu_is_shown_from_then_on() {
    let mut system = System::new(&[]);
    let mut handle = make(&mut system, None);
    let before = handle.state().nid;
    assert_eq!(handle.update_menu(&menu(99)), Ok(()));
    assert_eq!(handle.state().nid, before);
    let shown = handle.state().clone();
    let mut popup = show_tray_menu(&shown);
    let mut ran: Vec<CommandId> = Vec::new();
    loop {
        match popup.next() {
            Step::Call(call) => {
                let reply = match call {
                    SystemCall::CreateMenu => Reply::Handle(60),
                    SystemCall::GetCursor => Reply::Cursor { found: true, x: 0, y: 0 },
                    SystemCall::TrackMenu { window, .. } => {
                        assert_eq!(window, 11);
                        Reply::Selected(1)
                    }
                    SystemCall::RunCommand { command } => {
                        ran.push(command);
                        Reply::Done
                    }
                    _ => Reply::Done,
                };
                handle.show_menu_reply(&mut popup, reply);
            }
            Step::Done(()) => {
                assert_eq!(ran, vec![CommandId(99)]);
                assert_eq!(handle.state().menu_map.get(&1), Some(&CommandId(99)));
                return;
            }
        }
    }
}

#[test]
fn a_tray_that_is_taken_away_leaves_nothing() {
    let mut system = System::new(&[]);
    let handle = make(&mut system, Some("Hello"));
    let data = handle.state().nid;
    assert_eq!(
        handle.teardown(),
        vec![
            SystemCall::NotifyIcon { message: NIM_DELETE, data },
            SystemCall::DestroyIcon { icon: 15 },
            SystemCall::DetachState { window: 11 },
            SystemCall::DestroyWindow { window: 11 },
        ]
    );
    system.take_away(handle);
    assert!(system.open.is_empty());
}

#[test]
fn a_tray_whose_icon_was_exchanged_leaves_nothing() {
    let mut system = System::new(&[]);
    let mut handle = make(&mut system, None);
    for width in 1..5u32 {
        let update = handle.update_icon(&TrayIcon::Png { bytes: picture(width) }).unwrap();
        assert_eq!(system.update_icon(&mut handle, update), Ok(()));
    }
    handle.update_tooltip(Some("later"));
    assert_eq!(handle.update_menu(&menu(3)), Ok(()));
    system.take_away(handle);
    assert!(system.open.is_empty());
}

#[test]
fn mouse_buttons_activate_or_open_the_menu() {
    let mut system = System::new(&[]);
    let handle = make(&mut system, None);
    let state = Some(handle.state());
    assert_eq!(tray_wnd_proc(state, 0x8001, 0x0202), WindowAction::Activate);
    assert_eq!(tray_wnd_proc(state, 0x8001, 0x0203), WindowAction::Activate);
    assert_eq!(tray_wnd_proc(state, 0x8001, 0x0205), WindowAction::ShowMenu);
    assert_eq!(tray_wnd_proc(state, 0x8001, 0x007B), WindowAction::ShowMenu);
    assert_eq!(tray_wnd_proc(state, 0x8001, 0x0200), WindowAction::Ignore);
    assert_eq!(tray_wnd_proc(state, 0x8001, -1), WindowAction::Ignore);
}

#[test]
fn only_the_lower_half_of_an_event_counts() {
    let mut system = System::new(&[]);
    let handle = make(&mut system, None);
    let event: isize = 0x7_0000_0202;
    assert_eq!(tray_wnd_proc(Some(handle.state()), 0x8001, event), WindowAction::Activate);
}

#[test]
fn other_messages_are_left_to_the_system() {
    let mut system = System::new(&[]);
    let handle = make(&mut system, None);
    let state = Some(handle.state());
    assert_eq!(tray_wnd_proc(state, 0x0002, 0), WindowAction::Ignore);
    assert_eq!(tray_wnd_proc(state, 0x0010, 0), WindowAction::Default);
    assert_eq!(tray_wnd_proc(state, 0, 0), WindowAction::Default);
}

#[test]
fn without_a_tray_every_message_is_left_to_the_system() {
    for message in [0u32, 2, 0x8001, 0xC0DE] {
        assert_eq!(tray_wnd_proc(None, message, 0x0202), WindowAction::Default);
    }
}

#[test]
fn a_new_shell_is_told_of_the_icon_again() {
    let mut system = System::new(&[]);
    let mut handle = make(&mut system, None);
    handle.update_tooltip(Some("later"));
    let data = handle.state().nid;
    assert_eq!(
        tray_wnd_proc(Some(handle.state()), 0xC0DE, 0),
        WindowAction::Call(SystemCall::NotifyIcon { message: NIM_ADD, data })
    );
}
