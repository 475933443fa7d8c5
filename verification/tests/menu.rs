use std::collections::HashMap;

use windows_tray::menu::{append_command_item, command_flags, MenuBuild};
use windows_tray::system::{MF_CHECKED, MF_GRAYED, MF_POPUP, MF_SEPARATOR, MF_STRING};
use windows_tray::wide::to_wide;
use windows_tray::{
    CommandId, PopupMenu, Reply, Step, SystemCall, TrayCommandItem, TrayMenuItem, TrayMenuModel,
    TraySubmenu,
};

fn command(id: u64, label: &str) -> TrayMenuItem {
    TrayMenuItem::Command(TrayCommandItem {
        id: CommandId(id),
        label: label.to_string(),
        enabled: true,
        checked: false,
    })
}

fn submenu(label: &str, items: Vec<TrayMenuItem>) -> TrayMenuItem {
    TrayMenuItem::Submenu(TraySubmenu { label: label.to_string(), items })
}

fn entry(menu: usize, item: usize, label: &str) -> SystemCall {
    SystemCall::AppendMenu { menu, flags: MF_STRING, item, text: Some(to_wide(label)) }
}

fn popup_entry(menu: usize, item: usize, label: &str) -> SystemCall {
    SystemCall::AppendMenu { menu, flags: MF_POPUP | MF_STRING, item, text: Some(to_wide(label)) }
}

/// Fills a menu; submenus get the handles given, in order.
fn fill(
    items: &Vec<TrayMenuItem>,
    handles: &[usize],
) -> (Vec<SystemCall>, HashMap<u32, CommandId>) {
    let mut map: HashMap<u32, CommandId> = HashMap::new();
    let mut build = MenuBuild::new(100, items, &mut map);
    let mut calls: Vec<SystemCall> = Vec::new();
    let mut left = handles.iter();
    loop {
        match build.next() {
            Step::Call(call) => {
                assert!(!build.finished());
                let reply = match &call {
                    SystemCall::CreateMenu => Reply::Handle(*left.next().unwrap()),
                    _ => Reply::Flag(true),
                };
                calls.push(call);
                build.reply(&mut map, reply);
            }
            Step::Done(()) => {
                assert!(build.finished());
                return (calls, map);
            }
        }
    }
}

#[test]
fn an_empty_menu_needs_no_calls() {
    let items: Vec<TrayMenuItem> = vec![];
    let (calls, map) = fill(&items, &[]);
    assert!(calls.is_empty());
    assert_eq!(map.get(&1).copied(), None);
}

#[test]
fn commands_count_up_from_one() {
    let items = vec![command(70, "Open"), TrayMenuItem::Separator, command(80, "Quit")];
    let (calls, map) = fill(&items, &[]);
    assert_eq!(
        calls,
        vec![
            entry(100, 1, "Open"),
            SystemCall::AppendMenu { menu: 100, flags: MF_SEPARATOR, item: 0, text: None },
            entry(100, 2, "Quit"),
        ]
    );
    assert_eq!(map.get(&0).copied(), None);
    assert_eq!(map.get(&1).copied(), Some(CommandId(70)));
    assert_eq!(map.get(&2).copied(), Some(CommandId(80)));
    assert_eq!(map.get(&3).copied(), None);
}

#[test]
fn submenus_are_filled_before_they_are_put_in() {
    let items = vec![
        command(1, "a"),
        submenu("More", vec![command(2, "b"), submenu("Deep", vec![command(3, "c")]), command(4, "d")]),
        command(5, "e"),
    ];
    let (calls, map) = fill(&items, &[200, 300]);
    assert_eq!(
        calls,
        vec![
            entry(100, 1, "a"),
            SystemCall::CreateMenu,
            entry(200, 2, "b"),
            SystemCall::CreateMenu,
            entry(300, 3, "c"),
            popup_entry(200, 300, "Deep"),
            entry(200, 4, "d"),
            popup_entry(100, 200, "More"),
            entry(100, 5, "e"),
        ]
    );
    for number in 1..6u32 {
        assert_eq!(map.get(&number).copied(), Some(CommandId(u64::from(number))));
    }
}

#[test]
fn an_empty_submenu_is_put_in() {
    let items = vec![submenu("None", vec![])];
    let (calls, _) = fill(&items, &[200]);
    assert_eq!(calls, vec![SystemCall::CreateMenu, popup_entry(100, 200, "None")]);
}

#[test]
fn a_submenu_that_is_not_made_is_left_out() {
    let items = vec![
        command(1, "a"),
        submenu("Gone", vec![command(2, "b"), command(3, "c")]),
        command(4, "d"),
    ];
    let (calls, map) = fill(&items, &[0]);
    assert_eq!(calls, vec![entry(100, 1, "a"), SystemCall::CreateMenu, entry(100, 2, "d")]);
    assert_eq!(map.get(&2).copied(), Some(CommandId(4)));
    assert_eq!(map.get(&3).copied(), None);
}

#[test]
fn the_same_command_may_stand_twice() {
    let items = vec![command(9, "here"), command(9, "there")];
    let (_, map) = fill(&items, &[]);
    assert_eq!(map.get(&1).copied(), Some(CommandId(9)));
    assert_eq!(map.get(&2).copied(), Some(CommandId(9)));
}

#[test]
fn flags_show_what_a_command_is() {
    assert_eq!(command_flags(true, false), MF_STRING);
    assert_eq!(command_flags(false, false), MF_STRING | MF_GRAYED);
    assert_eq!(command_flags(true, true), MF_STRING | MF_CHECKED);
    assert_eq!(command_flags(false, true), MF_STRING | MF_GRAYED | MF_CHECKED);
}

#[test]
fn a_command_entry_carries_its_number_and_label() {
    let item = TrayCommandItem {
        id: CommandId(5),
        label: "Pause".to_string(),
        enabled: false,
        checked: true,
    };
    assert_eq!(
        append_command_item(7, 42, &item),
        SystemCall::AppendMenu { menu: 7, flags: 9, item: 42, text: Some(to_wide("Pause")) }
    );
}

#[test]
fn a_copied_menu_shows_the_same() {
    let menu = TrayMenuModel {
        items: vec![
            command(1, "a"),
            submenu("More", vec![TrayMenuItem::Separator, command(2, "b")]),
        ],
    };
    let copy = menu.clone();
    let (calls, _) = fill(&menu.items, &[200]);
    let (copied, _) = fill(&copy.items, &[200]);
    assert_eq!(calls, copied);
    assert_eq!(calls.len(), 5);
}

/// Shows a menu of one submenu with two commands.
fn show(
    root: usize,
    cursor: Reply,
    selected: i32,
    appended: bool,
) -> Vec<SystemCall> {
    let menu = TrayMenuModel {
        items: vec![submenu("More", vec![command(11, "one"), command(22, "two")])],
    };
    let mut map: HashMap<u32, CommandId> = HashMap::new();
    map.insert(3, CommandId(33));
    let mut popup = PopupMenu::new(5, &menu);
    let mut calls: Vec<SystemCall> = Vec::new();
    loop {
        match popup.next() {
            Step::Call(call) => {
                let reply = match &call {
                    SystemCall::CreateMenu => {
                        Reply::Handle(if calls.is_empty() { root } else { 200 })
                    }
                    SystemCall::AppendMenu { .. } => Reply::Flag(appended),
                    SystemCall::GetCursor => cursor,
                    SystemCall::TrackMenu { .. } => Reply::Selected(selected),
                    _ => Reply::Done,
                };
                calls.push(call);
                popup.reply(&mut map, reply);
            }
            Step::Done(()) => return calls,
        }
    }
}

fn track(menu: usize) -> SystemCall {
    SystemCall::TrackMenu { menu, flags: 0x122, x: -3, y: 40, window: 5 }
}

const HERE: Reply = Reply::Cursor { found: true, x: -3, y: 40 };

#[test]
fn the_selected_command_runs() {
    let calls = show(100, HERE, 2, true);
    assert_eq!(
        calls,
        vec![
            SystemCall::CreateMenu,
            SystemCall::CreateMenu,
            entry(200, 1, "one"),
            entry(200, 2, "two"),
            popup_entry(100, 200, "More"),
            SystemCall::GetCursor,
            SystemCall::SetForeground { window: 5 },
            track(100),
            SystemCall::RunCommand { command: CommandId(22) },
            SystemCall::DestroyMenu { menu: 100 },
            SystemCall::PostMessage { window: 5, message: 0 },
        ]
    );
}

#[test]
fn without_a_selection_no_command_runs() {
    let calls = show(100, HERE, 0, true);
    assert_eq!(calls[7], track(100));
    assert_eq!(calls[8], SystemCall::DestroyMenu { menu: 100 });
    assert_eq!(calls[9], SystemCall::PostMessage { window: 5, message: 0 });
    assert_eq!(calls.len(), 10);
}

#[test]
fn an_unknown_selection_runs_no_command() {
    for selected in [3, -1, i32::MIN] {
        let calls = show(100, HERE, selected, true);
        assert_eq!(calls[8], SystemCall::DestroyMenu { menu: 100 });
        assert_eq!(calls.len(), 10);
    }
}

#[test]
fn without_a_menu_nothing_is_shown() {
    assert_eq!(show(0, HERE, 1, true), vec![SystemCall::CreateMenu]);
}

#[test]
fn without_a_cursor_the_menu_is_destroyed() {
    let calls = show(100, Reply::Cursor { found: false, x: 1, y: 1 }, 1, true);
    assert_eq!(calls[5], SystemCall::GetCursor);
    assert_eq!(calls[6], SystemCall::DestroyMenu { menu: 100 });
    assert_eq!(calls.len(), 7);
}

#[test]
fn entries_that_are_not_put_in_change_nothing_else() {
    assert_eq!(show(100, HERE, 1, false), show(100, HERE, 1, true));
}

#[test]
fn a_menu_is_destroyed_once_for_every_one_made() {
    let calls = show(100, HERE, 1, true);
    let destroyed = calls
        .iter()
        .filter(|call| matches!(call, SystemCall::DestroyMenu { .. }))
        .count();
    assert_eq!(destroyed, 1);
    let handed_over = calls
        .iter()
        .filter(|call| matches!(call, SystemCall::AppendMenu { flags: 0x10, .. }))
        .count();
    let made = calls.iter().filter(|call| matches!(call, SystemCall::CreateMenu)).count();
    assert_eq!(made, destroyed + handed_over);
}

#[test]
fn commands_are_put_in_as_they_are_numbered() {
    let items = vec![command(70, "Open"), command(80, "Quit")];
    let mut map: HashMap<u32, CommandId> = HashMap::new();
    map.insert(9, CommandId(90));
    let mut build = MenuBuild::new(100, &items, &mut map);
    assert_eq!(map.get(&1), Some(&CommandId(70)));
    assert_eq!(map.get(&2), None);
    build.reply(&mut map, Reply::Flag(true));
    assert_eq!(map.get(&2), Some(&CommandId(80)));
    build.reply(&mut map, Reply::Flag(true));
    assert!(build.finished());
    assert_eq!(map.len(), 3);
}

#[test]
fn a_selection_is_looked_up_as_the_tray_knows_it_then() {
    let first = TrayMenuModel { items: vec![command(11, "one")] };
    let second = TrayMenuModel { items: vec![command(22, "two")] };
    let mut map: HashMap<u32, CommandId> = HashMap::new();
    let mut outer = PopupMenu::new(5, &first);
    outer.reply(&mut map, Reply::Handle(100));
    outer.reply(&mut map, Reply::Flag(true));
    outer.reply(&mut map, HERE);
    outer.reply(&mut map, Reply::Done);
    assert_eq!(map.get(&1), Some(&CommandId(11)));
    let mut inner = PopupMenu::new(5, &second);
    inner.reply(&mut map, Reply::Handle(200));
    inner.reply(&mut map, Reply::Flag(true));
    assert_eq!(map.get(&1), Some(&CommandId(22)));
    outer.reply(&mut map, Reply::Selected(1));
    match outer.next() {
        Step::Call(call) => assert_eq!(call, SystemCall::RunCommand { command: CommandId(22) }),
        Step::Done(()) => panic!("ended early"),
    }
}

#[test]
fn a_menu_that_is_not_made_leaves_the_numbers() {
    let menu = TrayMenuModel { items: vec![command(11, "one")] };
    let mut map: HashMap<u32, CommandId> = HashMap::new();
    map.insert(1, CommandId(44));
    let mut popup = PopupMenu::new(5, &menu);
    popup.reply(&mut map, Reply::Handle(0));
    assert_eq!(map.get(&1), Some(&CommandId(44)));
    let mut again = PopupMenu::new(5, &menu);
    map.insert(2, CommandId(55));
    again.reply(&mut map, Reply::Handle(100));
    assert_eq!(map.get(&1), Some(&CommandId(11)));
    assert_eq!(map.get(&2), None);
}
