use windows_sys::Win32::Graphics::Gdi;
use windows_sys::Win32::UI::Shell;
use windows_sys::Win32::UI::WindowsAndMessaging;
use windows_tray::system;
use windows_tray::Reply;

#[test]
fn messages_have_the_numbers_of_the_system() {
    assert_eq!(system::WM_APP, WindowsAndMessaging::WM_APP);
    assert_eq!(system::WM_TRAYICON, WindowsAndMessaging::WM_APP + 1);
    assert_eq!(system::WM_NULL, WindowsAndMessaging::WM_NULL);
    assert_eq!(system::WM_DESTROY, WindowsAndMessaging::WM_DESTROY);
    assert_eq!(system::WM_CONTEXTMENU, WindowsAndMessaging::WM_CONTEXTMENU);
    assert_eq!(system::WM_LBUTTONUP, WindowsAndMessaging::WM_LBUTTONUP);
    assert_eq!(system::WM_LBUTTONDBLCLK, WindowsAndMessaging::WM_LBUTTONDBLCLK);
    assert_eq!(system::WM_RBUTTONUP, WindowsAndMessaging::WM_RBUTTONUP);
}

#[test]
fn shell_constants_are_those_of_the_system() {
    assert_eq!(system::NIM_ADD, Shell::NIM_ADD);
    assert_eq!(system::NIM_MODIFY, Shell::NIM_MODIFY);
    assert_eq!(system::NIM_DELETE, Shell::NIM_DELETE);
    assert_eq!(system::NIF_MESSAGE, Shell::NIF_MESSAGE);
    assert_eq!(system::NIF_ICON, Shell::NIF_ICON);
    assert_eq!(system::NIF_TIP, Shell::NIF_TIP);
}

#[test]
fn menu_constants_are_those_of_the_system() {
    assert_eq!(system::MF_STRING, WindowsAndMessaging::MF_STRING);
    assert_eq!(system::MF_GRAYED, WindowsAndMessaging::MF_GRAYED);
    assert_eq!(system::MF_CHECKED, WindowsAndMessaging::MF_CHECKED);
    assert_eq!(system::MF_POPUP, WindowsAndMessaging::MF_POPUP);
    assert_eq!(system::MF_SEPARATOR, WindowsAndMessaging::MF_SEPARATOR);
    assert_eq!(system::TPM_LEFTALIGN, WindowsAndMessaging::TPM_LEFTALIGN);
    assert_eq!(system::TPM_RIGHTBUTTON, WindowsAndMessaging::TPM_RIGHTBUTTON);
    assert_eq!(system::TPM_BOTTOMALIGN, WindowsAndMessaging::TPM_BOTTOMALIGN);
    assert_eq!(system::TPM_RETURNCMD, WindowsAndMessaging::TPM_RETURNCMD);
}

#[test]
fn bitmap_constants_are_those_of_the_system() {
    assert_eq!(system::BI_BITFIELDS, Gdi::BI_BITFIELDS);
}

#[test]
fn a_reply_holds_only_what_it_is_for() {
    assert_eq!(Reply::Handle(5).handle(), 5);
    assert_eq!(Reply::Done.handle(), 0);
    assert!(Reply::Flag(true).flag());
    assert!(!Reply::Flag(false).flag());
    assert!(!Reply::Handle(1).flag());
    let section = Reply::Section { bitmap: 3, bits: 4 };
    assert_eq!((section.bitmap(), section.bits()), (3, 4));
    assert_eq!((Reply::Done.bitmap(), Reply::Done.bits()), (0, 0));
    assert_eq!(Reply::Cursor { found: true, x: -1, y: 2 }.cursor(), Some((-1, 2)));
    assert_eq!(Reply::Cursor { found: false, x: -1, y: 2 }.cursor(), None);
    assert_eq!(Reply::Selected(9).selected(), 9);
    assert_eq!(Reply::Done.selected(), 0);
    assert_eq!(Reply::Message(0xC001).message(), 0xC001);
    assert_eq!(Reply::Done.message(), 0);
}
