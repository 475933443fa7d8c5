//! The calls that a tray makes to the system, and what comes back.
//!
//! Handles are numbers; zero is the null handle.

use vstd::prelude::*;

use crate::model::CommandId;

verus! {

/// The first message number that applications may use for themselves.
pub const WM_APP: u32 = 0x8000;

/// The message that the shell sends for events on the tray icon.
pub const WM_TRAYICON: u32 = WM_APP + 1;

pub const WM_NULL: u32 = 0;

pub const WM_DESTROY: u32 = 0x0002;

pub const WM_CONTEXTMENU: u32 = 0x007B;

pub const WM_LBUTTONUP: u32 = 0x0202;

pub const WM_LBUTTONDBLCLK: u32 = 0x0203;

pub const WM_RBUTTONUP: u32 = 0x0205;

pub const NIM_ADD: u32 = 0;

pub const NIM_MODIFY: u32 = 1;

pub const NIM_DELETE: u32 = 2;

pub const NIF_MESSAGE: u32 = 0x01;

pub const NIF_ICON: u32 = 0x02;

pub const NIF_TIP: u32 = 0x04;

pub const MF_STRING: u32 = 0x0000;

pub const MF_GRAYED: u32 = 0x0001;

pub const MF_CHECKED: u32 = 0x0008;

pub const MF_POPUP: u32 = 0x0010;

pub const MF_SEPARATOR: u32 = 0x0800;

pub const TPM_LEFTALIGN: u32 = 0x0000;

pub const TPM_RIGHTBUTTON: u32 = 0x0002;

pub const TPM_BOTTOMALIGN: u32 = 0x0020;

pub const TPM_RETURNCMD: u32 = 0x0100;

pub const BI_BITFIELDS: u32 = 3;

/// How many code units the tooltip of a tray icon has room for, the
/// terminating zero among them.
pub const TIP_UNITS: usize = 128;

/// What the shell is told of a tray icon.
#[derive(Clone, Copy, Debug, PartialEq, Eq)]
pub struct NotifyIconData {
    pub window: usize,
    pub id: u32,
    pub flags: u32,
    pub callback_message: u32,
    pub icon: usize,
    pub tip: [u16; 128],
}

/// What the shell is told of a tray icon, with the tooltip as a sequence.
pub struct NotifyView {
    pub window: usize,
    pub id: u32,
    pub flags: u32,
    pub callback_message: u32,
    pub icon: usize,
    pub tip: Seq<u16>,
}

impl View for NotifyIconData {
    type V = NotifyView;

    open spec fn view(&self) -> NotifyView {
        NotifyView {
            window: self.window,
            id: self.id,
            flags: self.flags,
            callback_message: self.callback_message,
            icon: self.icon,
            tip: self.tip@,
        }
    }
}

/// The layout of the bitmap that an icon is made of.
#[derive(Clone, Copy, Debug, PartialEq, Eq, Structural)]
pub struct BitmapHeader {
    pub width: i32,
    pub height: i32,
    pub planes: u16,
    pub bit_count: u16,
    pub compression: u32,
    pub red_mask: u32,
    pub green_mask: u32,
    pub blue_mask: u32,
    pub alpha_mask: u32,
    pub image_size: u32,
}

/// A call to the system.
#[derive(Debug, PartialEq, Eq)]
pub enum SystemCall {
    /// `GetModuleHandleW` of the running program. Reply: a handle.
    GetModuleHandle,
    /// `RegisterClassW`, for the window procedure of the tray.
    RegisterClass { instance: usize, class_name: Vec<u16> },
    /// `CreateWindowExW`, of no size, under the name of its class. Reply: a handle.
    CreateWindow { instance: usize, class_name: Vec<u16> },
    /// `DestroyWindow`.
    DestroyWindow { window: usize },
    /// `SetWindowLongPtrW`: lets the window procedure find the state of the tray.
    AttachState { window: usize },
    /// `SetWindowLongPtrW`: hides the state of the tray from the window procedure.
    DetachState { window: usize },
    /// `RegisterWindowMessageW`. Reply: a message number.
    RegisterMessage { name: Vec<u16> },
    /// `Shell_NotifyIconW`. Reply: a flag.
    NotifyIcon { message: u32, data: NotifyIconData },
    /// `DestroyIcon`.
    DestroyIcon { icon: usize },
    /// `GetDC` of the screen. Reply: a handle.
    GetDc,
    /// `CreateDIBSection`. Reply: the bitmap and the place of its pixels.
    CreateSection { dc: usize, header: BitmapHeader },
    /// `ReleaseDC` of the screen.
    ReleaseDc { dc: usize },
    /// Writes the pixels of a bitmap to their place.
    CopyPixels { bits: usize, pixels: Vec<u8> },
    /// `CreateBitmap`, of one plane and one bit per pixel. Reply: a handle.
    CreateMask { width: i32, height: i32 },
    /// `CreateIconIndirect`. Reply: a handle.
    CreateIcon { mask: usize, color: usize },
    /// `DeleteObject`.
    DeleteObject { object: usize },
    /// `CreatePopupMenu`. Reply: a handle.
    CreateMenu,
    /// `AppendMenuW`. Reply: a flag.
    AppendMenu { menu: usize, flags: u32, item: usize, text: Option<Vec<u16>> },
    /// `DestroyMenu`.
    DestroyMenu { menu: usize },
    /// `GetCursorPos`. Reply: a place.
    GetCursor,
    /// `SetForegroundWindow`.
    SetForeground { window: usize },
    /// `TrackPopupMenu`. Reply: the item selected.
    TrackMenu { menu: usize, flags: u32, x: i32, y: i32, window: usize },
    /// `PostMessageW`, without parameters.
    PostMessage { window: usize, message: u32 },
    /// Hands a command to the application.
    RunCommand { command: CommandId },
}

/// A call to the system, with its texts and its pixels as sequences.
pub enum CallView {
    GetModuleHandle,
    RegisterClass { instance: usize, class_name: Seq<u16> },
    CreateWindow { instance: usize, class_name: Seq<u16> },
    DestroyWindow { window: usize },
    AttachState { window: usize },
    DetachState { window: usize },
    RegisterMessage { name: Seq<u16> },
    NotifyIcon { message: u32, data: NotifyView },
    DestroyIcon { icon: usize },
    GetDc,
    CreateSection { dc: usize, header: BitmapHeader },
    ReleaseDc { dc: usize },
    CopyPixels { bits: usize, pixels: Seq<u8> },
    CreateMask { width: i32, height: i32 },
    CreateIcon { mask: usize, color: usize },
    DeleteObject { object: usize },
    CreateMenu,
    AppendMenu { menu: usize, flags: u32, item: usize, text: Option<Seq<u16>> },
    DestroyMenu { menu: usize },
    GetCursor,
    SetForeground { window: usize },
    TrackMenu { menu: usize, flags: u32, x: i32, y: i32, window: usize },
    PostMessage { window: usize, message: u32 },
    RunCommand { command: CommandId },
}

impl View for SystemCall {
    type V = CallView;

    open spec fn view(&self) -> CallView {
        match *self {
            SystemCall::GetModuleHandle => CallView::GetModuleHandle,
            SystemCall::RegisterClass { instance, class_name } => CallView::RegisterClass {
                instance,
                class_name: class_name@,
            },
            SystemCall::CreateWindow { instance, class_name } => CallView::CreateWindow {
                instance,
                class_name: class_name@,
            },
            SystemCall::DestroyWindow { window } => CallView::DestroyWindow { window },
            SystemCall::AttachState { window } => CallView::AttachState { window },
            SystemCall::DetachState { window } => CallView::DetachState { window },
            SystemCall::RegisterMessage { name } => CallView::RegisterMessage { name: name@ },
            SystemCall::NotifyIcon { message, data } => CallView::NotifyIcon {
                message,
                data: data@,
            },
            SystemCall::DestroyIcon { icon } => CallView::DestroyIcon { icon },
            SystemCall::GetDc => CallView::GetDc,
            SystemCall::CreateSection { dc, header } => CallView::CreateSection { dc, header },
            SystemCall::ReleaseDc { dc } => CallView::ReleaseDc { dc },
            SystemCall::CopyPixels { bits, pixels } => CallView::CopyPixels {
                bits,
                pixels: pixels@,
            },
            SystemCall::CreateMask { width, height } => CallView::CreateMask { width, height },
            SystemCall::CreateIcon { mask, color } => CallView::CreateIcon { mask, color },
            SystemCall::DeleteObject { object } => CallView::DeleteObject { object },
            SystemCall::CreateMenu => CallView::CreateMenu,
            SystemCall::AppendMenu { menu, flags, item, text } => CallView::AppendMenu {
                menu,
                flags,
                item,
                text: match text {
                    Some(units) => Some(units@),
                    None => None,
                },
            },
            SystemCall::DestroyMenu { menu } => CallView::DestroyMenu { menu },
            SystemCall::GetCursor => CallView::GetCursor,
            SystemCall::SetForeground { window } => CallView::SetForeground { window },
            SystemCall::TrackMenu { menu, flags, x, y, window } => CallView::TrackMenu {
                menu,
                flags,
                x,
                y,
                window,
            },
            SystemCall::PostMessage { window, message } => CallView::PostMessage {
                window,
                message,
            },
            SystemCall::RunCommand { command } => CallView::RunCommand { command },
        }
    }
}

/// What a call to the system gives back.
#[derive(Clone, Copy, Debug, PartialEq, Eq, Structural)]
pub enum Reply {
    /// Nothing, or nothing that matters.
    Done,
    /// A handle; zero where the call failed.
    Handle(usize),
    /// Whether the call succeeded.
    Flag(bool),
    /// A bitmap and the place of its pixels; zero where there is none.
    Section { bitmap: usize, bits: usize },
    /// The place of the cursor, where it was found.
    Cursor { found: bool, x: i32, y: i32 },
    /// The menu item selected; zero where there was none.
    Selected(i32),
    /// A message number; zero where there is none.
    Message(u32),
}

impl Reply {
    /// The handle in a reply; zero in one that holds none.
    pub open spec fn handle_spec(self) -> usize {
        match self {
            Reply::Handle(handle) => handle,
            _ => 0,
        }
    }

    /// Whether a reply reports success.
    pub open spec fn flag_spec(self) -> bool {
        self == Reply::Flag(true)
    }

    /// The bitmap in a reply; zero in one that holds none.
    pub open spec fn bitmap_spec(self) -> usize {
        match self {
            Reply::Section { bitmap, bits } => bitmap,
            _ => 0,
        }
    }

    /// The place of the pixels in a reply; zero in one that holds none.
    pub open spec fn bits_spec(self) -> usize {
        match self {
            Reply::Section { bitmap, bits } => bits,
            _ => 0,
        }
    }

    /// The place of the cursor in a reply, where it was found.
    pub open spec fn cursor_spec(self) -> Option<(i32, i32)> {
        match self {
            Reply::Cursor { found: true, x, y } => Some((x, y)),
            _ => None,
        }
    }

    /// The menu item in a reply; zero in one that holds none.
    pub open spec fn selected_spec(self) -> i32 {
        match self {
            Reply::Selected(item) => item,
            _ => 0,
        }
    }

    /// The message number in a reply; zero in one that holds none.
    pub open spec fn message_spec(self) -> u32 {
        match self {
            Reply::Message(message) => message,
            _ => 0,
        }
    }

    /// The handle in a reply; zero in one that holds none.
    #[verifier::when_used_as_spec(handle_spec)]
    pub fn handle(self) -> (handle: usize)
        ensures
            handle == self.handle_spec(),
    {
        match self {
            Reply::Handle(handle) => handle,
            _ => 0,
        }
    }

    /// Whether a reply reports success.
    #[verifier::when_used_as_spec(flag_spec)]
    pub fn flag(self) -> (flag: bool)
        ensures
            flag == self.flag_spec(),
    {
        match self {
            Reply::Flag(flag) => flag,
            _ => false,
        }
    }

    /// The bitmap in a reply; zero in one that holds none.
    #[verifier::when_used_as_spec(bitmap_spec)]
    pub fn bitmap(self) -> (bitmap: usize)
        ensures
            bitmap == self.bitmap_spec(),
    {
        match self {
            Reply::Section { bitmap, bits: _ } => bitmap,
            _ => 0,
        }
    }

    /// The place of the pixels in a reply; zero in one that holds none.
    #[verifier::when_used_as_spec(bits_spec)]
    pub fn bits(self) -> (bits: usize)
        ensures
            bits == self.bits_spec(),
    {
        match self {
            Reply::Section { bitmap: _, bits } => bits,
            _ => 0,
        }
    }

    /// The place of the cursor in a reply, where it was found.
    #[verifier::when_used_as_spec(cursor_spec)]
    pub fn cursor(self) -> (place: Option<(i32, i32)>)
        ensures
            place == self.cursor_spec(),
    {
        match self {
            Reply::Cursor { found: true, x, y } => Some((x, y)),
            _ => None,
        }
    }

    /// The menu item in a reply; zero in one that holds none.
    #[verifier::when_used_as_spec(selected_spec)]
    pub fn selected(self) -> (item: i32)
        ensures
            item == self.selected_spec(),
    {
        match self {
            Reply::Selected(item) => item,
            _ => 0,
        }
    }

    /// The message number in a reply; zero in one that holds none.
    #[verifier::when_used_as_spec(message_spec)]
    pub fn message(self) -> (message: u32)
        ensures
            message == self.message_spec(),
    {
        match self {
            Reply::Message(message) => message,
            _ => 0,
        }
    }
}

/// What an operation on a tray does next.
#[derive(Debug)]
pub enum Step<T> {
    /// It makes a call, and goes on with the reply.
    Call(SystemCall),
    /// It has ended.
    Done(T),
}

/// What is said of a call is said of its own fields.
pub proof fn law_calls_keep_their_fields(call: SystemCall)
    ensures
        match call {
            SystemCall::GetModuleHandle => call@ is GetModuleHandle,
            SystemCall::RegisterClass { instance, class_name } => call@
                == (CallView::RegisterClass { instance, class_name: class_name@ }),
            SystemCall::CreateWindow { instance, class_name } => call@
                == (CallView::CreateWindow { instance, class_name: class_name@ }),
            SystemCall::DestroyWindow { window } => call@ == (CallView::DestroyWindow { window }),
            SystemCall::AttachState { window } => call@ == (CallView::AttachState { window }),
            SystemCall::DetachState { window } => call@ == (CallView::DetachState { window }),
            SystemCall::RegisterMessage { name } => call@ == (CallView::RegisterMessage {
                name: name@,
            }),
            SystemCall::NotifyIcon { message, data } => call@ == (CallView::NotifyIcon {
                message,
                data: data@,
            }),
            SystemCall::DestroyIcon { icon } => call@ == (CallView::DestroyIcon { icon }),
            SystemCall::GetDc => call@ is GetDc,
            SystemCall::CreateSection { dc, header } => call@ == (CallView::CreateSection {
                dc,
                header,
            }),
            SystemCall::ReleaseDc { dc } => call@ == (CallView::ReleaseDc { dc }),
            SystemCall::CopyPixels { bits, pixels } => call@ == (CallView::CopyPixels {
                bits,
                pixels: pixels@,
            }),
            SystemCall::CreateMask { width, height } => call@ == (CallView::CreateMask {
                width,
                height,
            }),
            SystemCall::CreateIcon { mask, color } => call@ == (CallView::CreateIcon {
                mask,
                color,
            }),
            SystemCall::DeleteObject { object } => call@ == (CallView::DeleteObject { object }),
            SystemCall::CreateMenu => call@ is CreateMenu,
            SystemCall::AppendMenu { menu, flags, item, text: Some(units) } => call@
                == (CallView::AppendMenu { menu, flags, item, text: Some(units@) }),
            SystemCall::AppendMenu { menu, flags, item, text: None } => call@
                == (CallView::AppendMenu { menu, flags, item, text: None }),
            SystemCall::DestroyMenu { menu } => call@ == (CallView::DestroyMenu { menu }),
            SystemCall::GetCursor => call@ is GetCursor,
            SystemCall::SetForeground { window } => call@ == (CallView::SetForeground { window }),
            SystemCall::TrackMenu { menu, flags, x, y, window } => call@ == (CallView::TrackMenu {
                menu,
                flags,
                x,
                y,
                window,
            }),
            SystemCall::PostMessage { window, message } => call@ == (CallView::PostMessage {
                window,
                message,
            }),
            SystemCall::RunCommand { command } => call@ == (CallView::RunCommand { command }),
        },
{
}

/// What is said of what the shell is told is said of its own fields.
pub proof fn law_notice_keeps_its_fields(data: NotifyIconData)
    ensures
        data@.window == data.window,
        data@.id == data.id,
        data@.flags == data.flags,
        data@.callback_message == data.callback_message,
        data@.icon == data.icon,
        data@.tip.len() == 128,
        forall|i: int| 0 <= i < 128 ==> data@.tip[i] == data.tip[i],
{
}

/// A reply gives what it holds to the question that it answers, and nothing to any
/// other.
pub proof fn law_replies_give_what_they_hold(reply: Reply)
    ensures
        match reply {
            Reply::Handle(handle) => reply.handle_spec() == handle,
            _ => reply.handle_spec() == 0,
        },
        match reply {
            Reply::Flag(flag) => reply.flag_spec() == flag,
            _ => !reply.flag_spec(),
        },
        match reply {
            Reply::Section { bitmap, bits } => reply.bitmap_spec() == bitmap && reply.bits_spec()
                == bits,
            _ => reply.bitmap_spec() == 0 && reply.bits_spec() == 0,
        },
        match reply {
            Reply::Cursor { found, x, y } => reply.cursor_spec() == if found {
                Some((x, y))
            } else {
                None
            },
            _ => reply.cursor_spec() is None,
        },
        match reply {
            Reply::Selected(item) => reply.selected_spec() == item,
            _ => reply.selected_spec() == 0,
        },
        match reply {
            Reply::Message(message) => reply.message_spec() == message,
            _ => reply.message_spec() == 0,
        },
{
}

} // verus!
