//! System tray icons for Windows.
//!
//! The library decides what is asked of the system, in which order, and what is
//! made of the replies. An operation gives one call after the other, as a
//! `SystemCall`, and takes the `Reply` to each. Making the calls is left to the
//! caller.

pub mod create;
pub mod decode;
pub mod error;
pub mod icon;
pub mod ledger;
pub mod lifetime;
pub mod menu;
pub mod model;
pub mod pixels;
pub mod popup;
pub mod system;
pub mod tooltip;
pub mod tray;
pub mod update;
pub mod wide;

pub use crate::create::{create_tray_windows, TrayCreation};
pub use crate::error::WindowsTrayError;
pub use crate::model::{
    CommandId, TrayCommandItem, TrayIcon, TrayMenuItem, TrayMenuModel, TrayModel, TraySubmenu,
};
pub use crate::popup::PopupMenu;
pub use crate::system::{Reply, Step, SystemCall};
pub use crate::tray::{show_tray_menu, tray_wnd_proc, TrayState, WindowAction, WindowsTrayHandle};
pub use crate::update::IconUpdate;
