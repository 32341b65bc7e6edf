//! The numbers of the window messages and keys that the program knows.

use vstd::prelude::*;

verus! {

pub const WM_DESTROY: u32 = 0x0002;

pub const WM_PAINT: u32 = 0x000f;

pub const WM_CLOSE: u32 = 0x0010;

pub const WM_QUIT: u32 = 0x0012;

pub const WM_ERASEBKGND: u32 = 0x0014;

pub const WM_SETTINGCHANGE: u32 = 0x001a;

pub const WM_MOUSEACTIVATE: u32 = 0x0021;

pub const WM_CONTEXTMENU: u32 = 0x007b;

pub const WM_DISPLAYCHANGE: u32 = 0x007e;

pub const WM_NCHITTEST: u32 = 0x0084;

pub const WM_KEYDOWN: u32 = 0x0100;

pub const WM_COMMAND: u32 = 0x0111;

pub const WM_MOUSEMOVE: u32 = 0x0200;

pub const WM_LBUTTONDOWN: u32 = 0x0201;

pub const WM_LBUTTONUP: u32 = 0x0202;

pub const WM_LBUTTONDBLCLK: u32 = 0x0203;

pub const WM_RBUTTONUP: u32 = 0x0205;

pub const WM_DPICHANGED: u32 = 0x02e0;

/// The return key.
pub const VK_RETURN: usize = 0x0d;

/// The escape key.
pub const VK_ESCAPE: usize = 0x1b;

/// The answer that a point of a window is transparent.
pub const HTTRANSPARENT: isize = -1;

/// The answer that a click activates nothing.
pub const MA_NOACTIVATE: isize = 3;

} // verus!
