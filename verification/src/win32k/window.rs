//! Window management: window objects, their styles and messages, and the
//! window manager that creates, finds, moves, shows and destroys them.
//!
//! The manager keeps its windows in slots and finds them through an index
//! of `(handle, slot)` pairs; the first index entry for a handle decides
//! which window the handle names.

use vstd::prelude::*;
use crate::win32k::objects::Rect;
use crate::win32k::user_objects::{without, chain_without};

verus! {

/// Window style flags (WS_*) as a bit mask.
#[derive(Debug, Clone, Copy, PartialEq, Eq, Structural, Default)]
pub struct WindowStyle(pub u32);

impl WindowStyle {
    pub const BORDER: u32 = 0x00800000;
    pub const CAPTION: u32 = 0x00C00000;
    pub const CHILD: u32 = 0x40000000;
    pub const CLIP_CHILDREN: u32 = 0x02000000;
    pub const CLIP_SIBLINGS: u32 = 0x04000000;
    pub const DISABLED: u32 = 0x08000000;
    pub const GROUP: u32 = 0x00020000;
    pub const HORIZONTAL_SCROLL: u32 = 0x00100000;
    pub const VERTICAL_SCROLL: u32 = 0x00200000;
    pub const ICONIC: u32 = 0x20000000;
    pub const MAXIMIZE: u32 = 0x01000000;
    pub const MAXIMIZE_BOX: u32 = 0x00010000;
    pub const MINIMIZE: u32 = 0x20000000;
    pub const POPUP: u32 = 0x80000000;
    pub const SIZE_BOX: u32 = 0x00040000;
    pub const SYS_MENU: u32 = 0x00080000;
    pub const TAB_STOP: u32 = 0x00010000;
    pub const VISIBLE: u32 = 0x10000000;

    /// The style with bits `bits`.
    pub fn new(bits: u32) -> (r: Self)
        ensures
            r.0 == bits,
    {
        WindowStyle(bits)
    }

    /// The style's bits.
    pub fn bits(&self) -> (r: u32)
        ensures
            r == self.0,
    {
        self.0
    }

    /// Add the bits of `flag`.
    pub fn set(&mut self, flag: u32)
        ensures
            final(self).0 == old(self).0 | flag,
    {
        self.0 = self.0 | flag;
    }

    /// Every bit of `flag` is set.
    pub fn contains(&self, flag: u32) -> (r: bool)
        ensures
            r == (self.0 & flag == flag),
    {
        (self.0 & flag) == flag
    }
}

/// Extended window style flags (WS_EX_*) as a bit mask.
#[derive(Debug, Clone, Copy, PartialEq, Eq, Structural, Default)]
pub struct WindowStyleEx(pub u32);

impl WindowStyleEx {
    pub const APP_WINDOW: u32 = 0x00040000;
    pub const CLIENT_EDGE: u32 = 0x00000200;
    pub const COMBINE_RECT: u32 = 0x00000020;
    pub const CONTEXT_HELP: u32 = 0x00000400;
    pub const DLG_MODAL_FRAME: u32 = 0x00000001;
    pub const LEFT: u32 = 0x00000000;
    pub const RIGHT: u32 = 0x00001000;
    pub const LTR_READING: u32 = 0x00000000;
    pub const NO_ACTIVATE: u32 = 0x08000000;
    pub const NO_INHERIT_LAYOUT: u32 = 0x00100000;
    pub const OVERLAPPED_WINDOW: u32 = 0x00000300;
    pub const RIGHT_SCROLLBAR: u32 = 0x00000000;
    pub const RTL_READING: u32 = 0x00002000;
    pub const STATIC_EDGE: u32 = 0x00020000;
    pub const TOOL_WINDOW: u32 = 0x00000080;
    pub const TOPMOST: u32 = 0x00000008;
    pub const TRANSPARENT: u32 = 0x00000020;
    pub const WINDOW_EDGE: u32 = 0x00000100;

    /// The style with bits `bits`.
    pub fn new(bits: u32) -> (r: Self)
        ensures
            r.0 == bits,
    {
        WindowStyleEx(bits)
    }

    /// The style's bits.
    pub fn bits(&self) -> (r: u32)
        ensures
            r == self.0,
    {
        self.0
    }

    /// Add the bits of `flag`.
    pub fn set(&mut self, flag: u32)
        ensures
            final(self).0 == old(self).0 | flag,
    {
        self.0 = self.0 | flag;
    }

    /// Every bit of `flag` is set.
    pub fn contains(&self, flag: u32) -> (r: bool)
        ensures
            r == (self.0 & flag == flag),
    {
        (self.0 & flag) == flag
    }
}

/// Window message types.
#[derive(Debug, Clone, Copy, PartialEq, Eq, Structural)]
#[allow(non_camel_case_types)]
pub enum WindowMessage {
    WM_CREATE,
    WM_DESTROY,
    WM_MOVE,
    WM_SIZE,
    WM_ACTIVATE,
    WM_SETFOCUS,
    WM_KILLFOCUS,
    WM_ENABLE,
    WM_SETREDRAW,
    WM_SETTEXT,
    WM_GETTEXT,
    WM_GETTEXTLENGTH,
    WM_PAINT,
    WM_CLOSE,
    WM_QUERYENDSESSION,
    WM_QUIT,
    WM_QUERYOPEN,
    WM_ERASEBKGND,
    WM_SYSCOLORCHANGE,
    WM_SHOWWINDOW,
    WM_WININICHANGE,
    WM_SETCURSOR,
    WM_MOUSEACTIVATE,
    WM_CHILDACTIVATE,
    WM_QUEUESYNC,
    WM_GETMINMAXINFO,
    WM_PAINTICON,
    WM_ICONERASEBKGND,
    WM_SPOOLER_STATUS,
    WM_DRAWITEM,
    WM_MEASUREITEM,
    WM_DELETEITEM,
    WM_VKEYTOITEM,
    WM_CHARTOITEM,
    WM_SETFONT,
    WM_GETFONT,
    WM_SETHOTKEY,
    WM_GETHOTKEY,
    WM_QUERYDRAGICON,
    WM_COMPAREITEM,
    WM_GETOBJECT,
    WM_COMPACTING,
    WM_WINDOWPOSCHANGING,
    WM_WINDOWPOSCHANGED,
    WM_COPYDATA,
    WM_CANCELJOURNAL,
    WM_CANCELMODE,
    WM_NOTIFY,
    WM_INPUTLANGCHANGEREQUEST,
    WM_INPUTLANGCHANGE,
    WM_TCARD,
    WM_HELP,
    WM_USERCHANGED,
    WM_NOTIFYFORMAT,
    WM_CONTEXTMENU,
    WM_STYLECHANGING,
    WM_STYLECHANGED,
    WM_DISPLAYCHANGE,
    WM_GETICON,
    WM_SETICON,
    WM_NCCREATE,
    WM_NCDESTROY,
    WM_NCCALCSIZE,
    WM_NCHITTEST,
    WM_NCPAINT,
    WM_NCACTIVATE,
    WM_GETDLGCODE,
    WM_SYNCPAINT,
    WM_NCMOUSEMOVE,
    WM_NCLBUTTONDOWN,
    WM_NCLBUTTONUP,
    WM_NCLBUTTONDBLCLK,
    WM_NCRBUTTONDOWN,
    WM_NCRBUTTONUP,
    WM_NCRBUTTONDBLCLK,
    WM_NCMBUTTONDOWN,
    WM_NCMBUTTONUP,
    WM_NCMBUTTONDBLCLK,
    WM_KEYDOWN,
    WM_KEYUP,
    WM_CHAR,
    WM_DEADCHAR,
    WM_SYSKEYDOWN,
    WM_SYSKEYUP,
    WM_SYSCHAR,
    WM_SYSDEADCHAR,
    WM_KEYLAST,
    WM_INITDIALOG,
    WM_COMMAND,
    WM_SYSCOMMAND,
    WM_TIMER,
    WM_HSCROLL,
    WM_VSCROLL,
    WM_INITMENU,
    WM_INITMENUPOPUP,
    WM_MENUSELECT,
    WM_MENUCHAR,
    WM_ENTERIDLE,
    WM_MENURBUTTONUP,
    WM_MENUDRAG,
    WM_MENUGETOBJECT,
    WM_UNINITMENUPOPUP,
    WM_MENUCOMMAND,
    WM_CHANGEUISTATE,
    WM_UPDATEUISTATE,
    WM_QUERYUISTATE,
    WM_CTLCOLORMSGBOX,
    WM_CTLCOLOREDIT,
    WM_CTLCOLORLISTBOX,
    WM_CTLCOLORBTN,
    WM_CTLCOLORDLG,
    WM_CTLCOLORSCROLLBAR,
    WM_CTLCOLORSTATIC,
    WM_MOUSEMOVE,
    WM_LBUTTONDOWN,
    WM_LBUTTONUP,
    WM_LBUTTONDBLCLK,
    WM_RBUTTONDOWN,
    WM_RBUTTONUP,
    WM_RBUTTONDBLCLK,
    WM_MBUTTONDOWN,
    WM_MBUTTONUP,
    WM_MBUTTONDBLCLK,
    WM_MOUSEWHEEL,
    WM_XBUTTONDOWN,
    WM_XBUTTONUP,
    WM_XBUTTONDBLCLK,
    WM_MOUSEHOVER,
    WM_MOUSELEAVE,
    WM_MOUSEHWHEEL,
}

impl WindowMessage {
    /// The message's number.
    pub open spec fn code(self) -> u32 {
        match self {
            WindowMessage::WM_CREATE => 0x0001,
            WindowMessage::WM_DESTROY => 0x0002,
            WindowMessage::WM_MOVE => 0x0003,
            WindowMessage::WM_SIZE => 0x0005,
            WindowMessage::WM_ACTIVATE => 0x0006,
            WindowMessage::WM_SETFOCUS => 0x0007,
            WindowMessage::WM_KILLFOCUS => 0x0008,
            WindowMessage::WM_ENABLE => 0x000A,
            WindowMessage::WM_SETREDRAW => 0x000B,
            WindowMessage::WM_SETTEXT => 0x000C,
            WindowMessage::WM_GETTEXT => 0x000D,
            WindowMessage::WM_GETTEXTLENGTH => 0x000E,
            WindowMessage::WM_PAINT => 0x000F,
            WindowMessage::WM_CLOSE => 0x0010,
            WindowMessage::WM_QUERYENDSESSION => 0x0011,
            WindowMessage::WM_QUIT => 0x0012,
            WindowMessage::WM_QUERYOPEN => 0x0013,
            WindowMessage::WM_ERASEBKGND => 0x0014,
            WindowMessage::WM_SYSCOLORCHANGE => 0x0015,
            WindowMessage::WM_SHOWWINDOW => 0x0018,
            WindowMessage::WM_WININICHANGE => 0x001A,
            WindowMessage::WM_SETCURSOR => 0x0020,
            WindowMessage::WM_MOUSEACTIVATE => 0x0021,
            WindowMessage::WM_CHILDACTIVATE => 0x0022,
            WindowMessage::WM_QUEUESYNC => 0x0023,
            WindowMessage::WM_GETMINMAXINFO => 0x0024,
            WindowMessage::WM_PAINTICON => 0x0026,
            WindowMessage::WM_ICONERASEBKGND => 0x0027,
            WindowMessage::WM_SPOOLER_STATUS => 0x002A,
            WindowMessage::WM_DRAWITEM => 0x002B,
            WindowMessage::WM_MEASUREITEM => 0x002C,
            WindowMessage::WM_DELETEITEM => 0x002D,
            WindowMessage::WM_VKEYTOITEM => 0x002E,
            WindowMessage::WM_CHARTOITEM => 0x002F,
            WindowMessage::WM_SETFONT => 0x0030,
            WindowMessage::WM_GETFONT => 0x0031,
            WindowMessage::WM_SETHOTKEY => 0x0032,
            WindowMessage::WM_GETHOTKEY => 0x0033,
            WindowMessage::WM_QUERYDRAGICON => 0x0037,
            WindowMessage::WM_COMPAREITEM => 0x0039,
            WindowMessage::WM_GETOBJECT => 0x003D,
            WindowMessage::WM_COMPACTING => 0x0041,
            WindowMessage::WM_WINDOWPOSCHANGING => 0x0046,
            WindowMessage::WM_WINDOWPOSCHANGED => 0x0047,
            WindowMessage::WM_COPYDATA => 0x004A,
            WindowMessage::WM_CANCELJOURNAL => 0x004B,
            WindowMessage::WM_CANCELMODE => 0x001F,
            WindowMessage::WM_NOTIFY => 0x004E,
            WindowMessage::WM_INPUTLANGCHANGEREQUEST => 0x0050,
            WindowMessage::WM_INPUTLANGCHANGE => 0x0051,
            WindowMessage::WM_TCARD => 0x0052,
            WindowMessage::WM_HELP => 0x0053,
            WindowMessage::WM_USERCHANGED => 0x0054,
            WindowMessage::WM_NOTIFYFORMAT => 0x0055,
            WindowMessage::WM_CONTEXTMENU => 0x007B,
            WindowMessage::WM_STYLECHANGING => 0x007C,
            WindowMessage::WM_STYLECHANGED => 0x007D,
            WindowMessage::WM_DISPLAYCHANGE => 0x007E,
            WindowMessage::WM_GETICON => 0x007F,
            WindowMessage::WM_SETICON => 0x0080,
            WindowMessage::WM_NCCREATE => 0x0081,
            WindowMessage::WM_NCDESTROY => 0x0082,
            WindowMessage::WM_NCCALCSIZE => 0x0083,
            WindowMessage::WM_NCHITTEST => 0x0084,
            WindowMessage::WM_NCPAINT => 0x0085,
            WindowMessage::WM_NCACTIVATE => 0x0086,
            WindowMessage::WM_GETDLGCODE => 0x0087,
            WindowMessage::WM_SYNCPAINT => 0x0088,
            WindowMessage::WM_NCMOUSEMOVE => 0x00A0,
            WindowMessage::WM_NCLBUTTONDOWN => 0x00A1,
            WindowMessage::WM_NCLBUTTONUP => 0x00A2,
            WindowMessage::WM_NCLBUTTONDBLCLK => 0x00A3,
            WindowMessage::WM_NCRBUTTONDOWN => 0x00A4,
            WindowMessage::WM_NCRBUTTONUP => 0x00A5,
            WindowMessage::WM_NCRBUTTONDBLCLK => 0x00A6,
            WindowMessage::WM_NCMBUTTONDOWN => 0x00A7,
            WindowMessage::WM_NCMBUTTONUP => 0x00A8,
            WindowMessage::WM_NCMBUTTONDBLCLK => 0x00A9,
            WindowMessage::WM_KEYDOWN => 0x0100,
            WindowMessage::WM_KEYUP => 0x0101,
            WindowMessage::WM_CHAR => 0x0102,
            WindowMessage::WM_DEADCHAR => 0x0103,
            WindowMessage::WM_SYSKEYDOWN => 0x0104,
            WindowMessage::WM_SYSKEYUP => 0x0105,
            WindowMessage::WM_SYSCHAR => 0x0106,
            WindowMessage::WM_SYSDEADCHAR => 0x0107,
            WindowMessage::WM_KEYLAST => 0x0108,
            WindowMessage::WM_INITDIALOG => 0x0110,
            WindowMessage::WM_COMMAND => 0x0111,
            WindowMessage::WM_SYSCOMMAND => 0x0112,
            WindowMessage::WM_TIMER => 0x0113,
            WindowMessage::WM_HSCROLL => 0x0114,
            WindowMessage::WM_VSCROLL => 0x0115,
            WindowMessage::WM_INITMENU => 0x0116,
            WindowMessage::WM_INITMENUPOPUP => 0x0117,
            WindowMessage::WM_MENUSELECT => 0x011F,
            WindowMessage::WM_MENUCHAR => 0x0120,
            WindowMessage::WM_ENTERIDLE => 0x0121,
            WindowMessage::WM_MENURBUTTONUP => 0x0122,
            WindowMessage::WM_MENUDRAG => 0x0123,
            WindowMessage::WM_MENUGETOBJECT => 0x0124,
            WindowMessage::WM_UNINITMENUPOPUP => 0x0125,
            WindowMessage::WM_MENUCOMMAND => 0x0126,
            WindowMessage::WM_CHANGEUISTATE => 0x0127,
            WindowMessage::WM_UPDATEUISTATE => 0x0128,
            WindowMessage::WM_QUERYUISTATE => 0x0129,
            WindowMessage::WM_CTLCOLORMSGBOX => 0x0132,
            WindowMessage::WM_CTLCOLOREDIT => 0x0133,
            WindowMessage::WM_CTLCOLORLISTBOX => 0x0134,
            WindowMessage::WM_CTLCOLORBTN => 0x0135,
            WindowMessage::WM_CTLCOLORDLG => 0x0136,
            WindowMessage::WM_CTLCOLORSCROLLBAR => 0x0137,
            WindowMessage::WM_CTLCOLORSTATIC => 0x0138,
            WindowMessage::WM_MOUSEMOVE => 0x0200,
            WindowMessage::WM_LBUTTONDOWN => 0x0201,
            WindowMessage::WM_LBUTTONUP => 0x0202,
            WindowMessage::WM_LBUTTONDBLCLK => 0x0203,
            WindowMessage::WM_RBUTTONDOWN => 0x0204,
            WindowMessage::WM_RBUTTONUP => 0x0205,
            WindowMessage::WM_RBUTTONDBLCLK => 0x0206,
            WindowMessage::WM_MBUTTONDOWN => 0x0207,
            WindowMessage::WM_MBUTTONUP => 0x0208,
            WindowMessage::WM_MBUTTONDBLCLK => 0x0209,
            WindowMessage::WM_MOUSEWHEEL => 0x020A,
            WindowMessage::WM_XBUTTONDOWN => 0x020B,
            WindowMessage::WM_XBUTTONUP => 0x020C,
            WindowMessage::WM_XBUTTONDBLCLK => 0x020D,
            WindowMessage::WM_MOUSEHOVER => 0x02A1,
            WindowMessage::WM_MOUSELEAVE => 0x02A3,
            WindowMessage::WM_MOUSEHWHEEL => 0x020E,
        }
    }

    /// The message's number.
    pub fn value(&self) -> (r: u32)
        ensures
            r == self.code(),
    {
        match self {
            WindowMessage::WM_CREATE => 0x0001,
            WindowMessage::WM_DESTROY => 0x0002,
            WindowMessage::WM_MOVE => 0x0003,
            WindowMessage::WM_SIZE => 0x0005,
            WindowMessage::WM_ACTIVATE => 0x0006,
            WindowMessage::WM_SETFOCUS => 0x0007,
            WindowMessage::WM_KILLFOCUS => 0x0008,
            WindowMessage::WM_ENABLE => 0x000A,
            WindowMessage::WM_SETREDRAW => 0x000B,
            WindowMessage::WM_SETTEXT => 0x000C,
            WindowMessage::WM_GETTEXT => 0x000D,
            WindowMessage::WM_GETTEXTLENGTH => 0x000E,
            WindowMessage::WM_PAINT => 0x000F,
            WindowMessage::WM_CLOSE => 0x0010,
            WindowMessage::WM_QUERYENDSESSION => 0x0011,
            WindowMessage::WM_QUIT => 0x0012,
            WindowMessage::WM_QUERYOPEN => 0x0013,
            WindowMessage::WM_ERASEBKGND => 0x0014,
            WindowMessage::WM_SYSCOLORCHANGE => 0x0015,
            WindowMessage::WM_SHOWWINDOW => 0x0018,
            WindowMessage::WM_WININICHANGE => 0x001A,
            WindowMessage::WM_SETCURSOR => 0x0020,
            WindowMessage::WM_MOUSEACTIVATE => 0x0021,
            WindowMessage::WM_CHILDACTIVATE => 0x0022,
            WindowMessage::WM_QUEUESYNC => 0x0023,
            WindowMessage::WM_GETMINMAXINFO => 0x0024,
            WindowMessage::WM_PAINTICON => 0x0026,
            WindowMessage::WM_ICONERASEBKGND => 0x0027,
            WindowMessage::WM_SPOOLER_STATUS => 0x002A,
            WindowMessage::WM_DRAWITEM => 0x002B,
            WindowMessage::WM_MEASUREITEM => 0x002C,
            WindowMessage::WM_DELETEITEM => 0x002D,
            WindowMessage::WM_VKEYTOITEM => 0x002E,
            WindowMessage::WM_CHARTOITEM => 0x002F,
            WindowMessage::WM_SETFONT => 0x0030,
            WindowMessage::WM_GETFONT => 0x0031,
            WindowMessage::WM_SETHOTKEY => 0x0032,
            WindowMessage::WM_GETHOTKEY => 0x0033,
            WindowMessage::WM_QUERYDRAGICON => 0x0037,
            WindowMessage::WM_COMPAREITEM => 0x0039,
            WindowMessage::WM_GETOBJECT => 0x003D,
            WindowMessage::WM_COMPACTING => 0x0041,
            WindowMessage::WM_WINDOWPOSCHANGING => 0x0046,
            WindowMessage::WM_WINDOWPOSCHANGED => 0x0047,
            WindowMessage::WM_COPYDATA => 0x004A,
            WindowMessage::WM_CANCELJOURNAL => 0x004B,
            WindowMessage::WM_CANCELMODE => 0x001F,
            WindowMessage::WM_NOTIFY => 0x004E,
            WindowMessage::WM_INPUTLANGCHANGEREQUEST => 0x0050,
            WindowMessage::WM_INPUTLANGCHANGE => 0x0051,
            WindowMessage::WM_TCARD => 0x0052,
            WindowMessage::WM_HELP => 0x0053,
            WindowMessage::WM_USERCHANGED => 0x0054,
            WindowMessage::WM_NOTIFYFORMAT => 0x0055,
            WindowMessage::WM_CONTEXTMENU => 0x007B,
            WindowMessage::WM_STYLECHANGING => 0x007C,
            WindowMessage::WM_STYLECHANGED => 0x007D,
            WindowMessage::WM_DISPLAYCHANGE => 0x007E,
            WindowMessage::WM_GETICON => 0x007F,
            WindowMessage::WM_SETICON => 0x0080,
            WindowMessage::WM_NCCREATE => 0x0081,
            WindowMessage::WM_NCDESTROY => 0x0082,
            WindowMessage::WM_NCCALCSIZE => 0x0083,
            WindowMessage::WM_NCHITTEST => 0x0084,
            WindowMessage::WM_NCPAINT => 0x0085,
            WindowMessage::WM_NCACTIVATE => 0x0086,
            WindowMessage::WM_GETDLGCODE => 0x0087,
            WindowMessage::WM_SYNCPAINT => 0x0088,
            WindowMessage::WM_NCMOUSEMOVE => 0x00A0,
            WindowMessage::WM_NCLBUTTONDOWN => 0x00A1,
            WindowMessage::WM_NCLBUTTONUP => 0x00A2,
            WindowMessage::WM_NCLBUTTONDBLCLK => 0x00A3,
            WindowMessage::WM_NCRBUTTONDOWN => 0x00A4,
            WindowMessage::WM_NCRBUTTONUP => 0x00A5,
            WindowMessage::WM_NCRBUTTONDBLCLK => 0x00A6,
            WindowMessage::WM_NCMBUTTONDOWN => 0x00A7,
            WindowMessage::WM_NCMBUTTONUP => 0x00A8,
            WindowMessage::WM_NCMBUTTONDBLCLK => 0x00A9,
            WindowMessage::WM_KEYDOWN => 0x0100,
            WindowMessage::WM_KEYUP => 0x0101,
            WindowMessage::WM_CHAR => 0x0102,
            WindowMessage::WM_DEADCHAR => 0x0103,
            WindowMessage::WM_SYSKEYDOWN => 0x0104,
            WindowMessage::WM_SYSKEYUP => 0x0105,
            WindowMessage::WM_SYSCHAR => 0x0106,
            WindowMessage::WM_SYSDEADCHAR => 0x0107,
            WindowMessage::WM_KEYLAST => 0x0108,
            WindowMessage::WM_INITDIALOG => 0x0110,
            WindowMessage::WM_COMMAND => 0x0111,
            WindowMessage::WM_SYSCOMMAND => 0x0112,
            WindowMessage::WM_TIMER => 0x0113,
            WindowMessage::WM_HSCROLL => 0x0114,
            WindowMessage::WM_VSCROLL => 0x0115,
            WindowMessage::WM_INITMENU => 0x0116,
            WindowMessage::WM_INITMENUPOPUP => 0x0117,
            WindowMessage::WM_MENUSELECT => 0x011F,
            WindowMessage::WM_MENUCHAR => 0x0120,
            WindowMessage::WM_ENTERIDLE => 0x0121,
            WindowMessage::WM_MENURBUTTONUP => 0x0122,
            WindowMessage::WM_MENUDRAG => 0x0123,
            WindowMessage::WM_MENUGETOBJECT => 0x0124,
            WindowMessage::WM_UNINITMENUPOPUP => 0x0125,
            WindowMessage::WM_MENUCOMMAND => 0x0126,
            WindowMessage::WM_CHANGEUISTATE => 0x0127,
            WindowMessage::WM_UPDATEUISTATE => 0x0128,
            WindowMessage::WM_QUERYUISTATE => 0x0129,
            WindowMessage::WM_CTLCOLORMSGBOX => 0x0132,
            WindowMessage::WM_CTLCOLOREDIT => 0x0133,
            WindowMessage::WM_CTLCOLORLISTBOX => 0x0134,
            WindowMessage::WM_CTLCOLORBTN => 0x0135,
            WindowMessage::WM_CTLCOLORDLG => 0x0136,
            WindowMessage::WM_CTLCOLORSCROLLBAR => 0x0137,
            WindowMessage::WM_CTLCOLORSTATIC => 0x0138,
            WindowMessage::WM_MOUSEMOVE => 0x0200,
            WindowMessage::WM_LBUTTONDOWN => 0x0201,
            WindowMessage::WM_LBUTTONUP => 0x0202,
            WindowMessage::WM_LBUTTONDBLCLK => 0x0203,
            WindowMessage::WM_RBUTTONDOWN => 0x0204,
            WindowMessage::WM_RBUTTONUP => 0x0205,
            WindowMessage::WM_RBUTTONDBLCLK => 0x0206,
            WindowMessage::WM_MBUTTONDOWN => 0x0207,
            WindowMessage::WM_MBUTTONUP => 0x0208,
            WindowMessage::WM_MBUTTONDBLCLK => 0x0209,
            WindowMessage::WM_MOUSEWHEEL => 0x020A,
            WindowMessage::WM_XBUTTONDOWN => 0x020B,
            WindowMessage::WM_XBUTTONUP => 0x020C,
            WindowMessage::WM_XBUTTONDBLCLK => 0x020D,
            WindowMessage::WM_MOUSEHOVER => 0x02A1,
            WindowMessage::WM_MOUSELEAVE => 0x02A3,
            WindowMessage::WM_MOUSEHWHEEL => 0x020E,
        }
    }
}

/// Window class.
#[derive(Debug, Clone, Copy)]
pub struct WindowClass {
    pub name: [u16; 64],
    pub instance: u64,
    pub style: u32,
    pub wndproc: u64,
    pub cls_extra: i32,
    pub wnd_extra: i32,
    pub h_icon: u64,
    pub h_cursor: u64,
    pub h_brbackground: u64,
    pub menu_name: u64,
}

/// Window object.
#[derive(Debug, Clone)]
pub struct WindowObject {
    pub hwnd: u64,
    pub class_name: [u16; 64],
    pub title: [u16; 256],
    pub style: u32,
    pub ex_style: u32,
    pub rect: Rect,
    pub client_rect: Rect,
    pub parent: Option<u64>,
    pub owner: Option<u64>,
    pub children: Vec<u64>,
    pub visible: bool,
    pub enabled: bool,
    pub foreground: bool,
    pub dirty: bool,
    pub dirty_rects: Vec<Rect>,
    pub wndproc: u64,
    pub user_data: u64,
}

/// The client rectangle of a window of `style` whose window rectangle is
/// `r`, relative to the window: the caption takes 20 pixels at the top and
/// a border 2 pixels on each side.
pub open spec fn client_of(style: u32, r: Rect) -> Rect {
    let caption: int = if style & 0x00C00000 != 0 { 20 } else { 0 };
    let border: int = if style & 0x00800000 != 0 { 2 } else { 0 };
    Rect {
        left: border as i32,
        top: (caption + border) as i32,
        right: (r.right - r.left - border) as i32,
        bottom: (r.bottom - r.top - border) as i32,
    }
}

/// The client rectangle of a window frames its window rectangle: with
/// neither a caption nor a border (style bits `0x00C00000` clear) it is the
/// whole window, `(0, 0, width, height)`; a border (`0x00800000`) takes 2
/// pixels from each side; a caption without a border takes 20 pixels from
/// the top only.
pub proof fn lemma_client_frame(style: u32, r: Rect)
    requires
        client_fits(style, r),
    ensures
        style & 0x00C00000 == 0 ==> client_of(style, r) == (Rect { left: 0, top: 0,
            right: (r.right - r.left) as i32, bottom: (r.bottom - r.top) as i32 }),
        style & 0x00800000 != 0 ==> client_of(style, r).left == 2 && client_of(style, r).top == 22
            && client_of(style, r).right == r.right - r.left - 2 && client_of(style, r).bottom == r.bottom - r.top - 2,
        style & 0x00C00000 != 0 && style & 0x00800000 == 0 ==> client_of(style, r) == (Rect { left: 0, top: 20,
            right: (r.right - r.left) as i32, bottom: (r.bottom - r.top) as i32 }),
{
    assert(style & 0x00C00000 == 0 ==> style & 0x00800000 == 0) by (bit_vector);
    assert(style & 0x00800000 != 0 ==> style & 0x00C00000 != 0) by (bit_vector);
}

/// The client rectangle of `style` and `r` can be computed in 32 bits.
pub open spec fn client_fits(style: u32, r: Rect) -> bool {
    let border: int = if style & 0x00800000 != 0 { 2 } else { 0 };
    &&& i32::MIN <= r.right - r.left <= i32::MAX
    &&& i32::MIN <= r.bottom - r.top <= i32::MAX
    &&& i32::MIN <= r.right - r.left - border
    &&& i32::MIN <= r.bottom - r.top - border
}

/// The rectangle `set_rect(x, y, width, height)` gives a window.
pub open spec fn rect_at(x: i32, y: i32, width: i32, height: i32) -> Rect {
    Rect { left: x, top: y, right: (x + width) as i32, bottom: (y + height) as i32 }
}

/// `set_rect(x, y, width, height)` can be computed for a window of `style`.
pub open spec fn rect_fits(style: u32, x: i32, y: i32, width: i32, height: i32) -> bool {
    &&& i32::MIN <= x + width <= i32::MAX
    &&& i32::MIN <= y + height <= i32::MAX
    &&& client_fits(style, rect_at(x, y, width, height))
}

/// `w` is a fresh window with handle `hwnd`: blank names, no style, empty
/// rectangles, no parent, owner or children, hidden, enabled, clean.
pub open spec fn blank_window(w: WindowObject, hwnd: u64) -> bool {
    &&& w.hwnd == hwnd
    &&& w.class_name@ == Seq::new(64, |i: int| 0u16)
    &&& w.title@ == Seq::new(256, |i: int| 0u16)
    &&& w.style == 0 && w.ex_style == 0
    &&& w.rect == Rect { left: 0, top: 0, right: 0, bottom: 0 }
    &&& w.client_rect == Rect { left: 0, top: 0, right: 0, bottom: 0 }
    &&& w.parent is None && w.owner is None
    &&& w.children@.len() == 0
    &&& !w.visible && w.enabled && !w.foreground && !w.dirty
    &&& w.dirty_rects@.len() == 0
    &&& w.wndproc == 0 && w.user_data == 0
}

impl WindowObject {
    /// A fresh window with handle `hwnd`.
    pub fn new(hwnd: u64) -> (r: Self)
        ensures
            blank_window(r, hwnd),
    {
        let r = WindowObject {
            hwnd,
            class_name: [0u16; 64],
            title: [0u16; 256],
            style: 0,
            ex_style: 0,
            rect: Rect { left: 0, top: 0, right: 0, bottom: 0 },
            client_rect: Rect { left: 0, top: 0, right: 0, bottom: 0 },
            parent: None,
            owner: None,
            children: Vec::new(),
            visible: false,
            enabled: true,
            foreground: false,
            dirty: false,
            dirty_rects: Vec::new(),
            wndproc: 0,
            user_data: 0,
        };
        assert(r.class_name@ =~= Seq::new(64, |i: int| 0u16));
        assert(r.title@ =~= Seq::new(256, |i: int| 0u16));
        r
    }

    /// Place the window at `(x, y)` with size `width` x `height`, mark it
    /// dirty and recompute its client rectangle.
    pub fn set_rect(&mut self, x: i32, y: i32, width: i32, height: i32)
        requires
            rect_fits(old(self).style, x, y, width, height),
        ensures
            *final(self) == (WindowObject {
                rect: rect_at(x, y, width, height),
                client_rect: client_of(old(self).style, rect_at(x, y, width, height)),
                dirty: true,
                ..*old(self)
            }),
    {
        self.rect.left = x;
        self.rect.top = y;
        self.rect.right = x + width;
        self.rect.bottom = y + height;
        self.dirty = true;
        self.update_client_rect();
    }

    /// Recompute the client rectangle from the window rectangle and style.
    pub fn update_client_rect(&mut self)
        requires
            client_fits(old(self).style, old(self).rect),
        ensures
            *final(self) == (WindowObject { client_rect: client_of(old(self).style, old(self).rect), ..*old(self) }),
    {
        let caption_height: i32 = if self.style & 0x00C00000 != 0 { 20 } else { 0 };
        let border_width: i32 = if self.style & 0x00800000 != 0 { 2 } else { 0 };
        self.client_rect = Rect {
            left: border_width,
            top: caption_height + border_width,
            right: self.rect.width() - border_width,
            bottom: self.rect.height() - border_width,
        };
    }
}

// =============================================================================
// Window manager
// =============================================================================

/// Window manager state.
pub struct WindowManager {
    /// Window slots; a destroyed window leaves an empty slot.
    pub windows: Vec<Option<WindowObject>>,
    /// `(handle, slot)` pairs, searched from the front.
    pub hwnd_index: Vec<(u64, usize)>,
    pub next_hwnd: u64,
    pub window_count: usize,
    pub classes: Vec<Option<WindowClass>>,
    pub next_class_atom: u64,
    pub foreground_window: u64,
    pub active_window: u64,
    pub capture_window: u64,
    pub focus_window: u64,
    pub desktop_window: u64,
}

/// The position of the first index entry for `hwnd`.
pub open spec fn first_pos(idx: Seq<(u64, usize)>, hwnd: u64) -> Option<int> {
    if exists|i: int| 0 <= i < idx.len() && #[trigger] idx[i].0 == hwnd {
        Some(choose|i: int| 0 <= i < idx.len() && #[trigger] idx[i].0 == hwnd
            && forall|j: int| 0 <= j < i ==> idx[j].0 != hwnd)
    } else {
        None
    }
}

/// The slot the first index entry for `hwnd` names.
pub open spec fn slot_of(idx: Seq<(u64, usize)>, hwnd: u64) -> Option<usize> {
    match first_pos(idx, hwnd) {
        Some(i) => Some(idx[i].1),
        None => None,
    }
}

/// The first entry for `hwnd` is the one a scan from the front finds.
pub proof fn lemma_first_pos(idx: Seq<(u64, usize)>, hwnd: u64, i: int)
    requires
        0 <= i < idx.len(),
        idx[i].0 == hwnd,
        forall|j: int| 0 <= j < i ==> idx[j].0 != hwnd,
    ensures
        first_pos(idx, hwnd) == Some(i),
{
    let k = choose|k: int| 0 <= k < idx.len() && #[trigger] idx[k].0 == hwnd
        && forall|j: int| 0 <= j < k ==> idx[j].0 != hwnd;
    assert(idx[i].0 == hwnd);
    if k < i {
        assert(idx[k].0 != hwnd);
    }
    if k > i {
        assert(idx[i].0 != hwnd);
    }
}

/// The window's other fields equal those of `a`; only its children may
/// differ.
pub open spec fn same_but_children(a: WindowObject, b: WindowObject) -> bool {
    b == (WindowObject { children: b.children, ..a })
}

/// Every handle of `s1` occurs in `s2`.
pub open spec fn sub_handles(s1: Seq<u64>, s2: Seq<u64>) -> bool {
    forall|i: int| 0 <= i < s1.len() ==> s2.contains(#[trigger] s1[i])
}

/// `without(s, h)` keeps every handle of `s` other than `h`.
pub proof fn lemma_without_keeps(s: Seq<u64>, h: u64, v: u64)
    requires
        s.contains(v),
        v != h,
    ensures
        without(s, h).contains(v),
    decreases s.len(),
{
    let w = without(s, h);
    if s.last() == v {
        assert(w == without(s.drop_last(), h).push(v));
        assert(w[w.len() - 1] == v);
    } else {
        let k = choose|k: int| 0 <= k < s.len() && s[k] == v;
        assert(s.drop_last()[k] == v);
        lemma_without_keeps(s.drop_last(), h, v);
        let w0 = without(s.drop_last(), h);
        let j = choose|j: int| 0 <= j < w0.len() && w0[j] == v;
        if s.last() == h {
            assert(w == w0);
        } else {
            assert(w == w0.push(s.last()));
            assert(w[j] == v);
        }
    }
}

/// `without(s, h)` holds only handles of `s`, and not `h`.
pub proof fn lemma_without(s: Seq<u64>, h: u64)
    ensures
        sub_handles(without(s, h), s),
        !without(s, h).contains(h),
    decreases s.len(),
{
    if s.len() > 0 {
        lemma_without(s.drop_last(), h);
        let w = without(s, h);
        let w0 = without(s.drop_last(), h);
        assert forall|i: int| 0 <= i < w.len() implies s.contains(#[trigger] w[i]) by {
            if i < w0.len() {
                assert(w[i] == w0[i]);
                let k = choose|k: int| 0 <= k < s.drop_last().len() && s.drop_last()[k] == w0[i];
                assert(s[k] == w0[i]);
            } else {
                assert(w[i] == s.last());
                assert(s[s.len() - 1] == s.last());
            }
        }
        if w.contains(h) {
            let k = choose|k: int| 0 <= k < w.len() && w[k] == h;
            if k < w0.len() {
                assert(w0[k] == h);
            }
        }
    }
}

impl WindowManager {
    /// The window `hwnd` names: the one in the slot of the first index entry
    /// for it.
    pub open spec fn window_of(&self, hwnd: u64) -> Option<WindowObject> {
        match slot_of(self.hwnd_index@, hwnd) {
            Some(k) => if (k as int) < self.windows@.len() { self.windows@[k as int] } else { None },
            None => None,
        }
    }

    /// The handle names a window.
    pub open spec fn has_window(&self, hwnd: u64) -> bool {
        self.window_of(hwnd) is Some
    }

    /// Handles are unique, not 0 and below the next handle; each index
    /// entry names its own slot, which holds the window with that handle;
    /// a window's children have larger handles than it.
    pub open spec fn wf(&self) -> bool {
        &&& forall|i: int| 0 <= i < self.hwnd_index@.len() ==> {
            let e = #[trigger] self.hwnd_index@[i];
            &&& 0 < e.0 < self.next_hwnd
            &&& (e.1 as int) < self.windows@.len()
            &&& self.windows@[e.1 as int] matches Some(w) && w.hwnd == e.0
                && forall|j: int| 0 <= j < w.children@.len() ==> w.children@[j] > e.0
        }
        &&& forall|i: int, j: int| 0 <= i < j < self.hwnd_index@.len() ==>
            (#[trigger] self.hwnd_index@[i]).0 != (#[trigger] self.hwnd_index@[j]).0
            && self.hwnd_index@[i].1 != self.hwnd_index@[j].1
    }

    /// Every other field equals that of `other`; only the window slots may
    /// differ.
    pub open spec fn same_but_windows(&self, other: &WindowManager) -> bool {
        &&& self.hwnd_index@ == other.hwnd_index@
        &&& self.next_hwnd == other.next_hwnd && self.window_count == other.window_count
        &&& self.classes@ == other.classes@ && self.next_class_atom == other.next_class_atom
        &&& self.foreground_window == other.foreground_window && self.active_window == other.active_window
        &&& self.capture_window == other.capture_window && self.focus_window == other.focus_window
        &&& self.desktop_window == other.desktop_window
    }

    /// Every field but the window slots and the index is that of `other`.
    pub open spec fn same_scalars(&self, other: &WindowManager) -> bool {
        &&& self.next_hwnd == other.next_hwnd
        &&& self.classes@ == other.classes@ && self.next_class_atom == other.next_class_atom
        &&& self.foreground_window == other.foreground_window && self.active_window == other.active_window
        &&& self.capture_window == other.capture_window && self.focus_window == other.focus_window
        &&& self.desktop_window == other.desktop_window
    }
}

/// In a well-formed manager, index entry `i` decides what its handle names.
pub proof fn lemma_wf_at(wm: &WindowManager, i: int)
    requires
        wm.wf(),
        0 <= i < wm.hwnd_index@.len(),
    ensures
        first_pos(wm.hwnd_index@, wm.hwnd_index@[i].0) == Some(i),
        slot_of(wm.hwnd_index@, wm.hwnd_index@[i].0) == Some(wm.hwnd_index@[i].1),
        wm.window_of(wm.hwnd_index@[i].0) == wm.windows@[wm.hwnd_index@[i].1 as int],
        wm.window_of(wm.hwnd_index@[i].0) is Some,
{
    let idx = wm.hwnd_index@;
    assert forall|j: int| 0 <= j < i implies idx[j].0 != idx[i].0 by {
        assert(idx[j].0 != idx[i].0);
    }
    lemma_first_pos(idx, idx[i].0, i);
    assert(idx[i] == idx[i]);
}

/// In a well-formed manager, a handle without an index entry names nothing,
/// and a handle that names a window has an index entry.
pub proof fn lemma_wf_names(wm: &WindowManager, h: u64)
    requires
        wm.wf(),
    ensures
        wm.has_window(h) <==> exists|i: int| 0 <= i < wm.hwnd_index@.len() && #[trigger] wm.hwnd_index@[i].0 == h,
{
    if exists|i: int| 0 <= i < wm.hwnd_index@.len() && #[trigger] wm.hwnd_index@[i].0 == h {
        let i = choose|i: int| 0 <= i < wm.hwnd_index@.len() && #[trigger] wm.hwnd_index@[i].0 == h;
        lemma_wf_at(wm, i);
    }
}

impl WindowManager {
    /// An empty manager: no windows or classes, handles and class atoms
    /// counted from 1, no foreground, active, capture, focus or desktop
    /// window.
    pub fn new() -> (r: Self)
        ensures
            r.wf(),
            r.windows@.len() == 0 && r.hwnd_index@.len() == 0 && r.classes@.len() == 0,
            r.next_hwnd == 1 && r.window_count == 0 && r.next_class_atom == 1,
            r.foreground_window == 0 && r.active_window == 0 && r.capture_window == 0,
            r.focus_window == 0 && r.desktop_window == 0,
    {
        WindowManager {
            windows: Vec::new(),
            hwnd_index: Vec::new(),
            next_hwnd: 1,
            window_count: 0,
            classes: Vec::new(),
            next_class_atom: 1,
            foreground_window: 0,
            active_window: 0,
            capture_window: 0,
            focus_window: 0,
            desktop_window: 0,
        }
    }

    /// The next handle, or `None` when the counter has wrapped to 0; the
    /// counter moves on either way.
    fn alloc_hwnd(&mut self) -> (r: Option<u64>)
        ensures
            r == (if old(self).next_hwnd == 0 { None } else { Some(old(self).next_hwnd) }),
            final(self).next_hwnd == old(self).next_hwnd.wrapping_add(1),
            final(self).windows@ == old(self).windows@,
            final(self).hwnd_index@ == old(self).hwnd_index@,
            final(self).window_count == old(self).window_count,
            final(self).classes@ == old(self).classes@ && final(self).next_class_atom == old(self).next_class_atom,
            final(self).foreground_window == old(self).foreground_window,
            final(self).active_window == old(self).active_window,
            final(self).capture_window == old(self).capture_window,
            final(self).focus_window == old(self).focus_window,
            final(self).desktop_window == old(self).desktop_window,
    {
        let hwnd = self.next_hwnd;
        self.next_hwnd = self.next_hwnd.wrapping_add(1);
        if hwnd == 0 {
            None
        } else {
            Some(hwnd)
        }
    }

    /// Position of the first index entry for `hwnd`.
    fn find_pos(&self, hwnd: u64) -> (r: Option<usize>)
        ensures
            match r {
                Some(i) => first_pos(self.hwnd_index@, hwnd) == Some(i as int) && i < self.hwnd_index@.len()
                    && self.hwnd_index@[i as int].0 == hwnd,
                None => first_pos(self.hwnd_index@, hwnd) is None,
            },
    {
        let mut i: usize = 0;
        while i < self.hwnd_index.len()
            invariant
                i <= self.hwnd_index@.len(),
                forall|j: int| 0 <= j < i ==> self.hwnd_index@[j].0 != hwnd,
            decreases self.hwnd_index@.len() - i,
        {
            if self.hwnd_index[i].0 == hwnd {
                proof {
                    lemma_first_pos(self.hwnd_index@, hwnd, i as int);
                }
                return Some(i);
            }
            i = i + 1;
        }
        None
    }

    /// Slot of the first index entry for `hwnd`.
    fn find_slot(&self, hwnd: u64) -> (r: Option<usize>)
        ensures
            r == slot_of(self.hwnd_index@, hwnd),
    {
        match self.find_pos(hwnd) {
            Some(i) => Some(self.hwnd_index[i].1),
            None => None,
        }
    }

    /// The window `hwnd` names.
    pub fn get_window(&self, hwnd: u64) -> (r: Option<&WindowObject>)
        ensures
            match r {
                Some(w) => self.window_of(hwnd) == Some(*w),
                None => self.window_of(hwnd) is None,
            },
    {
        match self.find_slot(hwnd) {
            Some(k) => {
                if k < self.windows.len() {
                    match &self.windows[k] {
                        Some(w) => Some(w),
                        None => None,
                    }
                } else {
                    None
                }
            },
            None => None,
        }
    }

    /// The window `hwnd` names, for changing it in place.
    pub fn get_window_mut(&mut self, hwnd: u64) -> (r: Option<&mut WindowObject>)
        ensures
            match r {
                Some(w) => {
                    &&& old(self).window_of(hwnd) == Some(*w)
                    &&& slot_of(old(self).hwnd_index@, hwnd) is Some
                    &&& final(self).windows@ == old(self).windows@.update(
                        slot_of(old(self).hwnd_index@, hwnd).unwrap() as int, Some(*final(w)))
                    &&& final(self).same_but_windows(old(self))
                },
                None => old(self).window_of(hwnd) is None && final(self).windows@ == old(self).windows@
                    && final(self).same_but_windows(old(self)),
            },
    {
        match self.find_slot(hwnd) {
            Some(k) => {
                if k < self.windows.len() {
                    self.windows[k].as_mut()
                } else {
                    None
                }
            },
            None => None,
        }
    }
}


/// The name buffer of capacity `cap` holding the first `n` units of `s`,
/// padded with zeros.
pub open spec fn name_buf(s: Seq<u16>, n: int, cap: nat) -> Seq<u16> {
    Seq::new(cap, |i: int| if i < n && i < s.len() { s[i] } else { 0u16 })
}

/// `w` is the window `create_window` makes with handle `hwnd`.
pub open spec fn created_window(w: WindowObject, hwnd: u64, class_name: Seq<u16>, title: Seq<u16>, style: u32,
    ex_style: u32, x: i32, y: i32, width: i32, height: i32, parent: Option<u64>, wndproc: u64) -> bool {
    &&& w.hwnd == hwnd
    &&& w.class_name@ == name_buf(class_name, 63, 64)
    &&& w.title@ == name_buf(title, 255, 256)
    &&& w.style == style && w.ex_style == ex_style
    &&& w.rect == rect_at(x, y, width, height)
    &&& w.client_rect == client_of(style, rect_at(x, y, width, height))
    &&& w.parent == parent && w.owner is None
    &&& w.children@.len() == 0
    &&& w.visible == (style & 0x10000000 != 0) && w.enabled == (style & 0x08000000 == 0)
    &&& !w.foreground && w.dirty && w.dirty_rects@.len() == 0
    &&& w.wndproc == wndproc && w.user_data == 0
}

/// The slot of the window `parent` names, when it names one.
pub open spec fn parent_slot(wm: &WindowManager, parent: Option<u64>) -> Option<int> {
    match parent {
        Some(p) => match slot_of(wm.hwnd_index@, p) {
            Some(k) => if (k as int) < wm.windows@.len() && wm.windows@[k as int] is Some { Some(k as int) } else { None },
            None => None,
        },
        None => None,
    }
}

/// `b` is window `a` with `c` appended to its children.
pub open spec fn child_pushed(a: Option<WindowObject>, b: Option<WindowObject>, c: u64) -> bool {
    a matches Some(x) && b matches Some(y) && same_but_children(x, y) && y.children@ == x.children@.push(c)
}

/// Copy the first `n` units of `src` into a zeroed buffer of `N` units.
fn copy_name<const N: usize>(src: &[u16], n: usize) -> (r: [u16; N])
    requires
        n <= N,
    ensures
        r@ == name_buf(src@, n as int, N as nat),
{
    let m: usize = if src.len() < n { src.len() } else { n };
    let mut buf = [0u16; N];
    let mut i: usize = 0;
    while i < m
        invariant
            i <= m,
            m <= n <= N,
            m <= src@.len(),
            m == (if src@.len() < n { src@.len() as int } else { n as int }),
            buf@.len() == N,
            forall|j: int| 0 <= j < N ==> #[trigger] buf@[j] == if j < i { src@[j] } else { 0u16 },
        decreases m - i,
    {
        buf[i] = src[i];
        i = i + 1;
    }
    assert(buf@ =~= name_buf(src@, n as int, N as nat));
    buf
}

/// What `create_window` does: `b` and `r` are what it makes of manager
/// `a` (see [`WindowManager::create_window`]).
pub open spec fn window_created(a: &WindowManager, b: &WindowManager, class_name: Seq<u16>, title: Seq<u16>, style: u32,
    ex_style: u32, x: i32, y: i32, width: i32, height: i32, parent: Option<u64>, wndproc: u64, r: Option<u64>) -> bool {
    &&& b.next_hwnd == a.next_hwnd.wrapping_add(1)
    &&& b.same_scalars(&WindowManager { next_hwnd: b.next_hwnd, ..*a })
    &&& a.next_hwnd == 0 ==> r is None && b.windows@ == a.windows@
        && b.hwnd_index@ == a.hwnd_index@ && b.window_count == a.window_count
    &&& a.next_hwnd != 0 ==> {
        let hwnd = a.next_hwnd;
        let k = a.windows@.len();
        let ps = parent_slot(a, parent);
        &&& r == Some(hwnd)
        &&& b.window_count == a.window_count.wrapping_add(1)
        &&& b.hwnd_index@ == a.hwnd_index@.push((hwnd, k as usize))
        &&& b.windows@.len() == k + 1
        &&& b.windows@[k as int] matches Some(w) && created_window(w, hwnd, class_name, title, style,
            ex_style, x, y, width, height, parent, wndproc)
        &&& forall|j: int| 0 <= j < k ==> if ps == Some(j) {
            child_pushed(a.windows@[j], #[trigger] b.windows@[j], hwnd)
        } else {
            b.windows@[j] == a.windows@[j]
        }
    }
    &&& a.wf() && a.next_hwnd < u64::MAX ==> b.wf()
}

impl WindowManager {
    /// Create a window: take the next handle (`None`, with the counter
    /// moved on, when it has wrapped to 0); build the window with the
    /// first 63 units of the class name and 255 of the title, its style,
    /// rectangle, parent and procedure, visible and enabled as the style
    /// says; append the handle to the parent's children when the parent
    /// names a window; put the window in a new slot at the end and index
    /// it.
    pub fn create_window(
        &mut self,
        class_name: &[u16],
        title: &[u16],
        style: u32,
        ex_style: u32,
        x: i32,
        y: i32,
        width: i32,
        height: i32,
        parent: Option<u64>,
        wndproc: u64,
    ) -> (r: Option<u64>)
        requires
            rect_fits(style, x, y, width, height),
        ensures
            window_created(old(self), final(self), class_name@, title@, style, ex_style, x, y, width, height, parent, wndproc, r),
    {
        let hwnd = match self.alloc_hwnd() {
            Some(h) => h,
            None => {
                return None;
            },
        };
        let ghost s1 = *self;
        let mut window = WindowObject::new(hwnd);
        window.class_name = copy_name::<64>(class_name, 63);
        window.title = copy_name::<256>(title, 255);
        window.style = style;
        window.ex_style = ex_style;
        window.set_rect(x, y, width, height);
        window.parent = parent;
        window.wndproc = wndproc;
        window.visible = style & 0x10000000 != 0;
        window.enabled = style & 0x08000000 == 0;
        match parent {
            Some(p) => {
                match self.get_window_mut(p) {
                    Some(pw) => {
                        pw.children.push(hwnd);
                    },
                    None => {},
                }
            },
            None => {},
        }
        let ghost s2 = *self;
        let index = self.windows.len();
        self.windows.push(Some(window));
        self.hwnd_index.push((hwnd, index));
        self.window_count = self.window_count.wrapping_add(1);
        proof {
            let ps = parent_slot(old(self), parent);
            assert(s1.windows@ == old(self).windows@ && s1.hwnd_index@ == old(self).hwnd_index@);
            assert forall|j: int| 0 <= j < index implies if ps == Some(j) {
                child_pushed(old(self).windows@[j], #[trigger] self.windows@[j], hwnd)
            } else {
                self.windows@[j] == old(self).windows@[j]
            } by {
                assert(self.windows@[j] == s2.windows@[j]);
            }
            if old(self).wf() && old(self).next_hwnd < u64::MAX {
                let idx0 = old(self).hwnd_index@;
                let idx = self.hwnd_index@;
                assert forall|i: int| 0 <= i < idx.len() implies {
                    let e = #[trigger] idx[i];
                    &&& 0 < e.0 < self.next_hwnd
                    &&& (e.1 as int) < self.windows@.len()
                    &&& self.windows@[e.1 as int] matches Some(w) && w.hwnd == e.0
                        && forall|j: int| 0 <= j < w.children@.len() ==> w.children@[j] > e.0
                } by {
                    if i < idx0.len() {
                        let e = idx0[i];
                        assert(idx[i] == e);
                        let kk = e.1 as int;
                        if ps == Some(kk) {
                            let w0 = old(self).windows@[kk].unwrap();
                            let w1 = self.windows@[kk].unwrap();
                            assert(w1.hwnd == w0.hwnd);
                            assert forall|j: int| 0 <= j < w1.children@.len() implies w1.children@[j] > e.0 by {
                                if j < w0.children@.len() {
                                    assert(w1.children@[j] == w0.children@[j]);
                                }
                            }
                        } else {
                            assert(self.windows@[kk] == old(self).windows@[kk]);
                        }
                    }
                }
                assert forall|i: int, j: int| 0 <= i < j < idx.len() implies
                    (#[trigger] idx[i]).0 != (#[trigger] idx[j]).0 && idx[i].1 != idx[j].1 by {
                    if j < idx0.len() {
                        assert(idx0[i].0 != idx0[j].0);
                    } else {
                        assert(idx[i] == idx0[i]);
                    }
                }
            }
        }
        Some(hwnd)
    }
}

/// Creating a window in a well-formed manager whose handle counter has
/// not run out, and then looking its handle up, finds the window created.
pub proof fn lemma_create_then_get(a: &WindowManager, b: &WindowManager, class_name: Seq<u16>, title: Seq<u16>,
    style: u32, ex_style: u32, x: i32, y: i32, width: i32, height: i32, parent: Option<u64>, wndproc: u64,
    r: Option<u64>)
    requires
        a.wf(),
        0 < a.next_hwnd < u64::MAX,
        a.windows@.len() < usize::MAX,
        window_created(a, b, class_name, title, style, ex_style, x, y, width, height, parent, wndproc, r),
    ensures
        r == Some(a.next_hwnd),
        b.window_of(a.next_hwnd) matches Some(w) && created_window(w, a.next_hwnd, class_name, title, style,
            ex_style, x, y, width, height, parent, wndproc),
{
    let hwnd = a.next_hwnd;
    let idx = b.hwnd_index@;
    let n = a.hwnd_index@.len() as int;
    assert forall|j: int| 0 <= j < n implies idx[j].0 != hwnd by {
        assert(idx[j] == a.hwnd_index@[j]);
    }
    lemma_first_pos(idx, hwnd, n);
}

/// A copy of `v`.
fn copy_handles(v: &Vec<u64>) -> (r: Vec<u64>)
    ensures
        r@ == v@,
{
    let mut out: Vec<u64> = Vec::new();
    let mut i: usize = 0;
    while i < v.len()
        invariant
            i <= v@.len(),
            out@ == v@.take(i as int),
        decreases v@.len() - i,
    {
        out.push(v[i]);
        i = i + 1;
        assert(out@ =~= v@.take(i as int));
    }
    assert(v@.take(v@.len() as int) =~= v@);
    out
}

/// Dropping index entry `pos` of a well-formed manager leaves every other
/// handle naming the same slot and window, names nothing for the dropped
/// handle, and keeps the manager well formed.
proof fn lemma_remove_entry(a: &WindowManager, b: &WindowManager, pos: int)
    requires
        a.wf(),
        0 <= pos < a.hwnd_index@.len(),
        b.hwnd_index@ == a.hwnd_index@.remove(pos),
        b.windows@ == a.windows@,
        b.next_hwnd == a.next_hwnd,
    ensures
        b.wf(),
        forall|h: u64| h != a.hwnd_index@[pos].0 ==> slot_of(b.hwnd_index@, h) == slot_of(a.hwnd_index@, h)
            && #[trigger] b.window_of(h) == a.window_of(h),
        slot_of(b.hwnd_index@, a.hwnd_index@[pos].0) is None,
{
    let ia = a.hwnd_index@;
    let ib = b.hwnd_index@;
    let hp = ia[pos].0;
    assert forall|i: int| 0 <= i < ib.len() implies #[trigger] ib[i] == if i < pos { ia[i] } else { ia[i + 1] } by {}
    assert forall|h: u64| h != hp implies slot_of(ib, h) == slot_of(ia, h) && #[trigger] b.window_of(h) == a.window_of(h) by {
        if exists|i: int| 0 <= i < ia.len() && #[trigger] ia[i].0 == h {
            let i = choose|i: int| 0 <= i < ia.len() && #[trigger] ia[i].0 == h;
            lemma_wf_at(a, i);
            let i2 = if i < pos { i } else { i - 1 };
            assert(i != pos);
            assert(ib[i2] == ia[i]);
            assert forall|j: int| 0 <= j < i2 implies ib[j].0 != h by {
                if j < pos {
                    assert(ib[j] == ia[j]);
                    assert(ia[j].0 != ia[i].0);
                } else {
                    assert(ib[j] == ia[j + 1]);
                    assert(ia[j + 1].0 != ia[i].0);
                }
            }
            lemma_first_pos(ib, h, i2);
        } else {
            assert forall|j: int| 0 <= j < ib.len() implies ib[j].0 != h by {
                if j < pos {
                    assert(ib[j] == ia[j]);
                } else {
                    assert(ib[j] == ia[j + 1]);
                }
            }
        }
    }
    assert forall|j: int| 0 <= j < ib.len() implies ib[j].0 != hp by {
        if j < pos {
            assert(ib[j] == ia[j]);
            assert(ia[j].0 != ia[pos].0);
        } else {
            assert(ib[j] == ia[j + 1]);
            assert(ia[pos].0 != ia[j + 1].0);
        }
    }
    assert forall|i: int, j: int| 0 <= i < j < ib.len() implies
        (#[trigger] ib[i]).0 != (#[trigger] ib[j]).0 && ib[i].1 != ib[j].1 by {
        let ii = if i < pos { i } else { i + 1 };
        let jj = if j < pos { j } else { j + 1 };
        assert(ib[i] == ia[ii] && ib[j] == ia[jj]);
        assert(ia[ii].0 != ia[jj].0 && ia[ii].1 != ia[jj].1);
    }
}

/// `wm` has a window `p` that lists `h` among its children.
pub open spec fn has_child(wm: &WindowManager, p: u64, h: u64) -> bool {
    wm.window_of(p) matches Some(w) && w.children@.contains(h)
}

/// Step `i` of `path` goes from a window to one of its listed children.
pub open spec fn path_step(wm: &WindowManager, path: Seq<u64>, i: int) -> bool {
    has_child(wm, path[i], path[i + 1])
}

/// `path` runs from window to listed child, step by step.
pub open spec fn is_path(wm: &WindowManager, path: Seq<u64>) -> bool {
    &&& path.len() >= 1
    &&& forall|i: int| 0 <= i < path.len() - 1 ==> #[trigger] path_step(wm, path, i)
}

/// `h` lies in the subtree of `root` in `wm`: a path leads from `root` to
/// `h` (so `root` itself is in it).
pub open spec fn in_subtree(wm: &WindowManager, root: u64, h: u64) -> bool {
    exists|path: Seq<u64>| #[trigger] is_path(wm, path) && path[0] == root && path.last() == h
}

/// The windows in the subtree of `root`.
pub open spec fn subtree_windows(wm: &WindowManager, root: u64) -> Set<u64> {
    Set::new(|h: u64| wm.has_window(h) && in_subtree(wm, root, h))
}

/// `h` lies in the subtree of one of the first `n` handles of `roots`.
pub open spec fn in_some_subtree(wm: &WindowManager, roots: Seq<u64>, n: int, h: u64) -> bool {
    exists|j: int| 0 <= j < n && #[trigger] in_subtree(wm, roots[j], h)
}

/// Every window `b` has, `a` has too, in the same slot and with the same
/// fields but for its children; those are among its children in `a`, and
/// only windows that `b` no longer has are missing from them.
pub open spec fn kept_children(a: &WindowManager, b: &WindowManager) -> bool {
    forall|h: u64| #[trigger] b.has_window(h) ==> {
        &&& a.has_window(h)
        &&& slot_of(b.hwnd_index@, h) == slot_of(a.hwnd_index@, h)
        &&& same_but_children(a.window_of(h).unwrap(), b.window_of(h).unwrap())
        &&& sub_handles(b.window_of(h).unwrap().children@, a.window_of(h).unwrap().children@)
        &&& forall|v: u64| #[trigger] a.window_of(h).unwrap().children@.contains(v)
            && !(a.has_window(v) && !b.has_window(v)) ==> b.window_of(h).unwrap().children@.contains(v)
    }
}

/// The windows of `a` that `b` no longer has take their child windows
/// with them.
pub open spec fn down_closed(a: &WindowManager, b: &WindowManager) -> bool {
    forall|x: u64, v: u64| #[trigger] has_child(a, x, v) && !b.has_window(x) && a.has_window(v) ==> !b.has_window(v)
}

/// `x` lowered by one `n` times, wrapping from 0 to the largest value as
/// `wrapping_sub` does.
pub open spec fn count_down(x: usize, n: nat) -> usize
    decreases n,
{
    if n == 0 {
        x
    } else {
        let y = count_down(x, (n - 1) as nat);
        if y == 0 { usize::MAX } else { (y - 1) as usize }
    }
}

proof fn lemma_count_down_add(x: usize, n1: nat, n2: nat)
    ensures
        count_down(count_down(x, n1), n2) == count_down(x, n1 + n2),
    decreases n2,
{
    if n2 > 0 {
        lemma_count_down_add(x, n1, (n2 - 1) as nat);
        assert((n1 + n2 - 1) as nat == n1 + (n2 - 1) as nat);
    }
}

/// A window's children have larger handles than it.
proof fn lemma_children_above(wm: &WindowManager, x: u64)
    requires
        wm.wf(),
        wm.has_window(x),
    ensures
        forall|j: int| 0 <= j < wm.window_of(x).unwrap().children@.len() ==> #[trigger] wm.window_of(x).unwrap().children@[j] > x,
{
    lemma_wf_names(wm, x);
    let i = choose|i: int| 0 <= i < wm.hwnd_index@.len() && #[trigger] wm.hwnd_index@[i].0 == x;
    lemma_wf_at(wm, i);
}

/// Along a path the handles grow.
proof fn lemma_path_grows(wm: &WindowManager, path: Seq<u64>)
    requires
        wm.wf(),
        is_path(wm, path),
    ensures
        path[0] <= path.last(),
        path.len() >= 2 ==> path[0] < path.last(),
    decreases path.len(),
{
    if path.len() >= 2 {
        let q = path.drop_last();
        assert(is_path(wm, q)) by {
            assert forall|i: int| 0 <= i < q.len() - 1 implies #[trigger] path_step(wm, q, i) by {
                assert(q[i] == path[i] && q[i + 1] == path[i + 1]);
                assert(path_step(wm, path, i));
            }
        }
        lemma_path_grows(wm, q);
        let n = path.len() - 2;
        assert(path_step(wm, path, n));
        lemma_children_above(wm, path[n]);
        let w = wm.window_of(path[n]).unwrap();
        let j = choose|j: int| 0 <= j < w.children@.len() && w.children@[j] == path[n + 1];
        assert(w.children@[j] > path[n]);
        assert(q.last() == path[n]);
    }
}

/// The subtree of `root` holds nothing below `root`, and only `root` at it.
proof fn lemma_subtree_ge(wm: &WindowManager, root: u64, h: u64)
    requires
        wm.wf(),
        in_subtree(wm, root, h),
    ensures
        root <= h,
        h != root ==> root < h,
{
    let path = choose|path: Seq<u64>| #[trigger] is_path(wm, path) && path[0] == root && path.last() == h;
    lemma_path_grows(wm, path);
}

/// A child of a window in the subtree lies in the subtree.
proof fn lemma_subtree_child(wm: &WindowManager, root: u64, x: u64, v: u64)
    requires
        in_subtree(wm, root, x),
        has_child(wm, x, v),
    ensures
        in_subtree(wm, root, v),
{
    let path = choose|path: Seq<u64>| #[trigger] is_path(wm, path) && path[0] == root && path.last() == x;
    let p2 = path.push(v);
    assert forall|i: int| 0 <= i < p2.len() - 1 implies #[trigger] path_step(wm, p2, i) by {
        if i < path.len() - 1 {
            assert(p2[i] == path[i] && p2[i + 1] == path[i + 1]);
            assert(path_step(wm, path, i));
        } else {
            assert(p2[i] == x && p2[i + 1] == v);
        }
    }
    assert(is_path(wm, p2) && p2[0] == root && p2.last() == v);
}

/// The root is in its own subtree.
proof fn lemma_subtree_root(wm: &WindowManager, root: u64)
    ensures
        in_subtree(wm, root, root),
{
    let p = seq![root];
    assert(is_path(wm, p) && p[0] == root && p.last() == root);
}

/// The subtree of a handle in the subtree of `r` lies in the subtree of `r`.
proof fn lemma_subtree_trans(wm: &WindowManager, r: u64, m: u64, h: u64)
    requires
        in_subtree(wm, r, m),
        in_subtree(wm, m, h),
    ensures
        in_subtree(wm, r, h),
{
    let p1 = choose|path: Seq<u64>| #[trigger] is_path(wm, path) && path[0] == r && path.last() == m;
    let p2 = choose|path: Seq<u64>| #[trigger] is_path(wm, path) && path[0] == m && path.last() == h;
    let p = p1 + p2.skip(1);
    let n = p1.len();
    assert forall|i: int| 0 <= i < p.len() - 1 implies #[trigger] path_step(wm, p, i) by {
        if i < n - 1 {
            assert(p[i] == p1[i] && p[i + 1] == p1[i + 1]);
            assert(path_step(wm, p1, i));
        } else if i == n - 1 {
            assert(p[i] == p1[n - 1] && p[i] == p2[0]);
            assert(p[i + 1] == p2[1]);
            assert(path_step(wm, p2, 0));
        } else {
            let k = i - n + 1;
            assert(p[i] == p2[k] && p[i + 1] == p2[k + 1]);
            assert(path_step(wm, p2, k));
        }
    }
    if p2.len() == 1 {
        assert(p =~= p1);
    }
    assert(is_path(wm, p) && p[0] == r && p.last() == h);
}

/// A handle that names no window has only itself in its subtree.
proof fn lemma_subtree_of_nothing(wm: &WindowManager, c: u64, h: u64)
    requires
        !wm.has_window(c),
        in_subtree(wm, c, h),
    ensures
        h == c,
{
    let path = choose|path: Seq<u64>| #[trigger] is_path(wm, path) && path[0] == c && path.last() == h;
    if path.len() >= 2 {
        assert(path_step(wm, path, 0));
    }
}

/// Apart from the root, the subtree of a window is the union of the
/// subtrees of its children.
proof fn lemma_subtree_split(wm: &WindowManager, root: u64, h: u64)
    requires
        wm.has_window(root),
        h != root,
    ensures
        in_subtree(wm, root, h) == in_some_subtree(wm, wm.window_of(root).unwrap().children@,
            wm.window_of(root).unwrap().children@.len() as int, h),
{
    let kids = wm.window_of(root).unwrap().children@;
    if in_subtree(wm, root, h) {
        let path = choose|path: Seq<u64>| #[trigger] is_path(wm, path) && path[0] == root && path.last() == h;
        assert(path.len() >= 2);
        assert(path_step(wm, path, 0));
        let j = choose|j: int| 0 <= j < kids.len() && kids[j] == path[1];
        let q = path.skip(1);
        assert forall|i: int| 0 <= i < q.len() - 1 implies #[trigger] path_step(wm, q, i) by {
            assert(q[i] == path[i + 1] && q[i + 1] == path[i + 2]);
            assert(path_step(wm, path, i + 1));
        }
        assert(is_path(wm, q) && q[0] == kids[j] && q.last() == h);
        assert(in_subtree(wm, kids[j], h));
    }
    if in_some_subtree(wm, kids, kids.len() as int, h) {
        let j = choose|j: int| 0 <= j < kids.len() && #[trigger] in_subtree(wm, kids[j], h);
        lemma_subtree_root(wm, root);
        assert(kids.contains(kids[j]));
        lemma_subtree_child(wm, root, root, kids[j]);
        lemma_subtree_trans(wm, root, kids[j], h);
    }
}

/// Along a path in `a`, once a window of `a` is gone from `s` the rest of
/// the path is gone too.
#[verifier::rlimit(100)]
#[verifier::spinoff_prover]
proof fn lemma_path_gone(a: &WindowManager, s: &WindowManager, path: Seq<u64>, i: int)
    requires
        is_path(a, path),
        down_closed(a, s),
        0 <= i < path.len(),
        a.has_window(path[i]),
        !s.has_window(path[i]),
        a.has_window(path.last()),
    ensures
        !s.has_window(path.last()),
    decreases path.len() - i,
{
    if i < path.len() - 1 {
        let x = path[i];
        let v = path[i + 1];
        assert(path_step(a, path, i));
        assert(has_child(a, x, v));
        let n = path.len() - 1;
        if i + 1 < n {
            assert(path_step(a, path, i + 1));
            assert(a.has_window(v));
        } else {
            assert(v == path.last());
        }
        assert(!s.has_window(v));
        lemma_path_gone(a, s, path, i + 1);
    }
}

/// Where `s` keeps `a`'s children as `kept_children` says and the windows
/// it dropped took their children with them, the subtrees of `s` and `a`
/// agree on the windows `s` has.
proof fn lemma_subtree_transfer(a: &WindowManager, s: &WindowManager, c: u64, h: u64)
    requires
        kept_children(a, s),
        down_closed(a, s),
        s.has_window(h),
    ensures
        in_subtree(s, c, h) == in_subtree(a, c, h),
{
    if in_subtree(s, c, h) {
        let path = choose|path: Seq<u64>| #[trigger] is_path(s, path) && path[0] == c && path.last() == h;
        assert forall|i: int| 0 <= i < path.len() - 1 implies #[trigger] path_step(a, path, i) by {
            assert(path_step(s, path, i));
            assert(s.has_window(path[i]));
            let sc = s.window_of(path[i]).unwrap().children@;
            let j = choose|j: int| 0 <= j < sc.len() && sc[j] == path[i + 1];
            assert(a.window_of(path[i]).unwrap().children@.contains(sc[j]));
        }
        assert(is_path(a, path));
    }
    if in_subtree(a, c, h) {
        let path = choose|path: Seq<u64>| #[trigger] is_path(a, path) && path[0] == c && path.last() == h;
        assert(a.has_window(h));
        assert forall|i: int| 0 <= i < path.len() - 1 implies #[trigger] path_step(s, path, i) by {
            assert(path_step(a, path, i));
            if !s.has_window(path[i]) {
                lemma_path_gone(a, s, path, i);
            }
            let q = path[i + 1];
            if !s.has_window(q) && a.has_window(q) {
                lemma_path_gone(a, s, path, i + 1);
            }
            assert(a.window_of(path[i]).unwrap().children@.contains(q));
        }
        assert(is_path(s, path));
    }
}

/// The windows dropped so far, those in the subtrees of the first `n`
/// roots, took their children with them.
proof fn lemma_down_closed(a: &WindowManager, s: &WindowManager, roots: Seq<u64>, n: int)
    requires
        a.wf(),
        forall|h: u64| #[trigger] s.has_window(h) == (a.has_window(h) && !in_some_subtree(a, roots, n, h)),
    ensures
        down_closed(a, s),
{
    assert forall|x: u64, v: u64| #[trigger] has_child(a, x, v) && !s.has_window(x) && a.has_window(v)
        implies !s.has_window(v) by {
        let j = choose|j: int| 0 <= j < n && #[trigger] in_subtree(a, roots[j], x);
        lemma_subtree_child(a, roots[j], x, v);
        assert(in_subtree(a, roots[j], v));
    }
}

proof fn lemma_kept_refl(a: &WindowManager)
    ensures
        kept_children(a, a),
{
    assert forall|h: u64| #[trigger] a.has_window(h) implies
        sub_handles(a.window_of(h).unwrap().children@, a.window_of(h).unwrap().children@) by {
        let x = a.window_of(h).unwrap().children@;
        assert forall|j: int| 0 <= j < x.len() implies x.contains(#[trigger] x[j]) by {}
    }
}

proof fn lemma_kept_trans(a: &WindowManager, s: &WindowManager, t: &WindowManager)
    requires
        kept_children(a, s),
        kept_children(s, t),
    ensures
        kept_children(a, t),
{
    assert forall|h: u64| #[trigger] t.has_window(h) implies {
        &&& a.has_window(h)
        &&& slot_of(t.hwnd_index@, h) == slot_of(a.hwnd_index@, h)
        &&& same_but_children(a.window_of(h).unwrap(), t.window_of(h).unwrap())
        &&& sub_handles(t.window_of(h).unwrap().children@, a.window_of(h).unwrap().children@)
        &&& forall|v: u64| #[trigger] a.window_of(h).unwrap().children@.contains(v)
            && !(a.has_window(v) && !t.has_window(v)) ==> t.window_of(h).unwrap().children@.contains(v)
    } by {
        assert(s.has_window(h));
        let ca = a.window_of(h).unwrap().children@;
        let cs = s.window_of(h).unwrap().children@;
        let ct = t.window_of(h).unwrap().children@;
        assert forall|x: int| 0 <= x < ct.len() implies ca.contains(#[trigger] ct[x]) by {
            assert(cs.contains(ct[x]));
            let y = choose|y: int| 0 <= y < cs.len() && cs[y] == ct[x];
            assert(ca.contains(cs[y]));
        }
        assert forall|v: u64| #[trigger] ca.contains(v) && !(a.has_window(v) && !t.has_window(v)) implies ct.contains(v) by {
            if t.has_window(v) {
                assert(s.has_window(v));
            }
            assert(cs.contains(v));
        }
    }
}

/// In a well-formed manager the windows are as many as the index entries.
proof fn lemma_subtree_count(a: &WindowManager, b: &WindowManager, hwnd: u64)
    requires
        a.wf(),
        b.wf(),
        forall|h: u64| #[trigger] b.has_window(h) == (a.has_window(h) && !in_subtree(a, hwnd, h)),
    ensures
        b.hwnd_index@.len() <= a.hwnd_index@.len(),
        subtree_windows(a, hwnd).len() == a.hwnd_index@.len() - b.hwnd_index@.len(),
{
    broadcast use vstd::seq_lib::seq_to_set_is_finite;
    let sa = a.hwnd_index@.map_values(|e: (u64, usize)| e.0);
    let sb = b.hwnd_index@.map_values(|e: (u64, usize)| e.0);
    assert(sa.no_duplicates()) by {
        assert forall|i: int, j: int| 0 <= i < sa.len() && 0 <= j < sa.len() && i != j implies sa[i] != sa[j] by {
            if i < j {
                assert(a.hwnd_index@[i].0 != a.hwnd_index@[j].0);
            } else {
                assert(a.hwnd_index@[j].0 != a.hwnd_index@[i].0);
            }
        }
    }
    assert(sb.no_duplicates()) by {
        assert forall|i: int, j: int| 0 <= i < sb.len() && 0 <= j < sb.len() && i != j implies sb[i] != sb[j] by {
            if i < j {
                assert(b.hwnd_index@[i].0 != b.hwnd_index@[j].0);
            } else {
                assert(b.hwnd_index@[j].0 != b.hwnd_index@[i].0);
            }
        }
    }
    sa.unique_seq_to_set();
    sb.unique_seq_to_set();
    let ta = sa.to_set();
    let tb = sb.to_set();
    assert forall|h: u64| ta.contains(h) == a.has_window(h) by {
        lemma_wf_names(a, h);
        if a.has_window(h) {
            let i = choose|i: int| 0 <= i < a.hwnd_index@.len() && #[trigger] a.hwnd_index@[i].0 == h;
            assert(sa[i] == h);
        }
        if ta.contains(h) {
            let i = choose|i: int| 0 <= i < sa.len() && sa[i] == h;
            assert(a.hwnd_index@[i].0 == h);
        }
    }
    assert forall|h: u64| tb.contains(h) == b.has_window(h) by {
        lemma_wf_names(b, h);
        if b.has_window(h) {
            let i = choose|i: int| 0 <= i < b.hwnd_index@.len() && #[trigger] b.hwnd_index@[i].0 == h;
            assert(sb[i] == h);
        }
        if tb.contains(h) {
            let i = choose|i: int| 0 <= i < sb.len() && sb[i] == h;
            assert(b.hwnd_index@[i].0 == h);
        }
    }
    assert(subtree_windows(a, hwnd) =~= ta.difference(tb));
    assert(ta.intersect(tb) =~= tb);
    vstd::set_lib::lemma_set_difference_len(ta, tb);
    vstd::set_lib::lemma_len_subset(tb, ta);
}

/// What `destroy_window(hwnd)` does to well-formed manager `a`, giving
/// `b` and `r`: it stays well formed; true exactly when the handle names a
/// window, and then exactly the windows of its subtree are gone and its
/// parent no longer lists it; the windows that stay keep their slots and
/// fields and lose from their children only windows that are gone; the
/// window count goes down by one per window gone (wrapping as
/// `wrapping_sub` does), one index entry going with each; the rest of the
/// state is kept. False, with nothing changed, for any other handle.
pub open spec fn window_destroyed(a: &WindowManager, b: &WindowManager, hwnd: u64, r: bool) -> bool {
    &&& b.wf()
    &&& b.same_scalars(a)
    &&& r == a.has_window(hwnd)
    &&& !r ==> b.windows@ == a.windows@ && b.hwnd_index@ == a.hwnd_index@ && b.window_count == a.window_count
    &&& r ==> forall|h: u64| #[trigger] b.has_window(h) == (a.has_window(h) && !in_subtree(a, hwnd, h))
    &&& r ==> (a.window_of(hwnd).unwrap().parent matches Some(p) ==>
        (b.window_of(p) matches Some(pw) ==> !pw.children@.contains(hwnd)))
    &&& kept_children(a, b)
    &&& b.hwnd_index@.len() <= a.hwnd_index@.len()
    &&& b.window_count == count_down(a.window_count, (a.hwnd_index@.len() - b.hwnd_index@.len()) as nat)
    &&& r ==> subtree_windows(a, hwnd).len() == a.hwnd_index@.len() - b.hwnd_index@.len()
    &&& r ==> b.window_count == count_down(a.window_count, subtree_windows(a, hwnd).len())
}

impl WindowManager {
    /// Post a message: accepted (there is no queue to hold it here).
    pub fn post_message(&mut self, hwnd: u64, msg: u32, wparam: u64, lparam: i64) -> (r: bool)
        ensures
            r,
            final(self).windows@ == old(self).windows@,
            final(self).same_but_windows(old(self)),
    {
        true
    }

    /// Send a message: there is no window procedure to run here, so the
    /// result is 0.
    pub fn send_message(&mut self, hwnd: u64, msg: u32, wparam: u64, lparam: i64) -> (r: i64)
        ensures
            r == 0,
            final(self).windows@ == old(self).windows@,
            final(self).same_but_windows(old(self)),
    {
        match self.get_window(hwnd) {
            Some(_) => 0,
            None => 0,
        }
    }

    /// Take handle `h` out of the children of the window in slot `k`.
    fn filter_children(&mut self, k: usize, h: u64)
        requires
            k < old(self).windows@.len(),
        ensures
            final(self).same_but_windows(old(self)),
            final(self).windows@.len() == old(self).windows@.len(),
            forall|j: int| 0 <= j < final(self).windows@.len() && j != k ==> #[trigger] final(self).windows@[j] == old(self).windows@[j],
            match old(self).windows@[k as int] {
                Some(w) => final(self).windows@[k as int] matches Some(w2) && same_but_children(w, w2)
                    && w2.children@ == without(w.children@, h),
                None => final(self).windows@[k as int] is None,
            },
    {
        match self.windows[k].as_mut() {
            Some(w) => {
                let nc = chain_without(&w.children, h);
                w.children = nc;
            },
            None => {},
        }
    }

    /// Destroy a window and, first, its children (each destroyed the same
    /// way); then take it out of its parent's children, drop its index
    /// entry and empty its slot. False, with nothing changed, when the
    /// handle names no window.
    pub fn destroy_window(&mut self, hwnd: u64) -> (r: bool)
        requires
            old(self).wf(),
        ensures
            window_destroyed(old(self), final(self), hwnd, r),
        decreases u64::MAX - hwnd,
    {
        proof {
            lemma_kept_refl(old(self));
        }
        let k = match self.find_slot(hwnd) {
            Some(k) => k,
            None => {
                proof {
                    lemma_wf_names(old(self), hwnd);
                    if old(self).has_window(hwnd) {
                        let i = choose|i: int| 0 <= i < old(self).hwnd_index@.len() && #[trigger] old(self).hwnd_index@[i].0 == hwnd;
                        lemma_wf_at(old(self), i);
                    }
                }
                return false;
            },
        };
        let ghost pos0 = first_pos(old(self).hwnd_index@, hwnd).unwrap();
        proof {
            lemma_wf_at(old(self), pos0);
        }
        let ghost w0 = old(self).window_of(hwnd).unwrap();
        let (parent_hwnd, kids) = match &self.windows[k] {
            Some(w) => (w.parent, copy_handles(&w.children)),
            None => {
                return false;
            },
        };
        assert(kids@ == w0.children@);
        proof {
            lemma_children_above(old(self), hwnd);
            assert forall|h: u64| #[trigger] self.has_window(h)
                == (old(self).has_window(h) && !in_some_subtree(old(self), kids@, 0, h)) by {}
        }
        let mut i: usize = 0;
        while i < kids.len()
            invariant
                i <= kids@.len(),
                kids@ == w0.children@,
                forall|j: int| 0 <= j < kids@.len() ==> kids@[j] > hwnd,
                old(self).wf(),
                old(self).has_window(hwnd),
                self.wf(),
                self.same_scalars(old(self)),
                parent_hwnd == w0.parent,
                old(self).window_of(hwnd) == Some(w0),
                slot_of(old(self).hwnd_index@, hwnd) == Some(k),
                forall|h: u64| #[trigger] self.has_window(h)
                    == (old(self).has_window(h) && !in_some_subtree(old(self), kids@, i as int, h)),
                kept_children(old(self), self),
                self.hwnd_index@.len() <= old(self).hwnd_index@.len(),
                self.window_count == count_down(old(self).window_count,
                    (old(self).hwnd_index@.len() - self.hwnd_index@.len()) as nat),
            decreases kids@.len() - i,
        {
            let c = kids[i];
            let ghost s1 = *self;
            let _ = self.destroy_window(c);
            proof {
                let a = old(self);
                lemma_down_closed(a, &s1, kids@, i as int);
                assert forall|h: u64| #[trigger] self.has_window(h)
                    == (a.has_window(h) && !in_some_subtree(a, kids@, i + 1, h)) by {
                    if s1.has_window(h) {
                        lemma_subtree_transfer(a, &s1, c, h);
                        if !s1.has_window(c) && in_subtree(&s1, c, h) {
                            lemma_subtree_of_nothing(&s1, c, h);
                        }
                    }
                    if in_some_subtree(a, kids@, i + 1, h) {
                        let j = choose|j: int| 0 <= j < i + 1 && #[trigger] in_subtree(a, kids@[j], h);
                        if j < i {
                            assert(in_some_subtree(a, kids@, i as int, h));
                        }
                    }
                    if in_some_subtree(a, kids@, i as int, h) {
                        let j = choose|j: int| 0 <= j < i && #[trigger] in_subtree(a, kids@[j], h);
                        assert(in_some_subtree(a, kids@, i + 1, h));
                    }
                    if in_subtree(a, c, h) {
                        assert(in_subtree(a, kids@[i as int], h));
                        assert(in_some_subtree(a, kids@, i + 1, h));
                    }
                }
                lemma_kept_trans(a, &s1, self);
                lemma_count_down_add(a.window_count, (a.hwnd_index@.len() - s1.hwnd_index@.len()) as nat,
                    (s1.hwnd_index@.len() - self.hwnd_index@.len()) as nat);
                assert((a.hwnd_index@.len() - s1.hwnd_index@.len()) as nat + (s1.hwnd_index@.len() - self.hwnd_index@.len()) as nat
                    == (a.hwnd_index@.len() - self.hwnd_index@.len()) as nat);
            }
            i = i + 1;
        }
        let ghost s_loop = *self;
        proof {
            let a = old(self);
            assert(!in_some_subtree(a, kids@, kids@.len() as int, hwnd)) by {
                if in_some_subtree(a, kids@, kids@.len() as int, hwnd) {
                    let j = choose|j: int| 0 <= j < kids@.len() && #[trigger] in_subtree(a, kids@[j], hwnd);
                    lemma_subtree_ge(a, kids@[j], hwnd);
                }
            }
            assert(self.has_window(hwnd));
        }
        self.unlink_from_parent(parent_hwnd, hwnd);
        let _ = self.post_message(hwnd, WindowMessage::WM_DESTROY.value(), 0, 0);
        let ghost s_unl = *self;
        self.remove_window(hwnd, k);
        proof {
            let a = old(self);
            assert forall|h: u64| #[trigger] self.has_window(h) == (a.has_window(h) && !in_subtree(a, hwnd, h)) by {
                if h == hwnd {
                    lemma_subtree_root(a, hwnd);
                } else {
                    assert(self.window_of(h) == s_unl.window_of(h));
                    assert(s_unl.has_window(h) == s_loop.has_window(h));
                    lemma_subtree_split(a, hwnd, h);
                }
            }
            assert forall|h: u64| #[trigger] self.has_window(h) implies {
                &&& a.has_window(h)
                &&& slot_of(self.hwnd_index@, h) == slot_of(a.hwnd_index@, h)
                &&& same_but_children(a.window_of(h).unwrap(), self.window_of(h).unwrap())
                &&& sub_handles(self.window_of(h).unwrap().children@, a.window_of(h).unwrap().children@)
                &&& forall|v: u64| #[trigger] a.window_of(h).unwrap().children@.contains(v)
                    && !(a.has_window(v) && !self.has_window(v)) ==> self.window_of(h).unwrap().children@.contains(v)
            } by {
                assert(h != hwnd);
                assert(self.window_of(h) == s_unl.window_of(h));
                assert(s_unl.has_window(h) && s_loop.has_window(h));
                let ca = a.window_of(h).unwrap().children@;
                let cl = s_loop.window_of(h).unwrap().children@;
                let cb = self.window_of(h).unwrap().children@;
                assert forall|x: int| 0 <= x < cb.len() implies ca.contains(#[trigger] cb[x]) by {
                    assert(cl.contains(cb[x]));
                    let y = choose|y: int| 0 <= y < cl.len() && cl[y] == cb[x];
                    assert(ca.contains(cl[y]));
                }
                assert forall|v: u64| #[trigger] ca.contains(v) && !(a.has_window(v) && !self.has_window(v))
                    implies cb.contains(v) by {
                    if self.has_window(v) {
                        assert(v != hwnd);
                        assert(self.window_of(v) == s_unl.window_of(v));
                        assert(s_loop.has_window(v));
                    } else {
                        assert(v != hwnd);
                    }
                    assert(cl.contains(v));
                }
            }
            if let Some(p) = parent_hwnd {
                if self.has_window(p) {
                    assert(p != hwnd);
                    assert(self.window_of(p) == s_unl.window_of(p));
                }
            }
            lemma_subtree_count(a, self, hwnd);
        }
        true
    }
}



impl WindowManager {
    /// Take `hwnd` out of the children of the window `parent` names, if
    /// any; nothing else changes.
    fn unlink_from_parent(&mut self, parent: Option<u64>, hwnd: u64)
        requires
            old(self).wf(),
        ensures
            final(self).wf(),
            final(self).same_scalars(old(self)),
            final(self).hwnd_index@ == old(self).hwnd_index@,
            final(self).window_count == old(self).window_count,
            forall|h: u64| #[trigger] final(self).has_window(h) == old(self).has_window(h),
            forall|h: u64| #[trigger] old(self).has_window(h) ==>
                same_but_children(old(self).window_of(h).unwrap(), final(self).window_of(h).unwrap())
                && sub_handles(final(self).window_of(h).unwrap().children@, old(self).window_of(h).unwrap().children@),
            parent matches Some(p) ==> (final(self).has_window(p) ==> !final(self).window_of(p).unwrap().children@.contains(hwnd)),
            forall|h: u64, v: u64| old(self).has_window(h)
                && #[trigger] old(self).window_of(h).unwrap().children@.contains(v) && v != hwnd
                ==> final(self).window_of(h).unwrap().children@.contains(v),
    {
        match parent {
            Some(p) => {
                match self.find_slot(p) {
                    Some(pk) => {
                        if pk < self.windows.len() {
                            let ghost s2 = *self;
                            self.filter_children(pk, hwnd);
                            proof {
                                lemma_without(s2.windows@[pk as int].unwrap().children@, hwnd);
                                assert forall|h: u64, v: u64| s2.has_window(h)
                                    && #[trigger] s2.window_of(h).unwrap().children@.contains(v) && v != hwnd
                                    implies self.window_of(h).unwrap().children@.contains(v) by {
                                    let kk = slot_of(s2.hwnd_index@, h).unwrap() as int;
                                    if kk == pk {
                                        lemma_without_keeps(s2.windows@[pk as int].unwrap().children@, hwnd, v);
                                    } else {
                                        assert(self.windows@[kk] == s2.windows@[kk]);
                                    }
                                }
                                assert forall|h: u64| true implies #[trigger] self.has_window(h) == s2.has_window(h)
                                    && (s2.has_window(h) ==> same_but_children(s2.window_of(h).unwrap(), self.window_of(h).unwrap())
                                        && sub_handles(self.window_of(h).unwrap().children@, s2.window_of(h).unwrap().children@)) by {
                                    if s2.has_window(h) || self.has_window(h) {
                                        let kk = slot_of(s2.hwnd_index@, h).unwrap() as int;
                                        if kk != pk {
                                            assert(self.windows@[kk] == s2.windows@[kk]);
                                            let x = s2.window_of(h).unwrap().children@;
                                            assert forall|j: int| 0 <= j < x.len() implies x.contains(#[trigger] x[j]) by {}
                                        }
                                    }
                                }
                                assert forall|i2: int| 0 <= i2 < self.hwnd_index@.len() implies {
                                    let e = #[trigger] self.hwnd_index@[i2];
                                    &&& 0 < e.0 < self.next_hwnd
                                    &&& (e.1 as int) < self.windows@.len()
                                    &&& self.windows@[e.1 as int] matches Some(w) && w.hwnd == e.0
                                        && forall|j: int| 0 <= j < w.children@.len() ==> w.children@[j] > e.0
                                } by {
                                    let e = self.hwnd_index@[i2];
                                    let kk = e.1 as int;
                                    if kk == pk {
                                        let w2 = s2.windows@[kk].unwrap();
                                        let w3 = self.windows@[kk].unwrap();
                                        assert forall|j: int| 0 <= j < w3.children@.len() implies w3.children@[j] > e.0 by {
                                            assert(w2.children@.contains(w3.children@[j]));
                                        }
                                    } else {
                                        assert(self.windows@[kk] == s2.windows@[kk]);
                                    }
                                }
                            }
                        }
                    },
                    None => {},
                }
            },
            None => {},
        }
        proof {
            assert forall|h: u64| #[trigger] old(self).has_window(h) implies
                same_but_children(old(self).window_of(h).unwrap(), self.window_of(h).unwrap())
                && sub_handles(self.window_of(h).unwrap().children@, old(self).window_of(h).unwrap().children@) by {
                let x = old(self).window_of(h).unwrap().children@;
                assert forall|j: int| 0 <= j < x.len() implies x.contains(#[trigger] x[j]) by {}
            }
        }
    }

    /// Drop the index entry of `hwnd`, whose slot is `k`, and empty the
    /// slot; every other handle keeps naming what it named.
    fn remove_window(&mut self, hwnd: u64, k: usize)
        requires
            old(self).wf(),
            old(self).has_window(hwnd),
            slot_of(old(self).hwnd_index@, hwnd) == Some(k),
        ensures
            final(self).wf(),
            final(self).same_scalars(old(self)),
            !final(self).has_window(hwnd),
            forall|h: u64| h != hwnd ==> #[trigger] final(self).window_of(h) == old(self).window_of(h)
                && slot_of(final(self).hwnd_index@, h) == slot_of(old(self).hwnd_index@, h),
            final(self).hwnd_index@.len() == old(self).hwnd_index@.len() - 1,
            final(self).window_count == old(self).window_count.wrapping_sub(1),
    {
        let ghost s4 = *self;
        match self.find_pos(hwnd) {
            Some(pos) => {
                self.hwnd_index.remove(pos);
                proof {
                    lemma_remove_entry(&s4, self, pos as int);
                }
            },
            None => {
                return;
            },
        }
        let ghost s5 = *self;
        self.windows.set(k, None);
        self.window_count = self.window_count.wrapping_sub(1);
        proof {
            let p0 = first_pos(s4.hwnd_index@, hwnd).unwrap();
            lemma_wf_at(&s4, p0);
            assert forall|h: u64| h != hwnd implies #[trigger] self.window_of(h) == s5.window_of(h)
                && slot_of(self.hwnd_index@, h) == slot_of(s5.hwnd_index@, h) by {
                if s5.has_window(h) {
                    lemma_wf_names(&s5, h);
                    let ii = choose|ii: int| 0 <= ii < s5.hwnd_index@.len() && #[trigger] s5.hwnd_index@[ii].0 == h;
                    lemma_wf_at(&s5, ii);
                    let e = s5.hwnd_index@[ii];
                    let jj = if ii < p0 { ii } else { ii + 1 };
                    assert(s4.hwnd_index@[jj] == e);
                    assert(e.1 != s4.hwnd_index@[p0].1);
                }
            }
            assert forall|i2: int| 0 <= i2 < self.hwnd_index@.len() implies {
                let e = #[trigger] self.hwnd_index@[i2];
                &&& 0 < e.0 < self.next_hwnd
                &&& (e.1 as int) < self.windows@.len()
                &&& self.windows@[e.1 as int] matches Some(w) && w.hwnd == e.0
                    && forall|j: int| 0 <= j < w.children@.len() ==> w.children@[j] > e.0
            } by {
                let e = self.hwnd_index@[i2];
                assert(s5.hwnd_index@[i2] == e);
                let jj = if i2 < p0 { i2 } else { i2 + 1 };
                assert(s4.hwnd_index@[jj] == e);
                assert(e.1 != s4.hwnd_index@[p0].1);
            }
            assert(slot_of(self.hwnd_index@, hwnd) is None);
        }
    }
}


/// `b` is `a` with the window `hwnd` names replaced by one that `rel`
/// relates to it; nothing else changes.
pub open spec fn window_updated(a: &WindowManager, b: &WindowManager, hwnd: u64,
    rel: spec_fn(WindowObject, WindowObject) -> bool) -> bool {
    let k = slot_of(a.hwnd_index@, hwnd).unwrap() as int;
    &&& a.has_window(hwnd)
    &&& b.same_but_windows(a)
    &&& b.windows@.len() == a.windows@.len()
    &&& forall|j: int| 0 <= j < a.windows@.len() && j != k ==> #[trigger] b.windows@[j] == a.windows@[j]
    &&& b.windows@[k] matches Some(w2) && rel(a.window_of(hwnd).unwrap(), w2)
}

/// `b` is `a` unchanged.
pub open spec fn unchanged(a: &WindowManager, b: &WindowManager) -> bool {
    b.windows@ == a.windows@ && b.same_but_windows(a)
}

/// What `show_window(hwnd, show)` does: the window becomes shown or hidden
/// and dirty; false with nothing changed when the handle names no window.
pub open spec fn show_window_done(a: &WindowManager, b: &WindowManager, hwnd: u64, show: bool, r: bool) -> bool {
    if a.has_window(hwnd) {
        r && window_updated(a, b, hwnd, |w: WindowObject, w2: WindowObject| w2 == (WindowObject { visible: show, dirty: true, ..w }))
    } else {
        !r && unchanged(a, b)
    }
}

/// What `set_window_pos(hwnd, x, y, width, height)` does.
pub open spec fn set_pos_done(a: &WindowManager, b: &WindowManager, hwnd: u64, x: i32, y: i32, width: i32, height: i32, r: bool) -> bool {
    if a.has_window(hwnd) {
        r && window_updated(a, b, hwnd, |w: WindowObject, w2: WindowObject| w2 == (WindowObject {
            rect: rect_at(x, y, width, height),
            client_rect: client_of(w.style, rect_at(x, y, width, height)),
            dirty: true,
            ..w
        }))
    } else {
        !r && unchanged(a, b)
    }
}

/// What `invalidate_rect(hwnd, rect)` does: the window becomes dirty and
/// `rect` (its client rectangle when none is given) joins its dirty list.
pub open spec fn invalidated(a: &WindowManager, b: &WindowManager, hwnd: u64, rect: Option<Rect>) -> bool {
    if a.has_window(hwnd) {
        window_updated(a, b, hwnd, |w: WindowObject, w2: WindowObject|
            w2 == (WindowObject { dirty: true, dirty_rects: w2.dirty_rects, ..w })
            && w2.dirty_rects@ == w.dirty_rects@.push(match rect { Some(r) => r, None => w.client_rect }))
    } else {
        unchanged(a, b)
    }
}

/// What `update_window(hwnd)` does: a dirty, visible window is repainted
/// (it becomes clean with no dirty rectangles) and the result is true;
/// otherwise false with nothing changed.
pub open spec fn updated_window(a: &WindowManager, b: &WindowManager, hwnd: u64, r: bool) -> bool {
    if a.has_window(hwnd) && a.window_of(hwnd).unwrap().dirty && a.window_of(hwnd).unwrap().visible {
        r && window_updated(a, b, hwnd, |w: WindowObject, w2: WindowObject|
            w2 == (WindowObject { dirty: false, dirty_rects: w2.dirty_rects, ..w }) && w2.dirty_rects@.len() == 0)
    } else {
        !r && unchanged(a, b)
    }
}

/// What `enable_window(hwnd, enable)` does: the window's enabled flag is
/// set and its previous value given back; false with nothing changed when
/// the handle names no window.
pub open spec fn enabled_done(a: &WindowManager, b: &WindowManager, hwnd: u64, enable: bool, r: bool) -> bool {
    if a.has_window(hwnd) {
        r == a.window_of(hwnd).unwrap().enabled
            && window_updated(a, b, hwnd, |w: WindowObject, w2: WindowObject| w2 == (WindowObject { enabled: enable, ..w }))
    } else {
        !r && unchanged(a, b)
    }
}

/// What `set_foreground_window(hwnd)` does: `hwnd` becomes the foreground
/// window (the window it names is marked so) and the previous one is
/// given back.
pub open spec fn foreground_set(a: &WindowManager, b: &WindowManager, hwnd: u64, r: Option<u64>) -> bool {
    let a2 = WindowManager { foreground_window: hwnd, ..*a };
    &&& r == Some(a.foreground_window)
    &&& b.foreground_window == hwnd
    &&& if a.has_window(hwnd) {
        window_updated(&a2, b, hwnd, |w: WindowObject, w2: WindowObject| w2 == (WindowObject { foreground: true, ..w }))
    } else {
        unchanged(&a2, b)
    }
}

/// `b` is `a` with at most the foreground, active, capture and focus
/// windows changed.
pub open spec fn only_focus_changed(a: &WindowManager, b: &WindowManager) -> bool {
    &&& b.windows@ == a.windows@ && b.hwnd_index@ == a.hwnd_index@
    &&& b.next_hwnd == a.next_hwnd && b.window_count == a.window_count
    &&& b.classes@ == a.classes@ && b.next_class_atom == a.next_class_atom
    &&& b.desktop_window == a.desktop_window
}

impl WindowManager {
    /// Show or hide a window (posting the show and paint notifications).
    pub fn show_window(&mut self, hwnd: u64, show: bool) -> (r: bool)
        ensures
            show_window_done(old(self), final(self), hwnd, show, r),
    {
        let was_visible = match self.get_window_mut(hwnd) {
            Some(window) => {
                let wv = window.visible;
                window.visible = show;
                window.dirty = true;
                wv
            },
            None => {
                return false;
            },
        };
        let ghost s1 = *self;
        if show && !was_visible {
            let _ = self.post_message(hwnd, WindowMessage::WM_SHOWWINDOW.value(), 1, 0);
            let _ = self.post_message(hwnd, WindowMessage::WM_PAINT.value(), 0, 0);
        } else if !show && was_visible {
            let _ = self.post_message(hwnd, WindowMessage::WM_SHOWWINDOW.value(), 0, 0);
        }
        assert(self.windows@ == s1.windows@);
        true
    }

    /// Move and resize a window (posting the move, size and paint
    /// notifications when it is visible).
    pub fn set_window_pos(&mut self, hwnd: u64, x: i32, y: i32, width: i32, height: i32) -> (r: bool)
        requires
            old(self).window_of(hwnd) matches Some(w) ==> rect_fits(w.style, x, y, width, height),
        ensures
            set_pos_done(old(self), final(self), hwnd, x, y, width, height, r),
    {
        let visible = match self.get_window_mut(hwnd) {
            Some(window) => {
                window.set_rect(x, y, width, height);
                window.visible
            },
            None => {
                return false;
            },
        };
        let ghost s1 = *self;
        if visible {
            let _ = self.post_message(hwnd, WindowMessage::WM_MOVE.value(), x as u64, y as i64);
            let _ = self.post_message(hwnd, WindowMessage::WM_SIZE.value(), width as u64, height as i64);
            let _ = self.post_message(hwnd, WindowMessage::WM_PAINT.value(), 0, 0);
        }
        assert(self.windows@ == s1.windows@);
        true
    }

    /// The window rectangle of the window `hwnd` names.
    pub fn get_window_rect(&self, hwnd: u64) -> (r: Option<Rect>)
        ensures
            r == match self.window_of(hwnd) {
                Some(w) => Some(w.rect),
                None => None::<Rect>,
            },
    {
        match self.get_window(hwnd) {
            Some(w) => Some(w.rect),
            None => None,
        }
    }

    /// The client rectangle of the window `hwnd` names.
    pub fn get_client_rect(&self, hwnd: u64) -> (r: Option<Rect>)
        ensures
            r == match self.window_of(hwnd) {
                Some(w) => Some(w.client_rect),
                None => None::<Rect>,
            },
    {
        match self.get_window(hwnd) {
            Some(w) => Some(w.client_rect),
            None => None,
        }
    }

    /// Mark a window dirty, recording `rect` (or its client rectangle) as
    /// needing paint.
    pub fn invalidate_rect(&mut self, hwnd: u64, rect: Option<Rect>)
        ensures
            invalidated(old(self), final(self), hwnd, rect),
    {
        match self.get_window_mut(hwnd) {
            Some(window) => {
                window.dirty = true;
                match rect {
                    Some(r) => window.dirty_rects.push(r),
                    None => {
                        let cr = window.client_rect;
                        window.dirty_rects.push(cr);
                    },
                }
            },
            None => {},
        }
    }

    /// Repaint a window that is dirty and visible (posting WM_PAINT).
    pub fn update_window(&mut self, hwnd: u64) -> (r: bool)
        ensures
            updated_window(old(self), final(self), hwnd, r),
    {
        let should_update = match self.get_window(hwnd) {
            Some(window) => window.dirty && window.visible,
            None => false,
        };
        if should_update {
            match self.get_window_mut(hwnd) {
                Some(window) => {
                    window.dirty = false;
                    window.dirty_rects = Vec::new();
                },
                None => {},
            }
            let ghost s1 = *self;
            let _ = self.post_message(hwnd, WindowMessage::WM_PAINT.value(), 0, 0);
            assert(self.windows@ == s1.windows@);
            true
        } else {
            false
        }
    }

    /// Make `hwnd` the foreground window, giving back the previous one.
    pub fn set_foreground_window(&mut self, hwnd: u64) -> (r: Option<u64>)
        ensures
            foreground_set(old(self), final(self), hwnd, r),
    {
        let old_fg = self.foreground_window;
        self.foreground_window = hwnd;
        match self.get_window_mut(hwnd) {
            Some(window) => {
                window.foreground = true;
            },
            None => {},
        }
        Some(old_fg)
    }

    /// The foreground window.
    pub fn get_foreground_window(&self) -> (r: u64)
        ensures
            r == self.foreground_window,
    {
        self.foreground_window
    }

    /// Make `hwnd` the active window, giving back the previous one.
    pub fn set_active_window(&mut self, hwnd: u64) -> (r: Option<u64>)
        ensures
            r == Some(old(self).active_window),
            final(self).active_window == hwnd,
            only_focus_changed(old(self), final(self)),
            final(self).foreground_window == old(self).foreground_window,
            final(self).capture_window == old(self).capture_window,
            final(self).focus_window == old(self).focus_window,
    {
        let old_active = self.active_window;
        self.active_window = hwnd;
        Some(old_active)
    }

    /// The active window.
    pub fn get_active_window(&self) -> (r: u64)
        ensures
            r == self.active_window,
    {
        self.active_window
    }

    /// Give `hwnd` the focus, giving back the window that had it (posting
    /// the kill-focus and set-focus notifications when it changes).
    pub fn set_focus(&mut self, hwnd: u64) -> (r: Option<u64>)
        ensures
            r == Some(old(self).focus_window),
            final(self).focus_window == hwnd,
            only_focus_changed(old(self), final(self)),
            final(self).foreground_window == old(self).foreground_window,
            final(self).active_window == old(self).active_window,
            final(self).capture_window == old(self).capture_window,
    {
        let old_focus = self.focus_window;
        self.focus_window = hwnd;
        if old_focus != hwnd {
            if old_focus != 0 {
                let _ = self.post_message(old_focus, WindowMessage::WM_KILLFOCUS.value(), hwnd, 0);
            }
            let _ = self.post_message(hwnd, WindowMessage::WM_SETFOCUS.value(), 0, 0);
        }
        Some(old_focus)
    }

    /// The window that has the focus.
    pub fn get_focus(&self) -> (r: u64)
        ensures
            r == self.focus_window,
    {
        self.focus_window
    }

    /// Give `hwnd` the mouse capture, giving back the window that had it.
    pub fn set_capture(&mut self, hwnd: u64) -> (r: Option<u64>)
        ensures
            r == Some(old(self).capture_window),
            final(self).capture_window == hwnd,
            only_focus_changed(old(self), final(self)),
            final(self).foreground_window == old(self).foreground_window,
            final(self).active_window == old(self).active_window,
            final(self).focus_window == old(self).focus_window,
    {
        let old_capture = self.capture_window;
        self.capture_window = hwnd;
        Some(old_capture)
    }

    /// Release the mouse capture (posting the cancel-mode notification to
    /// the window that had it).
    pub fn release_capture(&mut self)
        ensures
            final(self).capture_window == 0,
            only_focus_changed(old(self), final(self)),
            final(self).foreground_window == old(self).foreground_window,
            final(self).active_window == old(self).active_window,
            final(self).focus_window == old(self).focus_window,
    {
        let old_capture = self.capture_window;
        self.capture_window = 0;
        if old_capture != 0 {
            let _ = self.post_message(old_capture, WindowMessage::WM_CANCELMODE.value(), 0, 0);
        }
    }

    /// The window that has the mouse capture.
    pub fn get_capture(&self) -> (r: u64)
        ensures
            r == self.capture_window,
    {
        self.capture_window
    }

    /// Enable or disable a window (posting WM_ENABLE), giving back whether
    /// it was enabled.
    pub fn enable_window(&mut self, hwnd: u64, enable: bool) -> (r: bool)
        ensures
            enabled_done(old(self), final(self), hwnd, enable, r),
    {
        let was_enabled = match self.get_window_mut(hwnd) {
            Some(window) => {
                let we = window.enabled;
                window.enabled = enable;
                we
            },
            None => {
                return false;
            },
        };
        let ghost s1 = *self;
        let _ = self.post_message(hwnd, WindowMessage::WM_ENABLE.value(), 1, 0);
        assert(self.windows@ == s1.windows@);
        was_enabled
    }

    /// The window `hwnd` names is enabled (false when it names none).
    pub fn is_window_enabled(&self, hwnd: u64) -> (r: bool)
        ensures
            r == match self.window_of(hwnd) {
                Some(w) => w.enabled,
                None => false,
            },
    {
        match self.get_window(hwnd) {
            Some(w) => w.enabled,
            None => false,
        }
    }
}



/// After `update`'s relation, the window `hwnd` names is the replaced one.
proof fn lemma_updated_window_of(a: &WindowManager, b: &WindowManager, hwnd: u64,
    rel: spec_fn(WindowObject, WindowObject) -> bool)
    requires
        window_updated(a, b, hwnd, rel),
    ensures
        b.window_of(hwnd) matches Some(w2) && rel(a.window_of(hwnd).unwrap(), w2),
{
}

/// Moving a window and then asking for its rectangle gives the rectangle
/// it was moved to, and the client rectangle that goes with it.
pub proof fn lemma_set_pos_then_rect(a: &WindowManager, b: &WindowManager, hwnd: u64, x: i32, y: i32,
    width: i32, height: i32, r: bool)
    requires
        set_pos_done(a, b, hwnd, x, y, width, height, r),
        a.has_window(hwnd),
    ensures
        r,
        b.window_of(hwnd) matches Some(w) && w.rect == rect_at(x, y, width, height)
            && w.client_rect == client_of(a.window_of(hwnd).unwrap().style, rect_at(x, y, width, height)),
{
    lemma_updated_window_of(a, b, hwnd, |w: WindowObject, w2: WindowObject| w2 == (WindowObject {
        rect: rect_at(x, y, width, height),
        client_rect: client_of(w.style, rect_at(x, y, width, height)),
        dirty: true,
        ..w
    }));
}

/// Showing or hiding a window and then reading it gives the visibility
/// asked for.
pub proof fn lemma_show_then_visible(a: &WindowManager, b: &WindowManager, hwnd: u64, show: bool, r: bool)
    requires
        show_window_done(a, b, hwnd, show, r),
        a.has_window(hwnd),
    ensures
        r,
        b.window_of(hwnd) matches Some(w) && w.visible == show && w.dirty,
{
    lemma_updated_window_of(a, b, hwnd, |w: WindowObject, w2: WindowObject| w2 == (WindowObject { visible: show, dirty: true, ..w }));
}

/// Enabling or disabling a window and then asking whether it is enabled
/// gives the state asked for.
pub proof fn lemma_enable_then_query(a: &WindowManager, b: &WindowManager, hwnd: u64, enable: bool, r: bool)
    requires
        enabled_done(a, b, hwnd, enable, r),
        a.has_window(hwnd),
    ensures
        b.window_of(hwnd) matches Some(w) && w.enabled == enable,
{
    lemma_updated_window_of(a, b, hwnd, |w: WindowObject, w2: WindowObject| w2 == (WindowObject { enabled: enable, ..w }));
}

/// A repainted window is clean afterwards.
pub proof fn lemma_update_cleans(a: &WindowManager, b: &WindowManager, hwnd: u64, r: bool)
    requires
        updated_window(a, b, hwnd, r),
        r,
    ensures
        b.window_of(hwnd) matches Some(w) && !w.dirty && w.dirty_rects@.len() == 0,
{
    lemma_updated_window_of(a, b, hwnd, |w: WindowObject, w2: WindowObject|
        w2 == (WindowObject { dirty: false, dirty_rects: w2.dirty_rects, ..w }) && w2.dirty_rects@.len() == 0);
}

// =============================================================================
// Subsystem entry points
// =============================================================================

/// Initialise the window manager: there is nothing to set up beyond
/// `WindowManager::new`.
pub fn init() {
}

/// Create a window.
pub fn create_window_internal(
    wm: &mut WindowManager,
    class_name: &[u16],
    title: &[u16],
    style: u32,
    ex_style: u32,
    x: i32,
    y: i32,
    width: i32,
    height: i32,
    parent: Option<u64>,
    wndproc: u64,
) -> (r: Option<u64>)
    requires
        rect_fits(style, x, y, width, height),
    ensures
        window_created(old(wm), final(wm), class_name@, title@, style, ex_style, x, y, width, height, parent, wndproc, r),
{
    wm.create_window(class_name, title, style, ex_style, x, y, width, height, parent, wndproc)
}

/// Destroy a window.
pub fn destroy_window_internal(wm: &mut WindowManager, hwnd: u64) -> (r: bool)
    requires
        old(wm).wf(),
    ensures
        window_destroyed(old(wm), final(wm), hwnd, r),
{
    wm.destroy_window(hwnd)
}

/// Show or hide a window.
pub fn show_window_internal(wm: &mut WindowManager, hwnd: u64, show: bool) -> (r: bool)
    ensures
        show_window_done(old(wm), final(wm), hwnd, show, r),
{
    wm.show_window(hwnd, show)
}

/// Move and resize a window.
pub fn set_window_pos_internal(wm: &mut WindowManager, hwnd: u64, x: i32, y: i32, width: i32, height: i32) -> (r: bool)
    requires
        old(wm).window_of(hwnd) matches Some(w) ==> rect_fits(w.style, x, y, width, height),
    ensures
        set_pos_done(old(wm), final(wm), hwnd, x, y, width, height, r),
{
    wm.set_window_pos(hwnd, x, y, width, height)
}

/// The window rectangle of a window.
pub fn get_window_rect_internal(wm: &WindowManager, hwnd: u64) -> (r: Option<Rect>)
    ensures
        r == match wm.window_of(hwnd) {
            Some(w) => Some(w.rect),
            None => None::<Rect>,
        },
{
    wm.get_window_rect(hwnd)
}

/// The client rectangle of a window.
pub fn get_client_rect_internal(wm: &WindowManager, hwnd: u64) -> (r: Option<Rect>)
    ensures
        r == match wm.window_of(hwnd) {
            Some(w) => Some(w.client_rect),
            None => None::<Rect>,
        },
{
    wm.get_client_rect(hwnd)
}

/// The foreground window.
pub fn get_foreground_window_internal(wm: &WindowManager) -> (r: u64)
    ensures
        r == wm.foreground_window,
{
    wm.get_foreground_window()
}

/// Make a window the foreground window.
pub fn set_foreground_window_internal(wm: &mut WindowManager, hwnd: u64) -> (r: Option<u64>)
    ensures
        foreground_set(old(wm), final(wm), hwnd, r),
{
    wm.set_foreground_window(hwnd)
}

/// The active window.
pub fn get_active_window_internal(wm: &WindowManager) -> (r: u64)
    ensures
        r == wm.active_window,
{
    wm.get_active_window()
}

/// Make a window the active window.
pub fn set_active_window_internal(wm: &mut WindowManager, hwnd: u64) -> (r: Option<u64>)
    ensures
        r == Some(old(wm).active_window),
        final(wm).active_window == hwnd,
        only_focus_changed(old(wm), final(wm)),
        final(wm).foreground_window == old(wm).foreground_window,
        final(wm).capture_window == old(wm).capture_window,
        final(wm).focus_window == old(wm).focus_window,
{
    wm.set_active_window(hwnd)
}

/// The window that has the focus.
pub fn get_focus_internal(wm: &WindowManager) -> (r: u64)
    ensures
        r == wm.focus_window,
{
    wm.get_focus()
}

/// Give a window the focus.
pub fn set_focus_internal(wm: &mut WindowManager, hwnd: u64) -> (r: Option<u64>)
    ensures
        r == Some(old(wm).focus_window),
        final(wm).focus_window == hwnd,
        only_focus_changed(old(wm), final(wm)),
        final(wm).foreground_window == old(wm).foreground_window,
        final(wm).active_window == old(wm).active_window,
        final(wm).capture_window == old(wm).capture_window,
{
    wm.set_focus(hwnd)
}

/// The window that has the mouse capture.
pub fn get_capture_internal(wm: &WindowManager) -> (r: u64)
    ensures
        r == wm.capture_window,
{
    wm.get_capture()
}

/// Give a window the mouse capture.
pub fn set_capture_internal(wm: &mut WindowManager, hwnd: u64) -> (r: Option<u64>)
    ensures
        r == Some(old(wm).capture_window),
        final(wm).capture_window == hwnd,
        only_focus_changed(old(wm), final(wm)),
        final(wm).foreground_window == old(wm).foreground_window,
        final(wm).active_window == old(wm).active_window,
        final(wm).focus_window == old(wm).focus_window,
{
    wm.set_capture(hwnd)
}

/// Release the mouse capture.
pub fn release_capture_internal(wm: &mut WindowManager)
    ensures
        final(wm).capture_window == 0,
        only_focus_changed(old(wm), final(wm)),
        final(wm).foreground_window == old(wm).foreground_window,
        final(wm).active_window == old(wm).active_window,
        final(wm).focus_window == old(wm).focus_window,
{
    wm.release_capture()
}

/// Enable or disable a window.
pub fn enable_window_internal(wm: &mut WindowManager, hwnd: u64, enable: bool) -> (r: bool)
    ensures
        enabled_done(old(wm), final(wm), hwnd, enable, r),
{
    wm.enable_window(hwnd, enable)
}

/// Whether a window is enabled.
pub fn is_window_enabled_internal(wm: &WindowManager, hwnd: u64) -> (r: bool)
    ensures
        r == match wm.window_of(hwnd) {
            Some(w) => w.enabled,
            None => false,
        },
{
    wm.is_window_enabled(hwnd)
}

/// Mark part of a window as needing paint.
pub fn invalidate_rect_internal(wm: &mut WindowManager, hwnd: u64, rect: Option<Rect>)
    ensures
        invalidated(old(wm), final(wm), hwnd, rect),
{
    wm.invalidate_rect(hwnd, rect)
}

/// Repaint a window that needs it.
pub fn update_window_internal(wm: &mut WindowManager, hwnd: u64) -> (r: bool)
    ensures
        updated_window(old(wm), final(wm), hwnd, r),
{
    wm.update_window(hwnd)
}


} // verus!
