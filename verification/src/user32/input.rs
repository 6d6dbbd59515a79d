//! Input state and system metrics. The screen is a fixed 1024 x 768;
//! no key is ever down and the cursor stays at the origin.

use vstd::prelude::*;
use crate::user32::types::{BOOL, TRUE, FALSE};

verus! {

pub const SM_CXSCREEN: i32 = 0;
pub const SM_CYSCREEN: i32 = 1;
pub const SM_CXVSCROLL: i32 = 2;
pub const SM_CYHSCROLL: i32 = 3;
pub const SM_CYCAPTION: i32 = 4;
pub const SM_CXBORDER: i32 = 5;
pub const SM_CYBORDER: i32 = 6;
pub const SM_CXDLGFRAME: i32 = 7;
pub const SM_CYDLGFRAME: i32 = 8;
pub const SM_CYVTHUMB: i32 = 9;
pub const SM_CXHTHUMB: i32 = 10;
pub const SM_CXICON: i32 = 11;
pub const SM_CYICON: i32 = 12;
pub const SM_CXCURSOR: i32 = 13;
pub const SM_CYCURSOR: i32 = 14;
pub const SM_CYMENU: i32 = 15;
pub const SM_CXFULLSCREEN: i32 = 16;
pub const SM_CYFULLSCREEN: i32 = 17;
pub const SM_CYKANJIWINDOW: i32 = 18;
pub const SM_MOUSEPRESENT: i32 = 19;
pub const SM_CYVSCROLL: i32 = 20;
pub const SM_CXHSCROLL: i32 = 21;
pub const SM_DEBUG: i32 = 22;
pub const SM_SWAPBUTTON: i32 = 23;
pub const SM_RESERVED1: i32 = 24;
pub const SM_RESERVED2: i32 = 25;
pub const SM_RESERVED3: i32 = 26;
pub const SM_RESERVED4: i32 = 27;
pub const SM_CXMIN: i32 = 28;
pub const SM_CYMIN: i32 = 29;
pub const SM_CXSIZE: i32 = 30;
pub const SM_CYSIZE: i32 = 31;
pub const SM_CXFRAME: i32 = 32;
pub const SM_CYFRAME: i32 = 33;
pub const SM_CXMINTRACK: i32 = 34;
pub const SM_CYMINTRACK: i32 = 35;
pub const SM_CXDOUBLECLK: i32 = 36;
pub const SM_CYDOUBLECLK: i32 = 37;
pub const SM_CXICONSPACING: i32 = 38;
pub const SM_CYICONSPACING: i32 = 39;
pub const SM_MENUDROPALIGNMENT: i32 = 40;
pub const SM_PENWINDOWS: i32 = 41;
pub const SM_DBCSENABLED: i32 = 42;
pub const SM_CMOUSEBUTTONS: i32 = 43;
pub const SM_CXFIXEDFRAME: i32 = 7;
pub const SM_CYFIXEDFRAME: i32 = 8;
pub const SM_CXSIZEFRAME: i32 = 32;
pub const SM_CYSIZEFRAME: i32 = 33;
pub const SM_SECURE: i32 = 44;
pub const SM_CXEDGE: i32 = 45;
pub const SM_CYEDGE: i32 = 46;
pub const SM_CXMINSPACING: i32 = 47;
pub const SM_CYMINSPACING: i32 = 48;
pub const SM_CXSMICON: i32 = 49;
pub const SM_CYSMICON: i32 = 50;
pub const SM_CYSMCAPTION: i32 = 51;
pub const SM_CXSMSIZE: i32 = 52;
pub const SM_CYSMSIZE: i32 = 53;
pub const SM_CXMENUSIZE: i32 = 54;
pub const SM_CYMENUSIZE: i32 = 55;
pub const SM_ARRANGE: i32 = 56;
pub const SM_CXMINIMIZED: i32 = 57;
pub const SM_CYMINIMIZED: i32 = 58;
pub const SM_CXMAXTRACK: i32 = 59;
pub const SM_CYMAXTRACK: i32 = 60;
pub const SM_CXMAXIMIZED: i32 = 61;
pub const SM_CYMAXIMIZED: i32 = 62;
pub const SM_NETWORK: i32 = 63;
pub const SM_CLEANBOOT: i32 = 67;
pub const SM_CXDRAG: i32 = 68;
pub const SM_CYDRAG: i32 = 69;
pub const SM_SHOWSOUNDS: i32 = 70;
pub const SM_CXMENUCHECK: i32 = 71;
pub const SM_CYMENUCHECK: i32 = 72;
pub const SM_SLOWMACHINE: i32 = 73;
pub const SM_MIDEASTENABLED: i32 = 74;
pub const SM_MOUSEWHEELPRESENT: i32 = 75;
pub const SM_XVIRTUALSCREEN: i32 = 76;
pub const SM_YVIRTUALSCREEN: i32 = 77;
pub const SM_CXVIRTUALSCREEN: i32 = 78;
pub const SM_CYVIRTUALSCREEN: i32 = 79;
pub const SM_CMONITORS: i32 = 80;
pub const SM_SAMEDISPLAYFORMAT: i32 = 81;
pub const SM_IMMENABLED: i32 = 82;
pub const SM_CXFOCUSBORDER: i32 = 83;
pub const SM_CYFOCUSBORDER: i32 = 84;
pub const SM_TABLETPC: i32 = 86;
pub const SM_MEDIACENTER: i32 = 87;
pub const SM_STARTER: i32 = 88;
pub const SM_SERVERR2: i32 = 89;
pub const SM_MOUSEHORIZONTALWHEELPRESENT: i32 = 91;
pub const SM_CXPADDEDBORDER: i32 = 92;
pub const SM_DIGITIZER: i32 = 94;
pub const SM_MAXIMUMTOUCHES: i32 = 95;
pub const SM_CMETRICS: i32 = 97;

/// The system metric with this index (0 for one without a value).
pub open spec fn system_metric(index: i32) -> i32 {
    if index == SM_CXSCREEN {
        1024
    } else if index == SM_CYSCREEN {
        768
    } else if index == SM_CXVSCROLL {
        16
    } else if index == SM_CYHSCROLL {
        16
    } else if index == SM_CYCAPTION {
        22
    } else if index == SM_CXBORDER || index == SM_CYFIXEDFRAME {
        1
    } else if index == SM_CYBORDER || index == SM_CXFIXEDFRAME {
        1
    } else if index == SM_CXICON || index == SM_CYICON {
        32
    } else if index == SM_CXCURSOR || index == SM_CYCURSOR {
        32
    } else if index == SM_CYMENU {
        18
    } else if index == SM_CXFULLSCREEN {
        1024
    } else if index == SM_CYFULLSCREEN {
        728
    } else if index == SM_MOUSEPRESENT {
        1
    } else if index == SM_MOUSEWHEELPRESENT {
        1
    } else if index == SM_CMOUSEBUTTONS {
        3
    } else if index == SM_CXMAXIMIZED {
        1024
    } else if index == SM_CYMAXIMIZED {
        728
    } else if index == SM_CXMINIMIZED {
        160
    } else if index == SM_CYMINIMIZED {
        28
    } else if index == SM_CXMINTRACK {
        112
    } else if index == SM_CYMINTRACK {
        27
    } else if index == SM_CXDOUBLECLK {
        4
    } else if index == SM_CYDOUBLECLK {
        4
    } else if index == SM_CXICONSPACING {
        75
    } else if index == SM_CYICONSPACING {
        75
    } else if index == SM_CXEDGE {
        3
    } else if index == SM_CYEDGE {
        3
    } else if index == SM_CXSMICON {
        16
    } else if index == SM_CYSMICON {
        16
    } else if index == SM_CYSMCAPTION {
        20
    } else if index == SM_CXSMSIZE {
        16
    } else if index == SM_CYSMSIZE {
        16
    } else if index == SM_CXMENUSIZE {
        18
    } else if index == SM_CYMENUSIZE {
        18
    } else if index == SM_CXDRAG {
        4
    } else if index == SM_CYDRAG {
        4
    } else if index == SM_CXMAXTRACK {
        1024
    } else if index == SM_CYMAXTRACK {
        768
    } else if index == SM_CXFRAME {
        4
    } else if index == SM_CYFRAME {
        4
    } else if index == SM_CMETRICS {
        97
    } else if index == SM_CMONITORS {
        1
    } else if index == SM_SAMEDISPLAYFORMAT {
        1
    } else {
        0
    }
}

/// The system metric with this index: the fixed screen and window
/// measures, 0 for an index without a value.
#[allow(non_snake_case)]
pub fn GetSystemMetrics(index: i32) -> (r: i32)
    ensures
        r == system_metric(index),
{
    match index {
        0 => 1024,
        1 => 768,
        2 => 16,
        3 => 16,
        4 => 22,
        5 | 8 => 1,
        6 | 7 => 1,
        11 | 12 => 32,
        13 | 14 => 32,
        15 => 18,
        16 => 1024,
        17 => 728,
        19 => 1,
        75 => 1,
        43 => 3,
        61 => 1024,
        62 => 728,
        57 => 160,
        58 => 28,
        34 => 112,
        35 => 27,
        36 => 4,
        37 => 4,
        38 => 75,
        39 => 75,
        45 => 3,
        46 => 3,
        49 => 16,
        50 => 16,
        51 => 20,
        52 => 16,
        53 => 16,
        54 => 18,
        55 => 18,
        68 => 4,
        69 => 4,
        59 => 1024,
        60 => 768,
        32 => 4,
        33 => 4,
        97 => 97,
        80 => 1,
        81 => 1,
        _ => 0,
    }
}

/// Whether a key is down: never (0).
#[allow(non_snake_case)]
pub fn GetAsyncKeyState(vk: i32) -> (r: i16)
    ensures
        r == 0,
{
    0
}

/// The state of a key: not down (0).
#[allow(non_snake_case)]
pub fn GetKeyState(vk: i32) -> (r: i16)
    ensures
        r == 0,
{
    0
}

/// The keyboard state: every key up. The buffer's first 256 bytes are
/// zeroed (`TRUE`); `FALSE`, with nothing written, for a buffer shorter
/// than that.
#[allow(non_snake_case)]
pub fn GetKeyboardState(buf: &mut [u8]) -> (r: BOOL)
    ensures
        r == (if old(buf)@.len() >= 256 { TRUE } else { FALSE }),
        final(buf)@.len() == old(buf)@.len(),
        forall|i: int| 0 <= i < old(buf)@.len() ==> #[trigger] final(buf)@[i] ==
            if old(buf)@.len() >= 256 && i < 256 { 0u8 } else { old(buf)@[i] },
{
    if buf.len() < 256 {
        return FALSE;
    }
    let mut i: usize = 0;
    while i < 256
        invariant
            i <= 256,
            256 <= buf@.len(),
            buf@.len() == old(buf)@.len(),
            forall|j: int| 0 <= j < old(buf)@.len() ==> #[trigger] buf@[j] == if j < i { 0u8 } else { old(buf)@[j] },
        decreases 256 - i,
    {
        buf[i] = 0;
        i = i + 1;
    }
    TRUE
}

/// The cursor position: the origin, written as x then y (`TRUE`);
/// `FALSE`, with nothing written, for a buffer shorter than two.
#[allow(non_snake_case)]
pub fn GetCursorPos(p: &mut [i32]) -> (r: BOOL)
    ensures
        r == (if old(p)@.len() >= 2 { TRUE } else { FALSE }),
        final(p)@.len() == old(p)@.len(),
        old(p)@.len() >= 2 ==> final(p)@ == old(p)@.update(0, 0i32).update(1, 0i32),
        old(p)@.len() < 2 ==> final(p)@ == old(p)@,
{
    if p.len() < 2 {
        return FALSE;
    }
    p[0] = 0;
    p[1] = 0;
    TRUE
}

/// Move the cursor: it stays where it is. Always `TRUE`.
#[allow(non_snake_case)]
pub fn SetCursorPos(x: i32, y: i32) -> (r: BOOL)
    ensures
        r == TRUE,
{
    TRUE
}

/// The double-click time: 500 ms.
#[allow(non_snake_case)]
pub fn GetDoubleClickTime() -> (r: u32)
    ensures
        r == 500,
{
    500
}

/// The extra information of the last message: none (0).
#[allow(non_snake_case)]
pub fn GetMessageExtraInfo() -> (r: usize)
    ensures
        r == 0,
{
    0
}

/// Map a virtual key: there is no mapping (0).
#[allow(non_snake_case)]
pub fn MapVirtualKeyW(code: u32, map: u32) -> (r: u32)
    ensures
        r == 0,
{
    0
}

/// The keyboard layout: US English (0x0409).
#[allow(non_snake_case)]
pub fn GetKeyboardLayout(id: u32) -> (r: u64)
    ensures
        r == 0x0409,
{
    0x0409
}

} // verus!
