//! The Win32 scalar types of the user32 interface. Handles and pointers
//! are 64-bit values; 0 stands for null.

#![allow(non_camel_case_types)]

use vstd::prelude::*;

verus! {

pub type BOOL = i32;
pub const TRUE: BOOL = 1;
pub const FALSE: BOOL = 0;

pub type DWORD = u32;
pub type WORD = u16;
pub type BYTE = u8;

pub type HANDLE = u64;
pub type HWND = u64;
pub type HMENU = u64;
pub type HINSTANCE = u64;
pub type HICON = u64;
pub type HCURSOR = u64;
pub type HBRUSH = u64;
pub type HBITMAP = u64;

pub type WPARAM = usize;
pub type LPARAM = isize;
pub type LRESULT = isize;

pub type ATOM = u16;
pub type UINT = u32;
pub type UINT_PTR = usize;
pub type LONG_PTR = isize;
pub type ULONG_PTR = usize;

} // verus!
