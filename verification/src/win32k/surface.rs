//! SurfaceTable: rectangular grids of 32-bit pixels, and the table that holds
//! them under their addresses.
//!
//! A surface's pixel storage is held as one row of `width` pixels per scan
//! line (`height` rows when the height is positive); `pitch` records the
//! byte length of a row as the display driver reports it. A surface
//! without storage stands for a null bits pointer.

use vstd::prelude::*;

verus! {

pub const PIXEL_FORMAT_UNDEFINED: u32 = 0;
pub const PIXEL_FORMAT_1BPP: u32 = 1;
pub const PIXEL_FORMAT_4BPP: u32 = 4;
pub const PIXEL_FORMAT_8BPP: u32 = 8;
pub const PIXEL_FORMAT_16BPP: u32 = 16;
pub const PIXEL_FORMAT_24BPP: u32 = 24;
pub const PIXEL_FORMAT_32BPP: u32 = 32;
pub const PIXEL_FORMAT_32BPP_ARGB: u32 = 0x262;

pub const SURFACE_FLAG_ALLOCATED: u32 = 0x00000001;
pub const SURFACE_FLAG_DEVICE: u32 = 0x00000002;
pub const SURFACE_FLAG_DIB: u32 = 0x00000004;
pub const SURFACE_FLAG_COMPATIBLE: u32 = 0x00000008;

/// GDI surface.
pub struct GdiSurface {
    pub width: i32,
    pub height: i32,
    pub format: u32,
    pub pitch: i32,
    pub bits: Option<Vec<Vec<u32>>>,
    pub flags: u32,
    pub owner_pid: u32,
    pub ref_count: u32,
}

/// Number of scan lines stored for a surface of height `h`.
pub open spec fn rows_for(h: i32) -> int {
    if h > 0 { h as int } else { 0 }
}

/// The surface's pixels are 32 bits wide.
pub open spec fn is_32bpp(format: u32) -> bool {
    format == PIXEL_FORMAT_32BPP || format == PIXEL_FORMAT_32BPP_ARGB
}

/// Bits per pixel of a format (unknown formats count as 32).
pub open spec fn bits_per_pixel(format: u32) -> int {
    if format == PIXEL_FORMAT_1BPP { 1 }
    else if format == PIXEL_FORMAT_4BPP { 4 }
    else if format == PIXEL_FORMAT_8BPP { 8 }
    else if format == PIXEL_FORMAT_16BPP { 16 }
    else if format == PIXEL_FORMAT_24BPP { 24 }
    else { 32 }
}

/// Bytes in a row of `width` pixels of `format`, padded to 4 bytes.
pub open spec fn row_bytes(width: int, format: u32) -> int {
    ((width * ((bits_per_pixel(format) + 7) / 8) + 3) / 4) * 4
}

/// What reading pixel `(x, y)` of `s` gives: the pixel, when it is on the
/// surface and there is storage.
pub open spec fn pixel_read(s: GdiSurface, x: int, y: int) -> Option<u32> {
    if 0 <= x < s.width && 0 <= y < s.height && s.bits is Some {
        Some(s.bits.unwrap()@[y]@[x])
    } else {
        None
    }
}

/// `after` is `before` with pixel `(x, y)` set to `c` when it is on the
/// surface and there is storage, and nothing else changed.
pub open spec fn pixel_written(before: GdiSurface, after: GdiSurface, x: i32, y: i32, c: u32) -> bool {
    let w = 0 <= x < before.width && 0 <= y < before.height && before.bits is Some;
    &&& before.same_but_pixels(&after)
    &&& forall|px: int, py: int| #[trigger] after.in_bounds(px, py) && after.has_bits() ==>
        after.px(px, py) == if w && px == x && py == y { c } else { before.px(px, py) }
}

/// Pixel grid `rows` has `h` rows of `w` pixels.
pub open spec fn grid_shape(rows: Seq<Vec<u32>>, w: int, h: int) -> bool {
    &&& rows.len() == h
    &&& forall|y: int| 0 <= y < h ==> (#[trigger] rows[y])@.len() == w
}

impl GdiSurface {
    /// The storage has one row of `width` pixels per stored scan line.
    pub open spec fn wf(&self) -> bool {
        &&& self.width >= 0
        &&& self.bits matches Some(rows) ==> grid_shape(rows@, self.width as int, rows_for(self.height))
    }

    /// `(x, y)` is a pixel of the surface.
    pub open spec fn in_bounds(&self, x: int, y: int) -> bool {
        0 <= x < self.width && 0 <= y < self.height
    }

    /// The pixel at `(x, y)`.
    pub open spec fn px(&self, x: int, y: int) -> u32 {
        self.bits.unwrap()@[y]@[x]
    }

    /// What `get_pixel` reads at `(x, y)`.
    pub open spec fn read(&self, x: int, y: int) -> Option<u32> {
        pixel_read(*self, x, y)
    }

    /// The surface has pixel storage (its bits pointer is not null).
    pub open spec fn has_bits(&self) -> bool {
        self.bits is Some
    }

    /// `other` is this surface with only pixels changed.
    pub open spec fn same_but_pixels(&self, other: &GdiSurface) -> bool {
        &&& self.width == other.width && self.height == other.height && self.format == other.format
        &&& self.pitch == other.pitch && self.flags == other.flags && self.owner_pid == other.owner_pid
        &&& self.ref_count == other.ref_count
        &&& self.has_bits() == other.has_bits()
        &&& other.wf()
    }

    /// Build a surface of `width` x `height` pixels of `format`, with every
    /// pixel 0; `None` when the width is not positive or the height is 0.
    /// Sizes whose byte counts overflow 32 bits are left out.
    pub fn new(width: i32, height: i32, format: u32) -> (r: Option<Self>)
        requires
            width <= 0x1FFF_FFFF,
            height > i32::MIN,
            width > 0 ==> row_bytes(width as int, format) * (if height < 0 { -height } else { height as int }) <= i32::MAX,
        ensures
            (width <= 0 || height == 0) ==> r is None,
            !(width <= 0 || height == 0) ==> (r matches Some(s) && {
                &&& s.width == width && s.height == height && s.format == format
                &&& s.pitch == row_bytes(width as int, format)
                &&& s.flags == SURFACE_FLAG_ALLOCATED && s.owner_pid == 0 && s.ref_count == 1
                &&& s.has_bits() && s.wf()
                &&& forall|x: int, y: int| s.in_bounds(x, y) ==> s.px(x, y) == 0
            }),
    {
        if width <= 0 || height == 0 {
            return None;
        }
        let bpp: i32 = if format == PIXEL_FORMAT_1BPP {
            1
        } else if format == PIXEL_FORMAT_4BPP {
            4
        } else if format == PIXEL_FORMAT_8BPP {
            8
        } else if format == PIXEL_FORMAT_16BPP {
            16
        } else if format == PIXEL_FORMAT_24BPP {
            24
        } else {
            32
        };
        let bytes_per_pixel: i32 = (bpp + 7) / 8;
        assert(bytes_per_pixel <= 4);
        assert(width * bytes_per_pixel <= 4 * width) by (nonlinear_arith)
            requires
                0 < width,
                bytes_per_pixel <= 4,
        ;
        let row: i32 = ((width * bytes_per_pixel + 3) / 4) * 4;
        let rows = fill_rows(width, if height > 0 { height } else { 0 }, 0);
        Some(GdiSurface {
            width,
            height,
            format,
            pitch: row,
            bits: Some(rows),
            flags: SURFACE_FLAG_ALLOCATED,
            owner_pid: 0,
            ref_count: 1,
        })
    }

    /// The surface has storage, or is a device surface.
    pub fn is_valid(&self) -> (r: bool)
        ensures
            r == (self.has_bits() || self.flags & SURFACE_FLAG_DEVICE != 0),
    {
        self.bits.is_some() || self.flags & SURFACE_FLAG_DEVICE != 0
    }

    /// The pixel at `(x, y)`, when it is on the surface and there is
    /// storage.
    pub fn get_pixel(&self, x: i32, y: i32) -> (r: Option<u32>)
        requires
            self.wf(),
        ensures
            r == pixel_read(*self, x as int, y as int),
    {
        if x < 0 || x >= self.width || y < 0 || y >= self.height {
            return None;
        }
        match &self.bits {
            Some(rows) => Some(rows[y as usize][x as usize]),
            None => None,
        }
    }

    /// Write `color` at `(x, y)`; false when the pixel is off the surface
    /// or there is no storage.
    pub fn set_pixel(&mut self, x: i32, y: i32, color: u32) -> (r: bool)
        requires
            old(self).wf(),
        ensures
            r == (old(self).in_bounds(x as int, y as int) && old(self).has_bits()),
            pixel_written(*old(self), *final(self), x, y, color),
    {
        if x < 0 || x >= self.width || y < 0 || y >= self.height {
            return false;
        }
        match &mut self.bits {
            Some(rows) => {
                put_pixel(rows, x as usize, y as usize, color);
                true
            },
            None => false,
        }
    }

    /// Clear to a colour: every pixel becomes `color` on a 32-bit surface
    /// and 0 on any other.
    pub fn clear(&mut self, color: u32)
        requires
            old(self).wf(),
        ensures
            old(self).same_but_pixels(final(self)),
            forall|px: int, py: int| #[trigger] final(self).in_bounds(px, py) && final(self).has_bits() ==>
                final(self).px(px, py) == if is_32bpp(old(self).format) { color } else { 0 },
    {
        let c = if self.format == PIXEL_FORMAT_32BPP || self.format == PIXEL_FORMAT_32BPP_ARGB {
            color
        } else {
            0
        };
        let w = self.width;
        let h = if self.height > 0 { self.height } else { 0 };
        match &mut self.bits {
            Some(rows) => {
                *rows = fill_rows(w, h, c);
            },
            None => {},
        }
    }
}

/// Rows of `w` pixels, `h` of them, every pixel `c`.
pub fn fill_rows(w: i32, h: i32, c: u32) -> (r: Vec<Vec<u32>>)
    requires
        w >= 0,
        h >= 0,
    ensures
        grid_shape(r@, w as int, h as int),
        forall|x: int, y: int| #![trigger r@[y]@[x]] 0 <= x < w && 0 <= y < h ==> r@[y]@[x] == c,
{
    let mut rows: Vec<Vec<u32>> = Vec::new();
    let mut j: i32 = 0;
    while j < h
        invariant
            0 <= j <= h,
            w >= 0,
            grid_shape(rows@, w as int, j as int),
            forall|x: int, y: int| #![trigger rows@[y]@[x]] 0 <= x < w && 0 <= y < j ==> rows@[y]@[x] == c,
        decreases h - j,
    {
        let mut row: Vec<u32> = Vec::new();
        let mut i: i32 = 0;
        while i < w
            invariant
                0 <= i <= w,
                row@.len() == i,
                forall|x: int| 0 <= x < i ==> row@[x] == c,
            decreases w - i,
        {
            row.push(c);
            i = i + 1;
        }
        rows.push(row);
        j = j + 1;
    }
    rows
}

/// Write one pixel of a grid in place.
pub fn put_pixel(rows: &mut Vec<Vec<u32>>, x: usize, y: usize, color: u32)
    requires
        y < old(rows)@.len(),
        x < old(rows)@[y as int]@.len(),
    ensures
        final(rows)@.len() == old(rows)@.len(),
        forall|j: int| 0 <= j < old(rows)@.len() ==> (#[trigger] final(rows)@[j])@.len() == old(rows)@[j]@.len(),
        forall|i: int, j: int| #![trigger final(rows)@[j]@[i]] 0 <= j < old(rows)@.len() && 0 <= i < old(rows)@[j]@.len() ==>
            final(rows)@[j]@[i] == if i == x && j == y { color } else { old(rows)@[j]@[i] },
{
    let mut row: Vec<u32> = Vec::new();
    rows.set_and_swap(y, &mut row);
    row.set(x, color);
    rows.set_and_swap(y, &mut row);
}

// =============================================================================
// Surface table
// =============================================================================

/// The table of surfaces. A surface's address is its slot number plus one;
/// 0 is the null address. `primary` is the address of the primary (display)
/// surface, or 0 before it is set up.
pub struct SurfaceTable {
    pub slots: Vec<Option<GdiSurface>>,
    pub primary: u64,
}

/// The surface at `addr` in `slots`, if there is one.
pub open spec fn surface_at(slots: Seq<Option<GdiSurface>>, addr: u64) -> Option<GdiSurface> {
    if 1 <= addr <= slots.len() {
        slots[addr - 1]
    } else {
        None
    }
}

impl SurfaceTable {
    pub fn new() -> (r: Self)
        ensures
            r.slots@.len() == 0,
            r.primary == 0,
            r.wf(),
    {
        SurfaceTable { slots: Vec::new(), primary: 0 }
    }

    /// Every surface held is well formed.
    pub open spec fn wf(&self) -> bool {
        forall|i: int| 0 <= i < self.slots@.len() ==> ((#[trigger] self.slots@[i]) matches Some(s) ==> s.wf())
    }

    /// The surface at `addr`, if any.
    pub open spec fn at(&self, addr: u64) -> Option<GdiSurface> {
        surface_at(self.slots@, addr)
    }

    /// Add a surface; gives its address.
    pub fn insert(&mut self, s: GdiSurface) -> (r: u64)
        requires
            old(self).wf(),
            s.wf(),
            old(self).slots@.len() < u64::MAX,
        ensures
            final(self).slots@ == old(self).slots@.push(Some(s)),
            final(self).primary == old(self).primary,
            r == final(self).slots@.len(),
            final(self).wf(),
    {
        self.slots.push(Some(s));
        self.slots.len() as u64
    }

    /// Take the surface at `addr` out of its slot.
    pub fn take(&mut self, addr: u64) -> (r: Option<GdiSurface>)
        requires
            old(self).wf(),
        ensures
            r == old(self).at(addr),
            r matches Some(s) ==> s.wf() && final(self).slots@ == old(self).slots@.update(addr - 1, None),
            r is None ==> final(self).slots@ == old(self).slots@,
            final(self).primary == old(self).primary,
            final(self).wf(),
    {
        if addr >= 1 && addr <= self.slots.len() as u64 {
            let mut slot: Option<GdiSurface> = None;
            self.slots.set_and_swap((addr - 1) as usize, &mut slot);
            if slot.is_none() {
                assert(self.slots@ =~= old(self).slots@);
            }
            slot
        } else {
            None
        }
    }

    /// Put a surface back at `addr`.
    pub fn put(&mut self, addr: u64, s: GdiSurface)
        requires
            old(self).wf(),
            s.wf(),
            1 <= addr <= old(self).slots@.len(),
        ensures
            final(self).slots@ == old(self).slots@.update(addr - 1, Some(s)),
            final(self).primary == old(self).primary,
            final(self).wf(),
    {
        self.slots.set((addr - 1) as usize, Some(s));
    }

    /// Borrow the surface at `addr`.
    pub fn get(&self, addr: u64) -> (r: Option<&GdiSurface>)
        ensures
            match r {
                Some(s) => self.at(addr) == Some(*s),
                None => self.at(addr) is None,
            },
    {
        if addr >= 1 && addr <= self.slots.len() as u64 {
            match &self.slots[(addr - 1) as usize] {
                Some(s) => Some(s),
                None => None,
            }
        } else {
            None
        }
    }
}

/// The primary surface as the display reports it: `width` x `height`
/// pixels, `bpp` bits each, rows of `pitch` bytes; with `has_framebuffer`
/// false the surface has no storage.
pub fn init_primary_surface(
    surfaces: &mut SurfaceTable,
    width: u32,
    height: u32,
    pitch: u32,
    bpp: u32,
    has_framebuffer: bool,
)
    requires
        old(surfaces).wf(),
        old(surfaces).slots@.len() < u64::MAX,
        width <= i32::MAX,
        height <= i32::MAX,
    ensures
        final(surfaces).wf(),
        final(surfaces).slots@.len() == old(surfaces).slots@.len() + 1,
        final(surfaces).slots@.drop_last() == old(surfaces).slots@,
        final(surfaces).primary == final(surfaces).slots@.len(),
        final(surfaces).at(final(surfaces).primary) matches Some(s) && s.width == width && s.height == height
            && s.pitch == pitch as i32 && s.flags == SURFACE_FLAG_DEVICE && s.ref_count == 1
            && s.has_bits() == has_framebuffer
            && s.format == (if bpp == 16 { PIXEL_FORMAT_16BPP } else if bpp == 24 { PIXEL_FORMAT_24BPP }
                else if bpp == 32 { PIXEL_FORMAT_32BPP_ARGB } else { PIXEL_FORMAT_32BPP }),
{
    let format = if bpp == 16 {
        PIXEL_FORMAT_16BPP
    } else if bpp == 24 {
        PIXEL_FORMAT_24BPP
    } else if bpp == 32 {
        PIXEL_FORMAT_32BPP_ARGB
    } else {
        PIXEL_FORMAT_32BPP
    };
    let bits = if has_framebuffer {
        Some(fill_rows(width as i32, height as i32, 0))
    } else {
        None
    };
    let s = GdiSurface {
        width: width as i32,
        height: height as i32,
        format,
        pitch: pitch as i32,
        bits,
        flags: SURFACE_FLAG_DEVICE,
        owner_pid: 0,
        ref_count: 1,
    };
    let addr = surfaces.insert(s);
    surfaces.primary = addr;
    assert(surfaces.slots@.drop_last() =~= old(surfaces).slots@);
}

/// The address of the primary surface (0 before it is set up).
pub fn get_primary_surface(surfaces: &SurfaceTable) -> (r: u64)
    ensures
        r == surfaces.primary,
{
    surfaces.primary
}

/// Create a surface; gives its address, or 0 when the size is refused.
#[allow(non_snake_case)]
pub fn EngCreateSurface(surfaces: &mut SurfaceTable, width: i32, height: i32, format: u32) -> (r: u64)
    requires
        old(surfaces).wf(),
        old(surfaces).slots@.len() < u64::MAX,
        width <= 0x1FFF_FFFF,
        height > i32::MIN,
        width > 0 ==> row_bytes(width as int, format) * (if height < 0 { -height } else { height as int }) <= i32::MAX,
    ensures
        final(surfaces).wf(),
        final(surfaces).primary == old(surfaces).primary,
        (width <= 0 || height == 0) ==> r == 0 && final(surfaces).slots@ == old(surfaces).slots@,
        !(width <= 0 || height == 0) ==> {
            &&& r == final(surfaces).slots@.len()
            &&& final(surfaces).slots@.drop_last() == old(surfaces).slots@
            &&& final(surfaces).at(r) matches Some(s) && s.width == width && s.height == height && s.format == format
                && s.has_bits() && s.flags == SURFACE_FLAG_ALLOCATED
        },
{
    match GdiSurface::new(width, height, format) {
        Some(s) => {
            let r = surfaces.insert(s);
            assert(surfaces.slots@.drop_last() =~= old(surfaces).slots@);
            r
        },
        None => 0,
    }
}

/// Delete a surface: refused for the null address, for the primary
/// surface, and for an address that holds none.
#[allow(non_snake_case)]
pub fn EngDeleteSurface(surfaces: &mut SurfaceTable, surface: u64) -> (r: bool)
    requires
        old(surfaces).wf(),
    ensures
        final(surfaces).wf(),
        final(surfaces).primary == old(surfaces).primary,
        r == (surface != 0 && surface != old(surfaces).primary && old(surfaces).at(surface) is Some),
        r ==> final(surfaces).slots@ == old(surfaces).slots@.update(surface - 1, None),
        !r ==> final(surfaces).slots@ == old(surfaces).slots@,
{
    if surface == 0 {
        return false;
    }
    if surface == surfaces.primary {
        return false;
    }
    surfaces.take(surface).is_some()
}

/// Lock a surface: gives back the address (the null address stays null).
#[allow(non_snake_case)]
pub fn EngLockSurface(surface: u64) -> (r: u64)
    ensures
        r == surface,
{
    surface
}

/// Unlock a surface: nothing to do.
#[allow(non_snake_case)]
pub fn EngUnlockSurface(surface: u64) {
}

/// Enable the display driver.
#[allow(non_snake_case)]
pub fn DrvEnableDriver() -> (r: bool)
    ensures
        r,
{
    true
}

/// Disable the display driver.
#[allow(non_snake_case)]
pub fn DrvDisableDriver() {
}

/// Width, height and format of a surface.
pub fn get_surface_info(surfaces: &SurfaceTable, surface: u64) -> (r: Option<(i32, i32, u32)>)
    ensures
        r == match surfaces.at(surface) {
            Some(s) => Some((s.width, s.height, s.format)),
            None => None,
        },
{
    match surfaces.get(surface) {
        Some(s) => Some((s.width, s.height, s.format)),
        None => None,
    }
}

/// The surface's format carries alpha.
pub fn has_alpha(surfaces: &SurfaceTable, surface: u64) -> (r: bool)
    ensures
        r == match surfaces.at(surface) {
            Some(s) => s.format == PIXEL_FORMAT_32BPP_ARGB,
            None => false,
        },
{
    match surfaces.get(surface) {
        Some(s) => s.format == PIXEL_FORMAT_32BPP_ARGB,
        None => false,
    }
}

/// Report on a surface: whether the address holds one.
pub fn dump_surface_info(surfaces: &SurfaceTable, surface: u64) -> (r: bool)
    ensures
        r == surfaces.at(surface) is Some,
{
    surfaces.get(surface).is_some()
}

/// Writing a pixel and reading it back gives the colour written; the
/// other pixels read as before.
pub proof fn lemma_set_then_get_pixel(before: GdiSurface, after: GdiSurface, x: i32, y: i32, c: u32, qx: int, qy: int)
    requires
        before.wf(),
        pixel_written(before, after, x, y, c),
        before.in_bounds(x as int, y as int),
        before.has_bits(),
    ensures
        pixel_read(after, x as int, y as int) == Some(c),
        (qx != x || qy != y) ==> pixel_read(after, qx, qy) == pixel_read(before, qx, qy),
{
    assert(after.in_bounds(x as int, y as int));
    if before.in_bounds(qx, qy) {
        assert(after.in_bounds(qx, qy));
    }
}

} // verus!
