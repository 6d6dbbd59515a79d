//! Device contexts (DC): the attributes a drawing call reads (pen, brush,
//! colours, modes, mapping) and a stack of saved states, kept in a table
//! whose handles start at `0x8000_0000`.

use vstd::prelude::*;
use crate::win32k::objects::{GdiState, Rect, GdiSelectObject, handle_index, GdiHandleEntry};

verus! {

/// DC type flags.
pub const DC_TYPE_WINDOW: u32 = 0x00000001;
pub const DC_TYPE_MEMORY: u32 = 0x00000002;
pub const DC_TYPE_METAFILE: u32 = 0x00000004;
pub const DC_TYPE_PRINTER: u32 = 0x00000008;
pub const DC_TYPE_DISPLAY: u32 = 0x00000001;

/// Mapping modes.
pub const MM_TEXT: i32 = 1;
pub const MM_LOMETRIC: i32 = 2;
pub const MM_HIMETRIC: i32 = 3;
pub const MM_LOENGLISH: i32 = 4;
pub const MM_HIENGLISH: i32 = 5;
pub const MM_TWIPS: i32 = 6;
pub const MM_ISOTROPIC: i32 = 7;
pub const MM_ANISOTROPIC: i32 = 8;

/// Background modes.
pub const TRANSPARENT: i32 = 1;
pub const OPAQUE: i32 = 2;

/// R2 raster operation modes.
pub const R2_BLACK: i32 = 1;
pub const R2_NOTMERGEPEN: i32 = 2;
pub const R2_MASKNOTPEN: i32 = 3;
pub const R2_NOTCOPYPEN: i32 = 4;
pub const R2_MASKPENNOT: i32 = 5;
pub const R2_INVERT: i32 = 6;
pub const R2_XORPEN: i32 = 7;
pub const R2_NOTMASKPEN: i32 = 8;
pub const R2_MASKPEN: i32 = 9;
pub const R2_NOTXORPEN: i32 = 10;
pub const R2_NOP: i32 = 11;
pub const R2_MERGENOTPEN: i32 = 12;
pub const R2_COPYPEN: i32 = 13;
pub const R2_MERGEPENNOT: i32 = 14;
pub const R2_MERGEPEN: i32 = 15;
pub const R2_WHITE: i32 = 16;

/// Text alignment flags.
pub const TA_NOUPDATECP: i32 = 0;
pub const TA_UPDATECP: i32 = 1;
pub const TA_LEFT: i32 = 0;
pub const TA_CENTER: i32 = 6;
pub const TA_RIGHT: i32 = 2;
pub const TA_TOP: i32 = 0;
pub const TA_BOTTOM: i32 = 8;
pub const TA_BASELINE: i32 = 24;

/// Point structure (LONG).
#[derive(Clone, Copy, Debug, PartialEq, Eq, Structural)]
pub struct PointL {
    pub x: i32,
    pub y: i32,
}

impl PointL {
    pub fn new(x: i32, y: i32) -> (r: Self)
        ensures
            r == (PointL { x, y }),
    {
        PointL { x, y }
    }
}

/// Size structure.
#[derive(Clone, Copy, Debug, PartialEq, Eq, Structural)]
pub struct SizeL {
    pub cx: i32,
    pub cy: i32,
}

impl SizeL {
    pub fn new(cx: i32, cy: i32) -> (r: Self)
        ensures
            r == (SizeL { cx, cy }),
    {
        SizeL { cx, cy }
    }
}

/// Saved DC state.
#[derive(Clone, Copy)]
pub struct SavedDcState {
    pub pen: u64,
    pub brush: u64,
    pub font: u64,
    pub palette_handle: u64,
    pub region: u64,
    pub bitmap: u64,
    pub text_color: u32,
    pub bg_color: u32,
    pub text_align: i32,
    pub bk_mode: i32,
    pub rop_mode: i32,
    pub stretch_mode: i32,
    pub map_mode: i32,
    pub viewport_ext: SizeL,
    pub window_ext: SizeL,
    pub viewport_org: PointL,
    pub window_org: PointL,
}

/// The state a fresh DC starts in, and the default saved state.
pub open spec fn default_saved_state() -> SavedDcState {
    SavedDcState {
        pen: 0,
        brush: 0,
        font: 0,
        palette_handle: 0,
        region: 0,
        bitmap: 0,
        text_color: 0x00000000,
        bg_color: 0x00FFFFFF,
        text_align: 0,
        bk_mode: OPAQUE,
        rop_mode: R2_COPYPEN,
        stretch_mode: 0,
        map_mode: MM_TEXT,
        viewport_ext: SizeL { cx: 1, cy: 1 },
        window_ext: SizeL { cx: 1, cy: 1 },
        viewport_org: PointL { x: 0, y: 0 },
        window_org: PointL { x: 0, y: 0 },
    }
}

impl SavedDcState {
    pub fn default() -> (r: Self)
        ensures
            r == default_saved_state(),
    {
        SavedDcState {
            pen: 0,
            brush: 0,
            font: 0,
            palette_handle: 0,
            region: 0,
            bitmap: 0,
            text_color: 0x00000000,
            bg_color: 0x00FFFFFF,
            text_align: 0,  // TA_LEFT | TA_TOP | TA_NOUPDATECP
            bk_mode: OPAQUE,
            rop_mode: R2_COPYPEN,
            stretch_mode: 0,
            map_mode: MM_TEXT,
            viewport_ext: SizeL::new(1, 1),
            window_ext: SizeL::new(1, 1),
            viewport_org: PointL::new(0, 0),
            window_org: PointL::new(0, 0),
        }
    }
}

/// DC object.
pub struct DcObject {
    pub type_: u8,
    pub uses: u8,
    pub flags: u8,
    pub palette: u8,
    pub dc_type: u32,
    pub hwnd: u64,
    pub surface: u64,
    pub clip_region: u64,
    pub pen: u64,
    pub brush: u64,
    pub font: u64,
    pub palette_handle: u64,
    pub bitmap: u64,
    pub region: u64,
    pub text_color: u32,
    pub bg_color: u32,
    pub text_align: i32,
    pub bk_mode: i32,
    pub rop_mode: i32,
    pub stretch_mode: i32,
    pub map_mode: i32,
    pub viewport_ext: SizeL,
    pub window_ext: SizeL,
    pub viewport_org: PointL,
    pub window_org: PointL,
    pub bounds: Rect,
    pub saved_states: Vec<SavedDcState>,
}

/// The attributes of a DC that `save_state` records.
pub open spec fn snapshot(d: &DcObject) -> SavedDcState {
    SavedDcState {
        pen: d.pen,
        brush: d.brush,
        font: d.font,
        palette_handle: d.palette_handle,
        region: d.region,
        bitmap: d.bitmap,
        text_color: d.text_color,
        bg_color: d.bg_color,
        text_align: d.text_align,
        bk_mode: d.bk_mode,
        rop_mode: d.rop_mode,
        stretch_mode: d.stretch_mode,
        map_mode: d.map_mode,
        viewport_ext: d.viewport_ext,
        window_ext: d.window_ext,
        viewport_org: d.viewport_org,
        window_org: d.window_org,
    }
}

/// The attributes of a DC that `save_state` does not record.
pub open spec fn same_identity(a: &DcObject, b: &DcObject) -> bool {
    &&& a.type_ == b.type_ && a.uses == b.uses && a.flags == b.flags && a.palette == b.palette
    &&& a.dc_type == b.dc_type && a.hwnd == b.hwnd && a.surface == b.surface
    &&& a.clip_region == b.clip_region && a.bounds == b.bounds
}

impl DcObject {
    /// A display DC in the default state, with no saved states.
    pub fn new() -> (r: Self)
        ensures
            snapshot(&r) == default_saved_state(),
            r.type_ == 1 && r.uses == 0 && r.flags == 0 && r.palette == 0,
            r.dc_type == DC_TYPE_DISPLAY,
            r.hwnd == 0 && r.surface == 0 && r.clip_region == 0,
            r.bounds == (Rect { left: 0, top: 0, right: 0, bottom: 0 }),
            r.saved_states@.len() == 0,
    {
        DcObject {
            type_: 1,
            uses: 0,
            flags: 0,
            palette: 0,
            dc_type: DC_TYPE_DISPLAY,
            hwnd: 0,
            surface: 0,
            clip_region: 0,
            pen: 0,
            brush: 0,
            font: 0,
            palette_handle: 0,
            bitmap: 0,
            region: 0,
            text_color: 0x00000000,
            bg_color: 0x00FFFFFF,
            text_align: 0,  // TA_LEFT | TA_TOP | TA_NOUPDATECP
            bk_mode: OPAQUE,
            rop_mode: R2_COPYPEN,
            stretch_mode: 0,
            map_mode: MM_TEXT,
            viewport_ext: SizeL::new(1, 1),
            window_ext: SizeL::new(1, 1),
            viewport_org: PointL::new(0, 0),
            window_org: PointL::new(0, 0),
            bounds: Rect::new(0, 0, 0, 0),
            saved_states: Vec::new(),
        }
    }

    /// Save current DC state: pushes a snapshot of the attributes.
    pub fn save_state(&mut self)
        ensures
            final(self).saved_states@ == old(self).saved_states@.push(snapshot(old(self))),
            snapshot(final(self)) == snapshot(old(self)),
            same_identity(final(self), old(self)),
    {
        let state = SavedDcState {
            pen: self.pen,
            brush: self.brush,
            font: self.font,
            palette_handle: self.palette_handle,
            region: self.region,
            bitmap: self.bitmap,
            text_color: self.text_color,
            bg_color: self.bg_color,
            text_align: self.text_align,
            bk_mode: self.bk_mode,
            rop_mode: self.rop_mode,
            stretch_mode: self.stretch_mode,
            map_mode: self.map_mode,
            viewport_ext: self.viewport_ext,
            window_ext: self.window_ext,
            viewport_org: self.viewport_org,
            window_org: self.window_org,
        };
        self.saved_states.push(state);
    }

    /// Restore saved level `level` (counted from 1 at the bottom): its
    /// snapshot becomes the attributes, and it and every later level are
    /// dropped.
    pub fn restore_to_level(&mut self, level: usize)
        requires
            1 <= level <= old(self).saved_states@.len(),
        ensures
            snapshot(final(self)) == old(self).saved_states@[level - 1],
            final(self).saved_states@ == old(self).saved_states@.take(level - 1),
            same_identity(final(self), old(self)),
    {
        let ghost orig = self.saved_states@;
        let ghost start = *self;
        while self.saved_states.len() >= level
            invariant
                1 <= level <= orig.len(),
                level - 1 <= self.saved_states@.len() <= orig.len(),
                self.saved_states@ == orig.take(self.saved_states@.len() as int),
                self.saved_states@.len() < orig.len() ==> snapshot(self) == orig[self.saved_states@.len() as int],
                same_identity(self, &start),
            decreases self.saved_states@.len(),
        {
            let ghost n = self.saved_states@.len();
            let _ = self.restore_state();
            assert(orig.take(n as int).drop_last() =~= orig.take(n - 1));
        }
    }

    /// Restore previous DC state: pops the last snapshot into the
    /// attributes; false (and no change) when none is saved.
    pub fn restore_state(&mut self) -> (r: bool)
        ensures
            r == (old(self).saved_states@.len() > 0),
            r ==> snapshot(final(self)) == old(self).saved_states@.last()
                && final(self).saved_states@ == old(self).saved_states@.drop_last(),
            !r ==> snapshot(final(self)) == snapshot(old(self))
                && final(self).saved_states@ == old(self).saved_states@,
            same_identity(final(self), old(self)),
    {
        match self.saved_states.pop() {
            Some(state) => {
                self.pen = state.pen;
                self.brush = state.brush;
                self.font = state.font;
                self.palette_handle = state.palette_handle;
                self.region = state.region;
                self.bitmap = state.bitmap;
                self.text_color = state.text_color;
                self.bg_color = state.bg_color;
                self.text_align = state.text_align;
                self.bk_mode = state.bk_mode;
                self.rop_mode = state.rop_mode;
                self.stretch_mode = state.stretch_mode;
                self.map_mode = state.map_mode;
                self.viewport_ext = state.viewport_ext;
                self.window_ext = state.window_ext;
                self.viewport_org = state.viewport_org;
                self.window_org = state.window_org;
                true
            },
            None => false,
        }
    }
}

/// Saving a DC's state and then restoring it gives back every attribute
/// and the saved-state stack as they were.
pub proof fn lemma_save_restore_roundtrip(d: SavedDcState, stack: Seq<SavedDcState>)
    ensures
        stack.push(d).last() == d,
        stack.push(d).drop_last() == stack,
{
    assert(stack.push(d).drop_last() =~= stack);
}

/// First handle a DC table gives out.
pub const DC_HANDLE_BASE: u64 = 0x80000000;

/// The table slot that a DC handle names: `handle - 0x8000_0000`; a handle
/// below the base names no slot (-1).
pub open spec fn dc_index(handle: u64) -> int {
    if handle >= DC_HANDLE_BASE {
        (handle - DC_HANDLE_BASE) as usize as int
    } else {
        -1
    }
}

fn dc_index_exec(handle: u64) -> (r: usize)
    requires
        handle >= DC_HANDLE_BASE,
    ensures
        r as int == dc_index(handle),
{
    (handle - DC_HANDLE_BASE) as usize
}

/// DC handle table.
pub struct DcHandleTable {
    pub entries: Vec<Option<DcObject>>,
    pub next_handle: u64,
}

/// The DC that `handle` names in `entries`, if any.
pub open spec fn dc_at(entries: Seq<Option<DcObject>>, handle: u64) -> Option<DcObject> {
    let i = dc_index(handle);
    if 0 <= i < entries.len() {
        entries[i]
    } else {
        None
    }
}

impl DcHandleTable {
    pub fn new() -> (r: Self)
        ensures
            r.entries@.len() == 0,
            r.next_handle == DC_HANDLE_BASE,
            r.wf(),
    {
        DcHandleTable { entries: Vec::new(), next_handle: DC_HANDLE_BASE }
    }

    /// The DC that `handle` names, if any.
    pub open spec fn dc(&self, handle: u64) -> Option<DcObject> {
        dc_at(self.entries@, handle)
    }

    /// The handles given out so far are the base and those after it, one
    /// slot each.
    pub open spec fn wf(&self) -> bool {
        &&& self.next_handle >= DC_HANDLE_BASE
        &&& self.next_handle - DC_HANDLE_BASE == self.entries@.len()
    }

    /// Create a new DC of type `dc_type` drawing on `surface`: the counter's
    /// value is its handle, and the DC is appended to the table; in a
    /// well-formed table that handle names the new slot.
    pub fn create(&mut self, dc_type: u32, surface: u64) -> (r: u64)
        requires
            old(self).next_handle < u64::MAX,
        ensures
            r == old(self).next_handle,
            final(self).next_handle == old(self).next_handle + 1,
            final(self).entries@ == old(self).entries@.push(final(self).entries@.last()),
            old(self).wf() ==> final(self).wf() && final(self).dc(r) == final(self).entries@.last(),
            final(self).entries@.last() matches Some(d) && d.dc_type == dc_type && d.surface == surface
                && snapshot(&d) == default_saved_state() && d.saved_states@.len() == 0 && d.hwnd == 0
                && d.clip_region == 0 && d.bounds == (Rect { left: 0, top: 0, right: 0, bottom: 0 }),
    {
        let mut d = DcObject::new();
        d.dc_type = dc_type;
        d.surface = surface;
        let handle = self.next_handle;
        self.next_handle = self.next_handle + 1;
        let n = self.entries.len();
        self.entries.push(Some(d));
        assert(self.entries@ =~= old(self).entries@.push(self.entries@.last()));
        proof {
            if old(self).wf() {
                assert((handle - DC_HANDLE_BASE) as usize as int == n);
                assert(dc_index(handle) == n);
            }
        }
        handle
    }

    /// Get a DC by handle.
    pub fn get(&self, handle: u64) -> (r: Option<&DcObject>)
        ensures
            match r {
                Some(d) => self.dc(handle) == Some(*d),
                None => self.dc(handle) is None,
            },
    {
        if handle < DC_HANDLE_BASE {
            return None;
        }
        let index = dc_index_exec(handle);
        if index < self.entries.len() {
            match &self.entries[index] {
                Some(d) => Some(d),
                None => None,
            }
        } else {
            None
        }
    }

    /// Take the DC that `handle` names out of its slot, leaving the slot
    /// empty.
    pub fn take(&mut self, handle: u64) -> (r: Option<DcObject>)
        ensures
            r == old(self).dc(handle),
            r is Some ==> final(self).entries@ == old(self).entries@.update(dc_index(handle), None),
            r is None ==> final(self).entries@ == old(self).entries@,
            final(self).next_handle == old(self).next_handle,
    {
        if handle < DC_HANDLE_BASE {
            return None;
        }
        let index = dc_index_exec(handle);
        if index < self.entries.len() {
            let mut slot: Option<DcObject> = None;
            self.entries.set_and_swap(index, &mut slot);
            if slot.is_none() {
                assert(self.entries@ =~= old(self).entries@);
            }
            slot
        } else {
            None
        }
    }

    /// Put a DC back into the slot that `handle` names.
    pub fn put(&mut self, handle: u64, dc: DcObject)
        requires
            0 <= dc_index(handle) < old(self).entries@.len(),
        ensures
            final(self).entries@ == old(self).entries@.update(dc_index(handle), Some(dc)),
            final(self).next_handle == old(self).next_handle,
    {
        let index = dc_index_exec(handle);
        self.entries.set(index, Some(dc));
    }

    /// Delete a DC: empties its slot; false when `handle` names none.
    pub fn delete(&mut self, handle: u64) -> (r: bool)
        ensures
            r == old(self).dc(handle) is Some,
            r ==> final(self).entries@ == old(self).entries@.update(dc_index(handle), None),
            !r ==> final(self).entries@ == old(self).entries@,
            final(self).next_handle == old(self).next_handle,
    {
        self.take(handle).is_some()
    }
}

/// Once deleted, a DC handle names nothing.
pub proof fn lemma_deleted_dc_gone(entries: Seq<Option<DcObject>>, handle: u64)
    requires
        dc_at(entries, handle) is Some,
    ensures
        dc_at(entries.update(dc_index(handle), None), handle) is None,
{
}

/// The slot of the handle `create` gives out is the appended slot when
/// the table's handles have all been given out in order.
pub proof fn lemma_created_dc_found(entries: Seq<Option<DcObject>>, next: u64, d: DcObject)
    requires
        next >= DC_HANDLE_BASE,
        next - DC_HANDLE_BASE == entries.len(),
        next - DC_HANDLE_BASE <= usize::MAX,
    ensures
        dc_at(entries.push(Some(d)), next) == Some(d),
{
}

// =============================================================================
// DC creation
// =============================================================================

/// Create a display DC drawing on the primary surface `primary_surface`.
#[allow(non_snake_case)]
pub fn GreCreateDisplayDC(dcs: &mut DcHandleTable, primary_surface: u64) -> (r: u64)
    requires
        old(dcs).next_handle < u64::MAX,
    ensures
        r == old(dcs).next_handle,
        final(dcs).next_handle == old(dcs).next_handle + 1,
        final(dcs).entries@ == old(dcs).entries@.push(final(dcs).entries@.last()),
        old(dcs).wf() ==> final(dcs).wf() && final(dcs).dc(r) == final(dcs).entries@.last(),
        final(dcs).entries@.last() matches Some(d) && d.dc_type == (DC_TYPE_DISPLAY | DC_TYPE_WINDOW)
            && d.surface == primary_surface && snapshot(&d) == default_saved_state(),
{
    dcs.create(DC_TYPE_DISPLAY | DC_TYPE_WINDOW, primary_surface)
}

/// Create a memory DC drawing on the surface of `source_dc` (0 when that
/// DC does not exist), or on the primary surface when `source_dc` is 0.
#[allow(non_snake_case)]
pub fn GreCreateCompatibleDC(dcs: &mut DcHandleTable, source_dc: u64, primary_surface: u64) -> (r: u64)
    requires
        old(dcs).next_handle < u64::MAX,
    ensures
        r == old(dcs).next_handle,
        final(dcs).next_handle == old(dcs).next_handle + 1,
        final(dcs).entries@ == old(dcs).entries@.push(final(dcs).entries@.last()),
        old(dcs).wf() ==> final(dcs).wf() && final(dcs).dc(r) == final(dcs).entries@.last(),
        final(dcs).entries@.last() matches Some(d) && d.dc_type == DC_TYPE_MEMORY
            && d.surface == (if source_dc != 0 {
                match old(dcs).dc(source_dc) {
                    Some(s) => s.surface,
                    None => 0,
                }
            } else {
                primary_surface
            }) && snapshot(&d) == default_saved_state(),
{
    let source_surface = if source_dc != 0 {
        match dcs.get(source_dc) {
            Some(d) => d.surface,
            None => 0,
        }
    } else {
        primary_surface
    };
    dcs.create(DC_TYPE_MEMORY, source_surface)
}

/// Delete a DC.
#[allow(non_snake_case)]
pub fn GreDeleteDC(dcs: &mut DcHandleTable, dc_handle: u64) -> (r: bool)
    ensures
        r == old(dcs).dc(dc_handle) is Some,
        r ==> final(dcs).entries@ == old(dcs).entries@.update(dc_index(dc_handle), None),
        !r ==> final(dcs).entries@ == old(dcs).entries@,
        final(dcs).next_handle == old(dcs).next_handle,
{
    dcs.delete(dc_handle)
}

/// Get a DC for a bitmap: a new memory DC with no surface.
#[allow(non_snake_case)]
pub fn GreGetDCForBitmap(dcs: &mut DcHandleTable, bitmap_handle: u64) -> (r: u64)
    requires
        old(dcs).next_handle < u64::MAX,
    ensures
        r == old(dcs).next_handle,
        final(dcs).next_handle == old(dcs).next_handle + 1,
        final(dcs).entries@ == old(dcs).entries@.push(final(dcs).entries@.last()),
        old(dcs).wf() ==> final(dcs).wf() && final(dcs).dc(r) == final(dcs).entries@.last(),
        final(dcs).entries@.last() matches Some(d) && d.dc_type == DC_TYPE_MEMORY && d.surface == 0
            && snapshot(&d) == default_saved_state(),
{
    dcs.create(DC_TYPE_MEMORY, 0)
}

/// Get DC by handle.
pub fn get_dc(dcs: &DcHandleTable, dc_handle: u64) -> (r: Option<&DcObject>)
    ensures
        match r {
            Some(d) => dcs.dc(dc_handle) == Some(*d),
            None => dcs.dc(dc_handle) is None,
        },
{
    dcs.get(dc_handle)
}

// =============================================================================
// DC attributes
// =============================================================================

/// `after` is `before` with the DC that `h` names replaced by `d`.
pub open spec fn dc_replaced(before: Seq<Option<DcObject>>, after: Seq<Option<DcObject>>, h: u64, d: DcObject) -> bool {
    after =~= before.update(dc_index(h), Some(d))
}

/// Set text color; gives the old colour, or `0xFFFFFFFF` with no DC.
#[allow(non_snake_case)]
pub fn GreSetTextColor(dcs: &mut DcHandleTable, dc_handle: u64, color: u32) -> (r: u32)
    ensures
        final(dcs).next_handle == old(dcs).next_handle,
        match old(dcs).dc(dc_handle) {
            Some(d) => r == d.text_color && dc_replaced(old(dcs).entries@, final(dcs).entries@, dc_handle,
                DcObject { text_color: color, ..d }),
            None => r == 0xFFFFFFFF && final(dcs).entries@ == old(dcs).entries@,
        },
{
    match dcs.take(dc_handle) {
        Some(mut dc) => {
            let old = dc.text_color;
            dc.text_color = color;
            dcs.put(dc_handle, dc);
            old
        },
        None => 0xFFFFFFFF,
    }
}

/// Get text color (0 with no DC).
#[allow(non_snake_case)]
pub fn GreGetTextColor(dcs: &DcHandleTable, dc_handle: u64) -> (r: u32)
    ensures
        r == match dcs.dc(dc_handle) {
            Some(d) => d.text_color,
            None => 0,
        },
{
    match dcs.get(dc_handle) {
        Some(dc) => dc.text_color,
        None => 0,
    }
}

/// Set background color; gives the old colour, or `0xFFFFFFFF`.
#[allow(non_snake_case)]
pub fn GreSetBkColor(dcs: &mut DcHandleTable, dc_handle: u64, color: u32) -> (r: u32)
    ensures
        final(dcs).next_handle == old(dcs).next_handle,
        match old(dcs).dc(dc_handle) {
            Some(d) => r == d.bg_color && dc_replaced(old(dcs).entries@, final(dcs).entries@, dc_handle,
                DcObject { bg_color: color, ..d }),
            None => r == 0xFFFFFFFF && final(dcs).entries@ == old(dcs).entries@,
        },
{
    match dcs.take(dc_handle) {
        Some(mut dc) => {
            let old = dc.bg_color;
            dc.bg_color = color;
            dcs.put(dc_handle, dc);
            old
        },
        None => 0xFFFFFFFF,
    }
}

/// Get background color (white with no DC).
#[allow(non_snake_case)]
pub fn GreGetBkColor(dcs: &DcHandleTable, dc_handle: u64) -> (r: u32)
    ensures
        r == match dcs.dc(dc_handle) {
            Some(d) => d.bg_color,
            None => 0x00FFFFFF,
        },
{
    match dcs.get(dc_handle) {
        Some(dc) => dc.bg_color,
        None => 0x00FFFFFF,
    }
}

/// Set background mode; gives the old mode, or OPAQUE.
#[allow(non_snake_case)]
pub fn GreSetBkMode(dcs: &mut DcHandleTable, dc_handle: u64, mode: i32) -> (r: i32)
    ensures
        final(dcs).next_handle == old(dcs).next_handle,
        match old(dcs).dc(dc_handle) {
            Some(d) => r == d.bk_mode && dc_replaced(old(dcs).entries@, final(dcs).entries@, dc_handle,
                DcObject { bk_mode: mode, ..d }),
            None => r == OPAQUE && final(dcs).entries@ == old(dcs).entries@,
        },
{
    match dcs.take(dc_handle) {
        Some(mut dc) => {
            let old = dc.bk_mode;
            dc.bk_mode = mode;
            dcs.put(dc_handle, dc);
            old
        },
        None => OPAQUE,
    }
}

/// Get background mode (OPAQUE with no DC).
#[allow(non_snake_case)]
pub fn GreGetBkMode(dcs: &DcHandleTable, dc_handle: u64) -> (r: i32)
    ensures
        r == match dcs.dc(dc_handle) {
            Some(d) => d.bk_mode,
            None => OPAQUE,
        },
{
    match dcs.get(dc_handle) {
        Some(dc) => dc.bk_mode,
        None => OPAQUE,
    }
}

/// Set ROP mode; gives the old mode, or R2_COPYPEN.
#[allow(non_snake_case)]
pub fn GreSetROP2(dcs: &mut DcHandleTable, dc_handle: u64, mode: i32) -> (r: i32)
    ensures
        final(dcs).next_handle == old(dcs).next_handle,
        match old(dcs).dc(dc_handle) {
            Some(d) => r == d.rop_mode && dc_replaced(old(dcs).entries@, final(dcs).entries@, dc_handle,
                DcObject { rop_mode: mode, ..d }),
            None => r == R2_COPYPEN && final(dcs).entries@ == old(dcs).entries@,
        },
{
    match dcs.take(dc_handle) {
        Some(mut dc) => {
            let old = dc.rop_mode;
            dc.rop_mode = mode;
            dcs.put(dc_handle, dc);
            old
        },
        None => R2_COPYPEN,
    }
}

/// Get ROP mode (R2_COPYPEN with no DC).
#[allow(non_snake_case)]
pub fn GreGetROP2(dcs: &DcHandleTable, dc_handle: u64) -> (r: i32)
    ensures
        r == match dcs.dc(dc_handle) {
            Some(d) => d.rop_mode,
            None => R2_COPYPEN,
        },
{
    match dcs.get(dc_handle) {
        Some(dc) => dc.rop_mode,
        None => R2_COPYPEN,
    }
}

/// Set text alignment; gives the old alignment, or TA_LEFT.
#[allow(non_snake_case)]
pub fn GreSetTextAlign(dcs: &mut DcHandleTable, dc_handle: u64, align: i32) -> (r: i32)
    ensures
        final(dcs).next_handle == old(dcs).next_handle,
        match old(dcs).dc(dc_handle) {
            Some(d) => r == d.text_align && dc_replaced(old(dcs).entries@, final(dcs).entries@, dc_handle,
                DcObject { text_align: align, ..d }),
            None => r == TA_LEFT && final(dcs).entries@ == old(dcs).entries@,
        },
{
    match dcs.take(dc_handle) {
        Some(mut dc) => {
            let old = dc.text_align;
            dc.text_align = align;
            dcs.put(dc_handle, dc);
            old
        },
        None => TA_LEFT,
    }
}

/// Get text alignment (TA_LEFT with no DC).
#[allow(non_snake_case)]
pub fn GreGetTextAlign(dcs: &DcHandleTable, dc_handle: u64) -> (r: i32)
    ensures
        r == match dcs.dc(dc_handle) {
            Some(d) => d.text_align,
            None => TA_LEFT,
        },
{
    match dcs.get(dc_handle) {
        Some(dc) => dc.text_align,
        None => TA_LEFT,
    }
}

/// Setting an attribute and then reading it gives the value set; the
/// other DCs of the table are untouched.
pub proof fn lemma_set_then_get_text_color(entries: Seq<Option<DcObject>>, h: u64, color: u32, other: u64)
    requires
        dc_at(entries, h) is Some,
    ensures
        ({
            let d = dc_at(entries, h).unwrap();
            let after = entries.update(dc_index(h), Some(DcObject { text_color: color, ..d }));
            &&& dc_at(after, h).unwrap().text_color == color
            &&& dc_index(other) != dc_index(h) ==> dc_at(after, other) == dc_at(entries, other)
        }),
{
}

// =============================================================================
// SelectObject
// =============================================================================

/// The DC slot an object of handle `h` goes to, by the type prefix in bits
/// 16..32 of the handle (`0x4000 | type`): pen (0x4005), brush (0x4007),
/// font (0x4004), palette (0x4003), region (0x4008), bitmap (0x4002).
pub open spec fn select_slot(h: u64) -> u64 {
    (h >> 16u64) & 0xFFFF
}

/// The DC after selecting `obj` into it, and the handle it replaced.
pub open spec fn select_into(d: DcObject, obj: u64) -> (DcObject, u64) {
    let t = select_slot(obj);
    if t == 0x4005 {
        (DcObject { pen: obj, ..d }, d.pen)
    } else if t == 0x4007 {
        (DcObject { brush: obj, ..d }, d.brush)
    } else if t == 0x4004 {
        (DcObject { font: obj, ..d }, d.font)
    } else if t == 0x4003 {
        (DcObject { palette_handle: obj, ..d }, d.palette_handle)
    } else if t == 0x4008 {
        (DcObject { region: obj, ..d }, d.region)
    } else if t == 0x4002 {
        (DcObject { bitmap: obj, ..d }, d.bitmap)
    } else {
        (d, 0)
    }
}

/// Select an object into a DC: the slot is chosen by the type prefix of
/// the handle; the object's usage count goes up. Gives the handle replaced (0
/// for an unknown type, or with no DC).
#[allow(non_snake_case)]
pub fn GreSelectObject(dcs: &mut DcHandleTable, gdi: &mut GdiState, dc_handle: u64, object_handle: u64) -> (r: u64)
    ensures
        final(dcs).next_handle == old(dcs).next_handle,
        match old(dcs).dc(dc_handle) {
            Some(d) => {
                &&& r == select_into(d, object_handle).1
                &&& dc_replaced(old(dcs).entries@, final(dcs).entries@, dc_handle, select_into(d, object_handle).0)
                &&& final(gdi).objects@ == old(gdi).objects@
                &&& old(gdi).table.lookup(object_handle) is Some ==> final(gdi).table.entries@
                    == old(gdi).table.entries@.update(
                    handle_index(object_handle) as int,
                    Some(GdiHandleEntry {
                        uses: if old(gdi).table.lookup(object_handle).unwrap().uses == 255 {
                            255u8
                        } else {
                            (old(gdi).table.lookup(object_handle).unwrap().uses + 1) as u8
                        },
                        ..old(gdi).table.lookup(object_handle).unwrap()
                    }),
                )
                &&& old(gdi).table.lookup(object_handle) is None ==> final(gdi).table.entries@
                    == old(gdi).table.entries@
            },
            None => r == 0 && final(dcs).entries@ == old(dcs).entries@ && final(gdi).table.entries@
                == old(gdi).table.entries@ && final(gdi).objects@ == old(gdi).objects@,
        },
        final(gdi).table.next_index == old(gdi).table.next_index,
{
    match dcs.take(dc_handle) {
        Some(mut dc) => {
            let obj_type = (object_handle >> 16u64) & 0xFFFF;
            let old_handle = if obj_type == 0x4005 {
                let old = dc.pen;
                dc.pen = object_handle;
                old
            } else if obj_type == 0x4007 {
                let old = dc.brush;
                dc.brush = object_handle;
                old
            } else if obj_type == 0x4004 {
                let old = dc.font;
                dc.font = object_handle;
                old
            } else if obj_type == 0x4003 {
                let old = dc.palette_handle;
                dc.palette_handle = object_handle;
                old
            } else if obj_type == 0x4008 {
                let old = dc.region;
                dc.region = object_handle;
                old
            } else if obj_type == 0x4002 {
                let old = dc.bitmap;
                dc.bitmap = object_handle;
                old
            } else {
                0
            };
            dcs.put(dc_handle, dc);
            let _ = GdiSelectObject(gdi, object_handle);
            old_handle
        },
        None => 0,
    }
}

/// Get current pen (0 with no DC).
#[allow(non_snake_case)]
pub fn GreGetCurrentPen(dcs: &DcHandleTable, dc_handle: u64) -> (r: u64)
    ensures
        r == match dcs.dc(dc_handle) {
            Some(d) => d.pen,
            None => 0,
        },
{
    match dcs.get(dc_handle) {
        Some(dc) => dc.pen,
        None => 0,
    }
}

/// Get current brush (0 with no DC).
#[allow(non_snake_case)]
pub fn GreGetCurrentBrush(dcs: &DcHandleTable, dc_handle: u64) -> (r: u64)
    ensures
        r == match dcs.dc(dc_handle) {
            Some(d) => d.brush,
            None => 0,
        },
{
    match dcs.get(dc_handle) {
        Some(dc) => dc.brush,
        None => 0,
    }
}

/// Get current font (0 with no DC).
#[allow(non_snake_case)]
pub fn GreGetCurrentFont(dcs: &DcHandleTable, dc_handle: u64) -> (r: u64)
    ensures
        r == match dcs.dc(dc_handle) {
            Some(d) => d.font,
            None => 0,
        },
{
    match dcs.get(dc_handle) {
        Some(dc) => dc.font,
        None => 0,
    }
}

// =============================================================================
// SaveDC / RestoreDC
// =============================================================================

/// Save DC state; gives the number of saved states after the push (cut to
/// 32 bits), or 0 with no DC.
#[allow(non_snake_case)]
pub fn GreSaveDC(dcs: &mut DcHandleTable, dc_handle: u64) -> (r: i32)
    ensures
        final(dcs).next_handle == old(dcs).next_handle,
        match old(dcs).dc(dc_handle) {
            Some(d) => {
                let d2 = final(dcs).dc(dc_handle).unwrap();
                &&& final(dcs).entries@ == old(dcs).entries@.update(dc_index(dc_handle), Some(d2))
                &&& d2.saved_states@ == d.saved_states@.push(snapshot(&d))
                &&& snapshot(&d2) == snapshot(&d)
                &&& same_identity(&d2, &d)
                &&& r == d2.saved_states@.len() as i32
            },
            None => r == 0 && final(dcs).entries@ == old(dcs).entries@,
        },
{
    match dcs.take(dc_handle) {
        Some(mut dc) => {
            dc.save_state();
            let count = dc.saved_states.len() as i32;
            dcs.put(dc_handle, dc);
            count
        },
        None => 0,
    }
}

/// The saved level that `saved_state` asks for with `count` levels saved:
/// a positive value is the level itself, a negative one counts back from
/// the most recent (-1 is the last saved), and 0 asks for none.
pub open spec fn requested_level(count: int, saved_state: i32) -> int {
    if saved_state > 0 {
        saved_state as int
    } else if saved_state < 0 {
        count + 1 + saved_state
    } else {
        0
    }
}

/// Restore DC state: the requested saved level becomes the DC's attributes
/// and it and all later levels are dropped; false (and no change) with no
/// DC or when no such level is saved.
#[allow(non_snake_case)]
pub fn GreRestoreDC(dcs: &mut DcHandleTable, dc_handle: u64, saved_state: i32) -> (r: bool)
    ensures
        final(dcs).next_handle == old(dcs).next_handle,
        match old(dcs).dc(dc_handle) {
            Some(d) => {
                let d2 = final(dcs).dc(dc_handle).unwrap();
                let level = requested_level(d.saved_states@.len() as int, saved_state);
                &&& final(dcs).entries@ == old(dcs).entries@.update(dc_index(dc_handle), Some(d2))
                &&& r == (1 <= level <= d.saved_states@.len())
                &&& r ==> snapshot(&d2) == d.saved_states@[level - 1] && d2.saved_states@ == d.saved_states@.take(level - 1)
                &&& !r ==> snapshot(&d2) == snapshot(&d) && d2.saved_states@ == d.saved_states@
                &&& same_identity(&d2, &d)
            },
            None => !r && final(dcs).entries@ == old(dcs).entries@,
        },
{
    match dcs.take(dc_handle) {
        Some(mut dc) => {
            let count = dc.saved_states.len();
            let level: usize = if saved_state > 0 {
                saved_state as usize
            } else if saved_state < 0 {
                let back: usize = (-(saved_state as i64)) as usize;
                if back > count {
                    0
                } else {
                    count - back + 1
                }
            } else {
                0
            };
            let ok = 1 <= level && level <= count;
            if ok {
                dc.restore_to_level(level);
            }
            dcs.put(dc_handle, dc);
            ok
        },
        None => false,
    }
}

// =============================================================================
// Mapping modes
// =============================================================================

/// The DC after `GreSetMapMode(mode)`: the mode is stored, and the five
/// metric modes also set the viewport and window extents.
pub open spec fn set_map_mode_spec(d: DcObject, mode: i32) -> DcObject {
    if mode == MM_TEXT {
        DcObject { map_mode: mode, viewport_ext: SizeL { cx: 1, cy: 1 }, window_ext: SizeL { cx: 1, cy: 1 }, ..d }
    } else if mode == MM_LOMETRIC {
        DcObject { map_mode: mode, viewport_ext: SizeL { cx: 100, cy: 100 }, window_ext: SizeL { cx: 254, cy: 254 }, ..d }
    } else if mode == MM_HIMETRIC {
        DcObject { map_mode: mode, viewport_ext: SizeL { cx: 100, cy: 100 }, window_ext: SizeL { cx: 2540, cy: 2540 }, ..d }
    } else if mode == MM_LOENGLISH {
        DcObject { map_mode: mode, viewport_ext: SizeL { cx: 100, cy: 100 }, window_ext: SizeL { cx: 1000, cy: 1000 }, ..d }
    } else if mode == MM_HIENGLISH {
        DcObject { map_mode: mode, viewport_ext: SizeL { cx: 100, cy: 100 }, window_ext: SizeL { cx: 10000, cy: 10000 }, ..d }
    } else {
        DcObject { map_mode: mode, ..d }
    }
}

/// Set mapping mode; gives the old mode, or MM_TEXT with no DC.
#[allow(non_snake_case)]
pub fn GreSetMapMode(dcs: &mut DcHandleTable, dc_handle: u64, mode: i32) -> (r: i32)
    ensures
        final(dcs).next_handle == old(dcs).next_handle,
        match old(dcs).dc(dc_handle) {
            Some(d) => r == d.map_mode && dc_replaced(old(dcs).entries@, final(dcs).entries@, dc_handle,
                set_map_mode_spec(d, mode)),
            None => r == MM_TEXT && final(dcs).entries@ == old(dcs).entries@,
        },
{
    match dcs.take(dc_handle) {
        Some(mut dc) => {
            let old = dc.map_mode;
            dc.map_mode = mode;
            if mode == MM_TEXT {
                dc.viewport_ext = SizeL::new(1, 1);
                dc.window_ext = SizeL::new(1, 1);
            } else if mode == MM_LOMETRIC {
                dc.viewport_ext = SizeL::new(100, 100);
                dc.window_ext = SizeL::new(254, 254);
            } else if mode == MM_HIMETRIC {
                dc.viewport_ext = SizeL::new(100, 100);
                dc.window_ext = SizeL::new(2540, 2540);
            } else if mode == MM_LOENGLISH {
                dc.viewport_ext = SizeL::new(100, 100);
                dc.window_ext = SizeL::new(1000, 1000);
            } else if mode == MM_HIENGLISH {
                dc.viewport_ext = SizeL::new(100, 100);
                dc.window_ext = SizeL::new(10000, 10000);
            }
            dcs.put(dc_handle, dc);
            old
        },
        None => MM_TEXT,
    }
}

/// Get mapping mode (MM_TEXT with no DC).
#[allow(non_snake_case)]
pub fn GreGetMapMode(dcs: &DcHandleTable, dc_handle: u64) -> (r: i32)
    ensures
        r == match dcs.dc(dc_handle) {
            Some(d) => d.map_mode,
            None => MM_TEXT,
        },
{
    match dcs.get(dc_handle) {
        Some(dc) => dc.map_mode,
        None => MM_TEXT,
    }
}

/// Set viewport extent; gives the old extent (`None`, and no change, with
/// no DC); `Some` says that the DC exists.
#[allow(non_snake_case)]
pub fn GreSetViewportExtEx(dcs: &mut DcHandleTable, dc_handle: u64, cx: i32, cy: i32) -> (r: Option<SizeL>)
    ensures
        final(dcs).next_handle == old(dcs).next_handle,
        match old(dcs).dc(dc_handle) {
            Some(d) => r == Some(d.viewport_ext) && dc_replaced(old(dcs).entries@, final(dcs).entries@, dc_handle,
                DcObject { viewport_ext: SizeL { cx, cy }, ..d }),
            None => r is None && final(dcs).entries@ == old(dcs).entries@,
        },
{
    match dcs.take(dc_handle) {
        Some(mut dc) => {
            let old = dc.viewport_ext;
            dc.viewport_ext = SizeL::new(cx, cy);
            dcs.put(dc_handle, dc);
            Some(old)
        },
        None => None,
    }
}

/// Set window extent; gives the old extent (`None` with no DC).
#[allow(non_snake_case)]
pub fn GreSetWindowExtEx(dcs: &mut DcHandleTable, dc_handle: u64, cx: i32, cy: i32) -> (r: Option<SizeL>)
    ensures
        final(dcs).next_handle == old(dcs).next_handle,
        match old(dcs).dc(dc_handle) {
            Some(d) => r == Some(d.window_ext) && dc_replaced(old(dcs).entries@, final(dcs).entries@, dc_handle,
                DcObject { window_ext: SizeL { cx, cy }, ..d }),
            None => r is None && final(dcs).entries@ == old(dcs).entries@,
        },
{
    match dcs.take(dc_handle) {
        Some(mut dc) => {
            let old = dc.window_ext;
            dc.window_ext = SizeL::new(cx, cy);
            dcs.put(dc_handle, dc);
            Some(old)
        },
        None => None,
    }
}

/// Set viewport origin; gives the old origin (`None` with no DC).
#[allow(non_snake_case)]
pub fn GreSetViewportOrgEx(dcs: &mut DcHandleTable, dc_handle: u64, x: i32, y: i32) -> (r: Option<PointL>)
    ensures
        final(dcs).next_handle == old(dcs).next_handle,
        match old(dcs).dc(dc_handle) {
            Some(d) => r == Some(d.viewport_org) && dc_replaced(old(dcs).entries@, final(dcs).entries@, dc_handle,
                DcObject { viewport_org: PointL { x, y }, ..d }),
            None => r is None && final(dcs).entries@ == old(dcs).entries@,
        },
{
    match dcs.take(dc_handle) {
        Some(mut dc) => {
            let old = dc.viewport_org;
            dc.viewport_org = PointL::new(x, y);
            dcs.put(dc_handle, dc);
            Some(old)
        },
        None => None,
    }
}

/// Get DC bounds (an empty rectangle with no DC).
#[allow(non_snake_case)]
pub fn GreGetDCBounds(dcs: &DcHandleTable, dc_handle: u64) -> (r: Rect)
    ensures
        r == match dcs.dc(dc_handle) {
            Some(d) => d.bounds,
            None => Rect { left: 0, top: 0, right: 0, bottom: 0 },
        },
{
    match dcs.get(dc_handle) {
        Some(dc) => dc.bounds,
        None => Rect::new(0, 0, 0, 0),
    }
}

/// Set DC bounds (no change with no DC).
#[allow(non_snake_case)]
pub fn GreSetDCBounds(dcs: &mut DcHandleTable, dc_handle: u64, bounds: &Rect)
    ensures
        final(dcs).next_handle == old(dcs).next_handle,
        match old(dcs).dc(dc_handle) {
            Some(d) => dc_replaced(old(dcs).entries@, final(dcs).entries@, dc_handle, DcObject { bounds: *bounds, ..d }),
            None => final(dcs).entries@ == old(dcs).entries@,
        },
{
    match dcs.take(dc_handle) {
        Some(mut dc) => {
            dc.bounds = *bounds;
            dcs.put(dc_handle, dc);
        },
        None => {},
    }
}

/// Report on a DC: whether the handle names one.
pub fn dump_dc_info(dcs: &DcHandleTable, dc_handle: u64) -> (r: bool)
    ensures
        r == dcs.dc(dc_handle) is Some,
{
    dcs.get(dc_handle).is_some()
}

} // verus!
