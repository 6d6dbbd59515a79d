//! GDI objects and the GDI handle table.
//!
//! A GDI handle carries a type prefix in bits 16..32 (`0x4000` plus the
//! object type number) and a table index in its low 16 bits.

use vstd::prelude::*;

verus! {

/// GDI object types, numbered as Windows numbers them (see `to_u8`).
#[derive(Debug, Clone, Copy, PartialEq, Eq, Structural)]
pub enum GdiObjectType {
    DC,
    Bitmap,
    Palette,
    Font,
    Pen,
    ExtPen,
    Brush,
    Region,
    Metafile,
    MemDC,
    EnhancedMetafileDC,
}

/// The number Windows gives each object type.
pub open spec fn obj_type_num(t: GdiObjectType) -> u8 {
    match t {
        GdiObjectType::DC => 1,
        GdiObjectType::Bitmap => 2,
        GdiObjectType::Palette => 3,
        GdiObjectType::Font => 4,
        GdiObjectType::Pen => 5,
        GdiObjectType::ExtPen => 6,
        GdiObjectType::Brush => 7,
        GdiObjectType::Region => 8,
        GdiObjectType::Metafile => 9,
        GdiObjectType::MemDC => 10,
        GdiObjectType::EnhancedMetafileDC => 11,
    }
}

/// The object type that a number names, if any (1 through 11).
pub open spec fn obj_type_of(v: u8) -> Option<GdiObjectType> {
    if v == 1 {
        Some(GdiObjectType::DC)
    } else if v == 2 {
        Some(GdiObjectType::Bitmap)
    } else if v == 3 {
        Some(GdiObjectType::Palette)
    } else if v == 4 {
        Some(GdiObjectType::Font)
    } else if v == 5 {
        Some(GdiObjectType::Pen)
    } else if v == 6 {
        Some(GdiObjectType::ExtPen)
    } else if v == 7 {
        Some(GdiObjectType::Brush)
    } else if v == 8 {
        Some(GdiObjectType::Region)
    } else if v == 9 {
        Some(GdiObjectType::Metafile)
    } else if v == 10 {
        Some(GdiObjectType::MemDC)
    } else if v == 11 {
        Some(GdiObjectType::EnhancedMetafileDC)
    } else {
        None
    }
}

impl GdiObjectType {
    /// The type's number.
    pub fn to_u8(self) -> (r: u8)
        ensures
            r == obj_type_num(self),
    {
        match self {
            GdiObjectType::DC => 1,
            GdiObjectType::Bitmap => 2,
            GdiObjectType::Palette => 3,
            GdiObjectType::Font => 4,
            GdiObjectType::Pen => 5,
            GdiObjectType::ExtPen => 6,
            GdiObjectType::Brush => 7,
            GdiObjectType::Region => 8,
            GdiObjectType::Metafile => 9,
            GdiObjectType::MemDC => 10,
            GdiObjectType::EnhancedMetafileDC => 11,
        }
    }

    /// The type with number `val`; `None` outside 1 through 11.
    pub fn from_u8(val: u8) -> (r: Option<Self>)
        ensures
            r == obj_type_of(val),
    {
        match val {
            1 => Some(GdiObjectType::DC),
            2 => Some(GdiObjectType::Bitmap),
            3 => Some(GdiObjectType::Palette),
            4 => Some(GdiObjectType::Font),
            5 => Some(GdiObjectType::Pen),
            6 => Some(GdiObjectType::ExtPen),
            7 => Some(GdiObjectType::Brush),
            8 => Some(GdiObjectType::Region),
            9 => Some(GdiObjectType::Metafile),
            10 => Some(GdiObjectType::MemDC),
            11 => Some(GdiObjectType::EnhancedMetafileDC),
            _ => None,
        }
    }
}

/// Reading a type's number back gives the type.
pub proof fn lemma_obj_type_roundtrip(t: GdiObjectType)
    ensures
        obj_type_of(obj_type_num(t)) == Some(t),
{
}

/// GDI handle entry.
#[derive(Clone, Copy)]
pub struct GdiHandleEntry {
    /// Object type (1-11)
    pub obj_type: u8,
    /// Usage count
    pub uses: u8,
    /// Flags
    pub flags: u8,
    /// Palette index
    pub palette: u8,
    /// Address (or identifier) of the object
    pub obj_ptr: u64,
    /// Process ID that owns this handle
    pub process_id: u32,
    /// Handle stamp for validation
    pub stamp: u32,
}

/// The entry that `GdiHandleEntry::new` builds.
pub open spec fn new_entry_spec(obj_type: GdiObjectType, obj_ptr: u64, pid: u32) -> GdiHandleEntry {
    GdiHandleEntry {
        obj_type: obj_type_num(obj_type),
        uses: 0,
        flags: 0,
        palette: 0,
        obj_ptr,
        process_id: pid,
        stamp: 0,
    }
}

impl GdiHandleEntry {
    pub fn new(obj_type: GdiObjectType, obj_ptr: u64, pid: u32) -> (r: Self)
        ensures
            r == new_entry_spec(obj_type, obj_ptr, pid),
    {
        GdiHandleEntry {
            obj_type: obj_type.to_u8(),
            uses: 0,
            flags: 0,
            palette: 0,
            obj_ptr,
            process_id: pid,
            stamp: 0,
        }
    }

    pub fn get_type(&self) -> (r: Option<GdiObjectType>)
        ensures
            r == obj_type_of(self.obj_type),
    {
        GdiObjectType::from_u8(self.obj_type)
    }
}

/// The handle type prefix (high 16 bits) of an object type: `0x4000` plus
/// the type's number.
pub open spec fn prefix_spec(t: GdiObjectType) -> u32 {
    (0x4000 + obj_type_num(t)) as u32
}

pub fn get_handle_prefix(obj_type: GdiObjectType) -> (r: u32)
    ensures
        r == prefix_spec(obj_type),
{
    match obj_type {
        GdiObjectType::DC => 0x4001,
        GdiObjectType::Bitmap => 0x4002,
        GdiObjectType::Palette => 0x4003,
        GdiObjectType::Font => 0x4004,
        GdiObjectType::Pen => 0x4005,
        GdiObjectType::ExtPen => 0x4006,
        GdiObjectType::Brush => 0x4007,
        GdiObjectType::Region => 0x4008,
        GdiObjectType::Metafile => 0x4009,
        GdiObjectType::MemDC => 0x400A,
        GdiObjectType::EnhancedMetafileDC => 0x400B,
    }
}

/// The handle that names table slot `index` for an object of type `t`.
pub open spec fn make_handle(t: GdiObjectType, index: u64) -> u64 {
    ((prefix_spec(t) as u64) << 16u64) | index
}

/// The low 16 bits of a handle fit a table index.
pub proof fn lemma_index_bits(h: u64)
    ensures
        (h & 0xFFFF) <= 0xFFFF,
{
    assert((h & 0xFFFF) <= 0xFFFF) by (bit_vector);
}

/// The table index a handle names: its low 16 bits.
pub open spec fn handle_index(handle: u64) -> u64 {
    handle & 0xFFFF
}

/// The type prefix a handle carries: bits 16 and up, cut to 32 bits.
pub open spec fn handle_prefix(handle: u64) -> u32 {
    (handle >> 16u64) as u32
}

/// What a lookup of `handle` finds in the slots `entries`: the entry in
/// slot `handle & 0xFFFF`, when that slot is filled, holds a known type
/// and the handle's prefix is that type's prefix.
pub open spec fn lookup_spec(entries: Seq<Option<GdiHandleEntry>>, handle: u64) -> Option<GdiHandleEntry> {
    let index = handle_index(handle) as int;
    if index < entries.len() {
        match entries[index] {
            Some(e) => match obj_type_of(e.obj_type) {
                Some(t) => if handle_prefix(handle) == prefix_spec(t) {
                    Some(e)
                } else {
                    None
                },
                None => None,
            },
            None => None,
        }
    } else {
        None
    }
}

/// `i` is the lowest empty slot of `entries`.
pub open spec fn is_first_free(entries: Seq<Option<GdiHandleEntry>>, i: int) -> bool {
    &&& 0 <= i < entries.len()
    &&& entries[i] is None
    &&& forall|j: int| 0 <= j < i ==> #[trigger] entries[j] is Some
}

/// `entries` has no empty slot.
pub open spec fn all_full(entries: Seq<Option<GdiHandleEntry>>) -> bool {
    forall|j: int| 0 <= j < entries.len() ==> #[trigger] entries[j] is Some
}

/// GDI handle table: slots for entries, and the count of slots appended so
/// far, counted from 1.
pub struct GdiHandleTable {
    pub entries: Vec<Option<GdiHandleEntry>>,
    pub next_index: u64,
}

impl GdiHandleTable {
    pub open spec fn slots(&self) -> Seq<Option<GdiHandleEntry>> {
        self.entries@
    }

    /// The entry that `handle` names, if the handle is valid.
    pub open spec fn lookup(&self, handle: u64) -> Option<GdiHandleEntry> {
        lookup_spec(self.entries@, handle)
    }

    pub fn new() -> (r: Self)
        ensures
            r.entries@ == Seq::<Option<GdiHandleEntry>>::empty(),
            r.next_index == 1,
    {
        GdiHandleTable { entries: Vec::new(), next_index: 1 }
    }

    /// Allocate a new GDI handle.
    ///
    /// The entry goes into the lowest empty slot, or, with no empty slot, into
    /// a new last slot (and the counter of appended slots moves on); the
    /// handle's low 16 bits are the index of that slot.
    pub fn allocate(&mut self, obj_type: GdiObjectType, obj_ptr: u64, pid: u32) -> (r: u64)
        ensures
            ({
                let e = new_entry_spec(obj_type, obj_ptr, pid);
                ||| exists|i: int| #![trigger is_first_free(old(self).entries@, i)] {
                    &&& is_first_free(old(self).entries@, i)
                    &&& final(self).entries@ == old(self).entries@.update(i, Some(e))
                    &&& r == make_handle(obj_type, i as u64)
                    &&& final(self).next_index == old(self).next_index
                }
                ||| {
                    &&& all_full(old(self).entries@)
                    &&& final(self).entries@ == old(self).entries@.push(Some(e))
                    &&& r == make_handle(obj_type, old(self).entries@.len() as u64)
                    &&& final(self).next_index == (if old(self).next_index == u64::MAX {
                        0
                    } else {
                        (old(self).next_index + 1) as u64
                    })
                }
            }),
    {
        let entry = GdiHandleEntry::new(obj_type, obj_ptr, pid);
        let prefix = get_handle_prefix(obj_type);
        let mut i: usize = 0;
        while i < self.entries.len()
            invariant
                i <= self.entries.len(),
                self.entries@ == old(self).entries@,
                self.next_index == old(self).next_index,
                entry == new_entry_spec(obj_type, obj_ptr, pid),
                prefix == prefix_spec(obj_type),
                forall|j: int| 0 <= j < i ==> #[trigger] self.entries@[j] is Some,
            decreases self.entries.len() - i,
        {
            if self.entries[i].is_none() {
                assert(is_first_free(old(self).entries@, i as int));
                self.entries.set(i, Some(entry));
                return ((prefix as u64) << 16u64) | (i as u64);
            }
            i = i + 1;
        }
        let index = self.entries.len() as u64;
        self.next_index = self.next_index.wrapping_add(1);
        self.entries.push(Some(entry));
        ((prefix as u64) << 16u64) | index
    }

    /// Get a handle entry; the index and the type prefix must both match.
    pub fn get(&self, handle: u64) -> (r: Option<&GdiHandleEntry>)
        ensures
            match r {
                Some(e) => self.lookup(handle) == Some(*e),
                None => self.lookup(handle) is None,
            },
    {
        proof {
            lemma_index_bits(handle);
        }
        let index = (handle & 0xFFFF) as usize;
        if index < self.entries.len() {
            match &self.entries[index] {
                Some(entry) => {
                    match entry.get_type() {
                        Some(t) => {
                            let expected_prefix = get_handle_prefix(t);
                            let actual_prefix = (handle >> 16u64) as u32;
                            if actual_prefix == expected_prefix {
                                Some(entry)
                            } else {
                                None
                            }
                        },
                        None => None,
                    }
                },
                None => None,
            }
        } else {
            None
        }
    }

    /// The entry a handle names, to change in place; the index and the
    /// type prefix must both match.
    pub fn get_mut(&mut self, handle: u64) -> (r: Option<&mut GdiHandleEntry>)
        ensures
            final(self).next_index == old(self).next_index,
            match r {
                Some(e) => old(self).lookup(handle) == Some(*e)
                    && final(self).entries@ == old(self).entries@.update(handle_index(handle) as int, Some(*final(e))),
                None => old(self).lookup(handle) is None && final(self).entries@ == old(self).entries@,
            },
    {
        proof {
            lemma_index_bits(handle);
        }
        let index = (handle & 0xFFFF) as usize;
        if index >= self.entries.len() {
            return None;
        }
        let t = match &self.entries[index] {
            Some(entry) => entry.get_type(),
            None => return None,
        };
        match t {
            Some(t) => {
                let expected_prefix = get_handle_prefix(t);
                let actual_prefix = (handle >> 16u64) as u32;
                if actual_prefix == expected_prefix {
                    self.entries[index].as_mut()
                } else {
                    None
                }
            },
            None => None,
        }
    }

    /// Free a GDI handle: empties slot `handle & 0xFFFF` and returns what it
    /// held. The type prefix is not checked.
    pub fn free(&mut self, handle: u64) -> (r: Option<GdiHandleEntry>)
        ensures
            ({
                let index = handle_index(handle) as int;
                if index < old(self).entries@.len() {
                    &&& r == old(self).entries@[index]
                    &&& final(self).entries@ == old(self).entries@.update(index, None)
                } else {
                    &&& r is None
                    &&& final(self).entries@ == old(self).entries@
                }
            }),
            final(self).next_index == old(self).next_index,
    {
        proof {
            lemma_index_bits(handle);
        }
        let index = (handle & 0xFFFF) as usize;
        if index < self.entries.len() {
            let old_entry = self.entries[index];
            self.entries.set(index, None);
            old_entry
        } else {
            None
        }
    }

    /// Increment the usage count of the entry `handle` names (saturating at
    /// 255); false when the handle is not valid.
    pub fn add_ref(&mut self, handle: u64) -> (r: bool)
        ensures
            r == old(self).lookup(handle) is Some,
            final(self).next_index == old(self).next_index,
            r ==> final(self).entries@ == old(self).entries@.update(
                handle_index(handle) as int,
                Some(GdiHandleEntry {
                    uses: if old(self).lookup(handle).unwrap().uses == 255 {
                        255u8
                    } else {
                        (old(self).lookup(handle).unwrap().uses + 1) as u8
                    },
                    ..old(self).lookup(handle).unwrap()
                }),
            ),
            !r ==> final(self).entries@ == old(self).entries@,
    {
        let found = match self.get(handle) {
            Some(e) => Some(*e),
            None => None,
        };
        match found {
            Some(e) => {
                proof {
                    lemma_index_bits(handle);
                }
                let index = (handle & 0xFFFF) as usize;
                let mut ne = e;
                ne.uses = e.uses.saturating_add(1);
                self.entries.set(index, Some(ne));
                true
            },
            None => false,
        }
    }

    /// Decrement the usage count of the entry `handle` names (saturating at
    /// 0); false when the handle is not valid.
    pub fn release(&mut self, handle: u64) -> (r: bool)
        ensures
            r == old(self).lookup(handle) is Some,
            final(self).next_index == old(self).next_index,
            r ==> final(self).entries@ == old(self).entries@.update(
                handle_index(handle) as int,
                Some(GdiHandleEntry {
                    uses: if old(self).lookup(handle).unwrap().uses == 0 {
                        0u8
                    } else {
                        (old(self).lookup(handle).unwrap().uses - 1) as u8
                    },
                    ..old(self).lookup(handle).unwrap()
                }),
            ),
            !r ==> final(self).entries@ == old(self).entries@,
    {
        let found = match self.get(handle) {
            Some(e) => Some(*e),
            None => None,
        };
        match found {
            Some(e) => {
                proof {
                    lemma_index_bits(handle);
                }
                let index = (handle & 0xFFFF) as usize;
                let mut ne = e;
                ne.uses = e.uses.saturating_sub(1);
                self.entries.set(index, Some(ne));
                true
            },
            None => false,
        }
    }
}


// =============================================================================
// GDI object records
// =============================================================================

/// Pen styles.
#[derive(Debug, Clone, Copy, PartialEq, Eq, Structural)]
pub enum PenStyle {
    Solid,
    Dash,
    Dot,
    DashDot,
    DashDotDot,
    Null,
    InsideFrame,
}

/// The number of each pen style.
pub open spec fn pen_style_num(s: PenStyle) -> u32 {
    match s {
        PenStyle::Solid => 0,
        PenStyle::Dash => 1,
        PenStyle::Dot => 2,
        PenStyle::DashDot => 3,
        PenStyle::DashDotDot => 4,
        PenStyle::Null => 5,
        PenStyle::InsideFrame => 6,
    }
}

impl PenStyle {
    pub fn to_u32(self) -> (r: u32)
        ensures
            r == pen_style_num(self),
    {
        match self {
            PenStyle::Solid => 0,
            PenStyle::Dash => 1,
            PenStyle::Dot => 2,
            PenStyle::DashDot => 3,
            PenStyle::DashDotDot => 4,
            PenStyle::Null => 5,
            PenStyle::InsideFrame => 6,
        }
    }

    /// The style numbered `value`; an unknown number gives `Solid`.
    pub fn from_raw(value: i32) -> (r: Self)
        ensures
            0 <= value <= 6 ==> pen_style_num(r) == value,
            !(0 <= value <= 6) ==> r == PenStyle::Solid,
    {
        match value {
            0 => PenStyle::Solid,
            1 => PenStyle::Dash,
            2 => PenStyle::Dot,
            3 => PenStyle::DashDot,
            4 => PenStyle::DashDotDot,
            5 => PenStyle::Null,
            6 => PenStyle::InsideFrame,
            _ => PenStyle::Solid,
        }
    }
}

/// Pen object.
#[derive(Clone, Copy)]
pub struct GdiPen {
    pub type_: u8,
    pub uses: u8,
    pub flags: u8,
    pub palette: u8,
    pub color: u32,
    pub style: u32,
    pub width: i32,
    pub brush_lined: u64,
}

impl GdiPen {
    pub fn new(style: PenStyle, width: i32, color: u32) -> (r: Self)
        ensures
            r.type_ == 5,
            r.uses == 0 && r.flags == 0 && r.palette == 0,
            r.color == color,
            r.style == pen_style_num(style),
            r.width == width,
            r.brush_lined == 0,
    {
        GdiPen {
            type_: GdiObjectType::Pen.to_u8(),
            uses: 0,
            flags: 0,
            palette: 0,
            color,
            style: style.to_u32(),
            width,
            brush_lined: 0,
        }
    }
}

/// Brush styles.
#[derive(Debug, Clone, Copy, PartialEq, Eq, Structural)]
pub enum BrushStyle {
    Solid,
    Null,
    Hatched,
    Pattern,
    Indexed,
    DIBPattern,
    DIBPatternPt,
    Pattern8x8,
    MonochromeBitmap,
}

/// Hatch styles.
#[derive(Debug, Clone, Copy, PartialEq, Eq, Structural)]
pub enum HatchStyle {
    Horizontal,
    Vertical,
    FDiagonal,
    BDiagonal,
    Cross,
    DiagonalCross,
}

/// The number of each hatch style.
pub open spec fn hatch_num(h: HatchStyle) -> i32 {
    match h {
        HatchStyle::Horizontal => 0,
        HatchStyle::Vertical => 1,
        HatchStyle::FDiagonal => 2,
        HatchStyle::BDiagonal => 3,
        HatchStyle::Cross => 4,
        HatchStyle::DiagonalCross => 5,
    }
}

impl HatchStyle {
    pub fn to_i32(self) -> (r: i32)
        ensures
            r == hatch_num(self),
    {
        match self {
            HatchStyle::Horizontal => 0,
            HatchStyle::Vertical => 1,
            HatchStyle::FDiagonal => 2,
            HatchStyle::BDiagonal => 3,
            HatchStyle::Cross => 4,
            HatchStyle::DiagonalCross => 5,
        }
    }
}

/// Brush object.
#[derive(Clone, Copy)]
pub struct GdiBrush {
    pub type_: u8,
    pub uses: u8,
    pub flags: u8,
    pub palette: u8,
    pub color: u32,
    pub style: u32,
    pub hatch: i32,
    pub bitmap: u64,
}

impl GdiBrush {
    pub fn new_solid(color: u32) -> (r: Self)
        ensures
            r.type_ == 7,
            r.uses == 0 && r.flags == 0 && r.palette == 0,
            r.color == color,
            r.style == 0,
            r.hatch == 0,
            r.bitmap == 0,
    {
        GdiBrush {
            type_: GdiObjectType::Brush.to_u8(),
            uses: 0,
            flags: 0,
            palette: 0,
            color,
            style: 0,
            hatch: 0,
            bitmap: 0,
        }
    }

    pub fn new_hatched(style: HatchStyle, color: u32) -> (r: Self)
        ensures
            r.type_ == 7,
            r.uses == 0 && r.flags == 0 && r.palette == 0,
            r.color == color,
            r.style == 2,
            r.hatch == hatch_num(style),
            r.bitmap == 0,
    {
        GdiBrush {
            type_: GdiObjectType::Brush.to_u8(),
            uses: 0,
            flags: 0,
            palette: 0,
            color,
            style: 2,
            hatch: style.to_i32(),
            bitmap: 0,
        }
    }
}

/// Font quality.
#[derive(Debug, Clone, Copy, PartialEq, Eq, Structural)]
pub enum FontQuality {
    Default,
    Draft,
    Proof,
    NonAntialiased,
    Antialiased,
    ClearType,
    ClearTypeNatural,
}

/// Font object (a simplified LOGFONTW).
#[derive(Clone, Copy)]
pub struct GdiFont {
    pub type_: u8,
    pub uses: u8,
    pub flags: u8,
    pub palette: u8,
    pub height: i32,
    pub width: i32,
    pub escapement: i32,
    pub orientation: i32,
    pub weight: i32,
    pub italic: u8,
    pub underline: u8,
    pub strike_out: u8,
    pub charset: u8,
    pub out_precision: u8,
    pub clip_precision: u8,
    pub quality: u8,
    pub pitch_and_family: u8,
    pub face_name: [u16; 32],
}

/// The face name that `set_face_name(name)` stores: the first
/// `min(len, 31)` units of `name`, then a terminating zero; the units after
/// it keep what they held.
pub open spec fn face_name_after(old_name: Seq<u16>, name: Seq<u16>) -> Seq<u16> {
    let n = if name.len() < 31 { name.len() as int } else { 31int };
    Seq::new(32, |i: int| if i < n { name[i] } else if i == n { 0u16 } else { old_name[i] })
}

impl GdiFont {
    pub fn new() -> (r: Self)
        ensures
            r.type_ == 4,
            r.uses == 0 && r.flags == 0 && r.palette == 0,
            r.height == 16,
            r.width == 0,
            r.escapement == 0,
            r.orientation == 0,
            r.weight == 400,
            r.italic == 0 && r.underline == 0 && r.strike_out == 0,
            r.charset == 0 && r.out_precision == 0 && r.clip_precision == 0,
            r.quality == 0,
            r.pitch_and_family == 0,
            r.face_name@ == Seq::new(32, |i: int| 0u16),
    {
        let r = GdiFont {
            type_: GdiObjectType::Font.to_u8(),
            uses: 0,
            flags: 0,
            palette: 0,
            height: 16,
            width: 0,
            escapement: 0,
            orientation: 0,
            weight: 400,
            italic: 0,
            underline: 0,
            strike_out: 0,
            charset: 0,
            out_precision: 0,
            clip_precision: 0,
            quality: 0,
            pitch_and_family: 0,
            face_name: [0u16; 32],
        };
        assert(r.face_name@ =~= Seq::new(32, |i: int| 0u16));
        r
    }

    /// Store a face name, cut to 31 units and zero-terminated.
    pub fn set_face_name(&mut self, name: &[u16])
        ensures
            final(self).face_name@ == face_name_after(old(self).face_name@, name@),
            final(self).height == old(self).height,
            final(self).width == old(self).width,
            final(self).weight == old(self).weight,
            final(self).italic == old(self).italic,
            final(self).type_ == old(self).type_,
    {
        let len = if name.len() < 31 { name.len() } else { 31 };
        let mut i: usize = 0;
        while i < len
            invariant
                len <= 31,
                len <= name@.len(),
                len == (if name@.len() < 31 { name@.len() as int } else { 31int }),
                i <= len,
                self.face_name@.len() == 32,
                forall|j: int| 0 <= j < i ==> self.face_name@[j] == name@[j],
                forall|j: int| i <= j < 32 ==> self.face_name@[j] == old(self).face_name@[j],
                self.height == old(self).height,
                self.width == old(self).width,
                self.weight == old(self).weight,
                self.italic == old(self).italic,
                self.type_ == old(self).type_,
            decreases len - i,
        {
            self.face_name[i] = name[i];
            i = i + 1;
        }
        self.face_name[len] = 0;
        assert(self.face_name@ =~= face_name_after(old(self).face_name@, name@));
    }
}

/// Bitmap object; its pixel storage is a byte buffer of `size` bytes.
pub struct GdiBitmap {
    pub type_: u8,
    pub uses: u8,
    pub flags: u8,
    pub palette: u8,
    pub size: u64,
    pub width: i32,
    pub height: i32,
    pub width_bytes: i32,
    pub planes: u16,
    pub bit_count: u16,
    pub format: u32,
    pub bits: Vec<u8>,
}

/// Bytes per row of a bitmap: rows are padded to whole 32-bit words.
pub open spec fn bitmap_width_bytes(width: int, bit_count: int) -> int {
    ((width * bit_count + 31) / 32) * 4
}

/// The absolute value of an integer.
pub open spec fn abs_int(x: int) -> int {
    if x < 0 { -x } else { x }
}

impl GdiBitmap {
    /// Build a bitmap of `width` x `height` at `bit_count` bits per pixel.
    ///
    /// Rows are padded to 32 bits; the pixel buffer holds one padded row per
    /// scan line. Inputs whose sizes do not fit 32 bits (where the size
    /// arithmetic would overflow) are left out.
    pub fn new(width: i32, height: i32, bit_count: u16) -> (r: Option<Self>)
        requires
            0 <= width * bit_count + 31 <= i32::MAX,
            height > i32::MIN,
            0 <= bitmap_width_bytes(width as int, bit_count as int) * abs_int(height as int) <= i32::MAX,
        ensures
            r is Some,
            ({
                let b = r.unwrap();
                &&& b.type_ == 2 && b.uses == 0 && b.flags == 0 && b.palette == 0
                &&& b.width == width && b.height == height
                &&& b.width_bytes == bitmap_width_bytes(width as int, bit_count as int)
                &&& b.size == b.width_bytes * abs_int(height as int)
                &&& b.planes == 1 && b.bit_count == bit_count && b.format == 0
                &&& b.bits@.len() == b.size
            }),
    {
        let wb: i32 = ((width * (bit_count as i32) + 31) / 32) * 4;
        let h: i32 = if height < 0 { -height } else { height };
        proof {
            assert(0 <= wb);
            assert(0 <= wb * h <= i32::MAX);
        }
        let size: i32 = wb * h;
        let mut bits: Vec<u8> = Vec::new();
        let mut i: i32 = 0;
        while i < size
            invariant
                0 <= i <= size,
                bits@.len() == i,
            decreases size - i,
        {
            bits.push(0u8);
            i = i + 1;
        }
        Some(GdiBitmap {
            type_: GdiObjectType::Bitmap.to_u8(),
            uses: 0,
            flags: 0,
            palette: 0,
            size: size as u64,
            width,
            height,
            width_bytes: wb,
            planes: 1,
            bit_count,
            format: 0,
            bits,
        })
    }
}

/// Palette entry.
#[derive(Clone, Copy, PartialEq, Eq, Structural)]
pub struct PaletteEntry {
    pub red: u8,
    pub green: u8,
    pub blue: u8,
    pub flags: u8,
}

/// The sixteen standard system colours, by index: black, dark red, dark
/// green, dark yellow, dark blue, dark magenta, dark cyan, light gray, dark
/// gray, red, green, yellow, blue, magenta, cyan, white.
pub open spec fn system_color(i: int) -> (u8, u8, u8) {
    if i == 0 { (0, 0, 0) }
    else if i == 1 { (128, 0, 0) }
    else if i == 2 { (0, 128, 0) }
    else if i == 3 { (128, 128, 0) }
    else if i == 4 { (0, 0, 128) }
    else if i == 5 { (128, 0, 128) }
    else if i == 6 { (0, 128, 128) }
    else if i == 7 { (192, 192, 192) }
    else if i == 8 { (128, 128, 128) }
    else if i == 9 { (255, 0, 0) }
    else if i == 10 { (0, 255, 0) }
    else if i == 11 { (255, 255, 0) }
    else if i == 12 { (0, 0, 255) }
    else if i == 13 { (255, 0, 255) }
    else if i == 14 { (0, 255, 255) }
    else if i == 15 { (255, 255, 255) }
    else { (0, 0, 0) }
}

fn system_color_exec(i: usize) -> (r: (u8, u8, u8))
    ensures
        r == system_color(i as int),
{
    match i {
        0 => (0, 0, 0),
        1 => (128, 0, 0),
        2 => (0, 128, 0),
        3 => (128, 128, 0),
        4 => (0, 0, 128),
        5 => (128, 0, 128),
        6 => (0, 128, 128),
        7 => (192, 192, 192),
        8 => (128, 128, 128),
        9 => (255, 0, 0),
        10 => (0, 255, 0),
        11 => (255, 255, 0),
        12 => (0, 0, 255),
        13 => (255, 0, 255),
        14 => (0, 255, 255),
        15 => (255, 255, 255),
        _ => (0, 0, 0),
    }
}

/// Palette object with its 256 entries.
pub struct GdiPalette {
    pub type_: u8,
    pub uses: u8,
    pub flags: u8,
    pub palette_flags: u8,
    pub version: u16,
    pub num_entries: u32,
    pub entries: Vec<PaletteEntry>,
}

impl GdiPalette {
    /// A palette whose first sixteen entries are the system colours and
    /// whose other entries are black.
    pub fn new() -> (r: Self)
        ensures
            r.type_ == 3 && r.uses == 0 && r.flags == 0 && r.palette_flags == 0,
            r.version == 0x0300,
            r.num_entries == 20,
            r.entries@.len() == 256,
            forall|i: int| 0 <= i < 256 ==> {
                let (red, green, blue) = system_color(i);
                #[trigger] r.entries@[i] == PaletteEntry { red, green, blue, flags: 0 }
            },
    {
        let mut entries: Vec<PaletteEntry> = Vec::new();
        let mut i: usize = 0;
        while i < 256
            invariant
                i <= 256,
                entries@.len() == i,
                forall|j: int| 0 <= j < i ==> {
                    let (red, green, blue) = system_color(j);
                    #[trigger] entries@[j] == PaletteEntry { red, green, blue, flags: 0 }
                },
            decreases 256 - i,
        {
            let (red, green, blue) = system_color_exec(i);
            entries.push(PaletteEntry { red, green, blue, flags: 0 });
            i = i + 1;
        }
        GdiPalette {
            type_: GdiObjectType::Palette.to_u8(),
            uses: 0,
            flags: 0,
            palette_flags: 0,
            version: 0x0300,
            num_entries: 20,
            entries,
        }
    }
}

// =============================================================================
// Rectangles
// =============================================================================

/// RECT structure.
#[derive(Clone, Copy, Debug, PartialEq, Eq, Structural)]
pub struct Rect {
    pub left: i32,
    pub top: i32,
    pub right: i32,
    pub bottom: i32,
}

/// The point `(x, y)` lies in `r` (left and top edges included, right and
/// bottom edges excluded).
pub open spec fn rect_contains_spec(r: Rect, x: int, y: int) -> bool {
    r.left <= x < r.right && r.top <= y < r.bottom
}

/// The intersection of two rectangles, or `None` when it has no area.
pub open spec fn rect_intersect_spec(a: Rect, b: Rect) -> Option<Rect> {
    let left = if a.left >= b.left { a.left } else { b.left };
    let top = if a.top >= b.top { a.top } else { b.top };
    let right = if a.right <= b.right { a.right } else { b.right };
    let bottom = if a.bottom <= b.bottom { a.bottom } else { b.bottom };
    if right > left && bottom > top {
        Some(Rect { left, top, right, bottom })
    } else {
        None
    }
}

impl Rect {
    pub fn new(left: i32, top: i32, right: i32, bottom: i32) -> (r: Self)
        ensures
            r == (Rect { left, top, right, bottom }),
    {
        Rect { left, top, right, bottom }
    }

    pub fn width(&self) -> (r: i32)
        requires
            i32::MIN <= self.right - self.left <= i32::MAX,
        ensures
            r == self.right - self.left,
    {
        self.right - self.left
    }

    pub fn height(&self) -> (r: i32)
        requires
            i32::MIN <= self.bottom - self.top <= i32::MAX,
        ensures
            r == self.bottom - self.top,
    {
        self.bottom - self.top
    }

    /// Check if a point is inside the rectangle.
    pub fn contains_point(&self, x: i32, y: i32) -> (r: bool)
        ensures
            r == rect_contains_spec(*self, x as int, y as int),
    {
        x >= self.left && x < self.right && y >= self.top && y < self.bottom
    }

    /// Compute intersection with another rectangle.
    pub fn intersect(&self, other: &Rect) -> (r: Option<Rect>)
        ensures
            r == rect_intersect_spec(*self, *other),
    {
        let left = if self.left >= other.left { self.left } else { other.left };
        let top = if self.top >= other.top { self.top } else { other.top };
        let right = if self.right <= other.right { self.right } else { other.right };
        let bottom = if self.bottom <= other.bottom { self.bottom } else { other.bottom };
        if right > left && bottom > top {
            Some(Rect { left, top, right, bottom })
        } else {
            None
        }
    }

    /// Check if rectangle is empty (zero or negative dimensions).
    pub fn is_empty(&self) -> (r: bool)
        ensures
            r == (self.right <= self.left || self.bottom <= self.top),
    {
        self.right <= self.left || self.bottom <= self.top
    }

    /// Normalize rectangle so left <= right and top <= bottom.
    pub fn normalize(&mut self)
        ensures
            final(self).left == if old(self).left > old(self).right { old(self).right } else { old(self).left },
            final(self).right == if old(self).left > old(self).right { old(self).left } else { old(self).right },
            final(self).top == if old(self).top > old(self).bottom { old(self).bottom } else { old(self).top },
            final(self).bottom == if old(self).top > old(self).bottom { old(self).top } else { old(self).bottom },
    {
        if self.left > self.right {
            let t = self.left;
            self.left = self.right;
            self.right = t;
        }
        if self.top > self.bottom {
            let t = self.top;
            self.top = self.bottom;
            self.bottom = t;
        }
    }

    /// Convert to a 4-element array [left, top, right, bottom].
    pub fn to_array(&self) -> (r: [i32; 4])
        ensures
            r@ == seq![self.left, self.top, self.right, self.bottom],
    {
        let r = [self.left, self.top, self.right, self.bottom];
        assert(r@ =~= seq![self.left, self.top, self.right, self.bottom]);
        r
    }

    /// Create from a 4-element array [left, top, right, bottom].
    pub fn from_array(arr: [i32; 4]) -> (r: Self)
        ensures
            r == (Rect { left: arr@[0], top: arr@[1], right: arr@[2], bottom: arr@[3] }),
    {
        Rect { left: arr[0], top: arr[1], right: arr[2], bottom: arr[3] }
    }
}

/// Intersection does not depend on the order of its arguments, and what it
/// gives lies within both rectangles.
pub proof fn lemma_rect_intersect(a: Rect, b: Rect)
    ensures
        rect_intersect_spec(a, b) == rect_intersect_spec(b, a),
        rect_intersect_spec(a, b) matches Some(r) ==> {
            &&& a.left <= r.left && r.right <= a.right && a.top <= r.top && r.bottom <= a.bottom
            &&& b.left <= r.left && r.right <= b.right && b.top <= r.top && r.bottom <= b.bottom
        },
        forall|x: int, y: int|
            #![trigger rect_contains_spec(a, x, y), rect_contains_spec(b, x, y)]
            rect_contains_spec(a, x, y) && rect_contains_spec(b, x, y) ==> rect_intersect_spec(a, b) is Some,
{
}

/// Reading a rectangle out to an array and back gives the rectangle.
pub proof fn lemma_rect_array_roundtrip(r: Rect)
    ensures
        ({
            let s = seq![r.left, r.top, r.right, r.bottom];
            (Rect { left: s[0], top: s[1], right: s[2], bottom: s[3] }) == r
        }),
{
}

/// Region object.
#[derive(Clone, Copy)]
pub struct GdiRegion {
    pub type_: u8,
    pub uses: u8,
    pub flags: u8,
    pub palette: u8,
    pub size: u64,
    pub num_rects: i32,
    pub extents: Rect,
}

impl GdiRegion {
    /// A region of one rectangle. `size` is the region record's size in the
    /// C layout (40 bytes).
    pub fn new_rect(rect: &Rect) -> (r: Self)
        ensures
            r.type_ == 8 && r.uses == 0 && r.flags == 0 && r.palette == 0,
            r.size == 40,
            r.num_rects == 1,
            r.extents == *rect,
    {
        GdiRegion {
            type_: GdiObjectType::Region.to_u8(),
            uses: 0,
            flags: 0,
            palette: 0,
            size: 40,
            num_rects: 1,
            extents: *rect,
        }
    }
}


// =============================================================================
// GDI object store
// =============================================================================

/// A GDI object as the store holds it.
pub enum GdiObject {
    Pen(GdiPen),
    Brush(GdiBrush),
    Font(GdiFont),
    Bitmap(GdiBitmap),
    Region(GdiRegion),
    Palette(GdiPalette),
}

/// The GDI handle table together with the objects it names. An entry's
/// `obj_ptr` is the object's address in the store: slot `obj_ptr - 1`;
/// `0` is the null address.
pub struct GdiState {
    pub table: GdiHandleTable,
    pub objects: Vec<Option<GdiObject>>,
}

/// The object at address `ptr` of the store `objects`, if there is one.
pub open spec fn object_at(objects: Seq<Option<GdiObject>>, ptr: u64) -> Option<GdiObject> {
    if 1 <= ptr <= objects.len() {
        objects[ptr - 1]
    } else {
        None
    }
}

/// What `allocate` does to a handle table: the entry `e` for an object of
/// type `t` goes to the lowest empty slot or, with no empty slot, to a new
/// last slot (the counter of appended slots moving on); the handle `r`
/// carries the type's prefix and the index of that slot.
pub open spec fn allocate_post(
    old_entries: Seq<Option<GdiHandleEntry>>,
    old_next: u64,
    new_entries: Seq<Option<GdiHandleEntry>>,
    new_next: u64,
    t: GdiObjectType,
    e: GdiHandleEntry,
    r: u64,
) -> bool {
    ||| exists|i: int| #![trigger is_first_free(old_entries, i)] {
        &&& is_first_free(old_entries, i)
        &&& new_entries == old_entries.update(i, Some(e))
        &&& r == make_handle(t, i as u64)
        &&& new_next == old_next
    }
    ||| {
        &&& all_full(old_entries)
        &&& new_entries == old_entries.push(Some(e))
        &&& r == make_handle(t, old_entries.len() as u64)
        &&& new_next == (if old_next == u64::MAX { 0 } else { (old_next + 1) as u64 })
    }
}

impl GdiState {
    pub fn new() -> (r: Self)
        ensures
            r.table.entries@ == Seq::<Option<GdiHandleEntry>>::empty(),
            r.table.next_index == 1,
            r.objects@ == Seq::<Option<GdiObject>>::empty(),
    {
        GdiState { table: GdiHandleTable::new(), objects: Vec::new() }
    }

    /// Place an object in the store and register it under a new handle of
    /// type `t` owned by the system (process 0).
    fn register(&mut self, t: GdiObjectType, obj: GdiObject) -> (r: u64)
        requires
            old(self).objects@.len() < u64::MAX,
        ensures
            final(self).objects@ == old(self).objects@.push(Some(obj)),
            allocate_post(
                old(self).table.entries@,
                old(self).table.next_index,
                final(self).table.entries@,
                final(self).table.next_index,
                t,
                new_entry_spec(t, (old(self).objects@.len() + 1) as u64, 0),
                r,
            ),
    {
        self.objects.push(Some(obj));
        let ptr = self.objects.len() as u64;
        self.table.allocate(t, ptr, 0)
    }
}

/// Create a pen.
#[allow(non_snake_case)]
pub fn GdiCreatePen(gdi: &mut GdiState, style: PenStyle, width: i32, color: u32) -> (r: u64)
    requires
        old(gdi).objects@.len() < u64::MAX,
    ensures
        final(gdi).objects@.len() == old(gdi).objects@.len() + 1,
        final(gdi).objects@.drop_last() == old(gdi).objects@,
        final(gdi).objects@.last() matches Some(GdiObject::Pen(p)) && p.color == color && p.width == width
            && p.style == pen_style_num(style) && p.type_ == 5 && p.uses == 0,
        allocate_post(
            old(gdi).table.entries@,
            old(gdi).table.next_index,
            final(gdi).table.entries@,
            final(gdi).table.next_index,
            GdiObjectType::Pen,
            new_entry_spec(GdiObjectType::Pen, final(gdi).objects@.len() as u64, 0),
            r,
        ),
{
    let pen = GdiPen::new(style, width, color);
    gdi.register(GdiObjectType::Pen, GdiObject::Pen(pen))
}

/// Create a solid brush.
#[allow(non_snake_case)]
pub fn GdiCreateSolidBrush(gdi: &mut GdiState, color: u32) -> (r: u64)
    requires
        old(gdi).objects@.len() < u64::MAX,
    ensures
        final(gdi).objects@.len() == old(gdi).objects@.len() + 1,
        final(gdi).objects@.drop_last() == old(gdi).objects@,
        final(gdi).objects@.last() matches Some(GdiObject::Brush(b)) && b.color == color && b.style == 0
            && b.hatch == 0 && b.type_ == 7,
        allocate_post(
            old(gdi).table.entries@,
            old(gdi).table.next_index,
            final(gdi).table.entries@,
            final(gdi).table.next_index,
            GdiObjectType::Brush,
            new_entry_spec(GdiObjectType::Brush, final(gdi).objects@.len() as u64, 0),
            r,
        ),
{
    let brush = GdiBrush::new_solid(color);
    gdi.register(GdiObjectType::Brush, GdiObject::Brush(brush))
}

/// Create a hatched brush.
#[allow(non_snake_case)]
pub fn GdiCreateHatchBrush(gdi: &mut GdiState, style: HatchStyle, color: u32) -> (r: u64)
    requires
        old(gdi).objects@.len() < u64::MAX,
    ensures
        final(gdi).objects@.len() == old(gdi).objects@.len() + 1,
        final(gdi).objects@.drop_last() == old(gdi).objects@,
        final(gdi).objects@.last() matches Some(GdiObject::Brush(b)) && b.color == color && b.style == 2
            && b.hatch == hatch_num(style) && b.type_ == 7,
        allocate_post(
            old(gdi).table.entries@,
            old(gdi).table.next_index,
            final(gdi).table.entries@,
            final(gdi).table.next_index,
            GdiObjectType::Brush,
            new_entry_spec(GdiObjectType::Brush, final(gdi).objects@.len() as u64, 0),
            r,
        ),
{
    let brush = GdiBrush::new_hatched(style, color);
    gdi.register(GdiObjectType::Brush, GdiObject::Brush(brush))
}

/// Create a font.
#[allow(non_snake_case)]
pub fn GdiCreateFont(gdi: &mut GdiState, height: i32, width: i32, weight: i32, italic: bool, face_name: &[u16]) -> (r: u64)
    requires
        old(gdi).objects@.len() < u64::MAX,
    ensures
        final(gdi).objects@.len() == old(gdi).objects@.len() + 1,
        final(gdi).objects@.drop_last() == old(gdi).objects@,
        final(gdi).objects@.last() matches Some(GdiObject::Font(f)) && f.height == height && f.width == width
            && f.weight == weight && f.italic == (if italic { 1u8 } else { 0u8 })
            && f.face_name@ == face_name_after(Seq::new(32, |i: int| 0u16), face_name@) && f.type_ == 4,
        allocate_post(
            old(gdi).table.entries@,
            old(gdi).table.next_index,
            final(gdi).table.entries@,
            final(gdi).table.next_index,
            GdiObjectType::Font,
            new_entry_spec(GdiObjectType::Font, final(gdi).objects@.len() as u64, 0),
            r,
        ),
{
    let mut f = GdiFont::new();
    f.height = height;
    f.width = width;
    f.weight = weight;
    f.italic = if italic { 1 } else { 0 };
    f.set_face_name(face_name);
    gdi.register(GdiObjectType::Font, GdiObject::Font(f))
}

/// Create a bitmap (inputs whose sizes overflow 32 bits are left out).
#[allow(non_snake_case)]
pub fn GdiCreateBitmap(gdi: &mut GdiState, width: i32, height: i32, bit_count: u16) -> (r: u64)
    requires
        old(gdi).objects@.len() < u64::MAX,
        0 <= width * bit_count + 31 <= i32::MAX,
        height > i32::MIN,
        0 <= bitmap_width_bytes(width as int, bit_count as int) * abs_int(height as int) <= i32::MAX,
    ensures
        final(gdi).objects@.len() == old(gdi).objects@.len() + 1,
        final(gdi).objects@.drop_last() == old(gdi).objects@,
        final(gdi).objects@.last() matches Some(GdiObject::Bitmap(b)) && b.width == width && b.height == height
            && b.bit_count == bit_count && b.width_bytes == bitmap_width_bytes(width as int, bit_count as int),
        allocate_post(
            old(gdi).table.entries@,
            old(gdi).table.next_index,
            final(gdi).table.entries@,
            final(gdi).table.next_index,
            GdiObjectType::Bitmap,
            new_entry_spec(GdiObjectType::Bitmap, final(gdi).objects@.len() as u64, 0),
            r,
        ),
{
    let b = GdiBitmap::new(width, height, bit_count);
    match b {
        Some(bitmap) => gdi.register(GdiObjectType::Bitmap, GdiObject::Bitmap(bitmap)),
        None => 0,
    }
}

/// Create a region from a rectangle.
#[allow(non_snake_case)]
pub fn GdiCreateRectRgn(gdi: &mut GdiState, left: i32, top: i32, right: i32, bottom: i32) -> (r: u64)
    requires
        old(gdi).objects@.len() < u64::MAX,
    ensures
        final(gdi).objects@.len() == old(gdi).objects@.len() + 1,
        final(gdi).objects@.drop_last() == old(gdi).objects@,
        final(gdi).objects@.last() matches Some(GdiObject::Region(g)) && g.num_rects == 1
            && g.extents == (Rect { left, top, right, bottom }) && g.type_ == 8,
        allocate_post(
            old(gdi).table.entries@,
            old(gdi).table.next_index,
            final(gdi).table.entries@,
            final(gdi).table.next_index,
            GdiObjectType::Region,
            new_entry_spec(GdiObjectType::Region, final(gdi).objects@.len() as u64, 0),
            r,
        ),
{
    let rect = Rect::new(left, top, right, bottom);
    let rgn = GdiRegion::new_rect(&rect);
    gdi.register(GdiObjectType::Region, GdiObject::Region(rgn))
}

/// Create a palette.
#[allow(non_snake_case)]
pub fn GdiCreatePalette(gdi: &mut GdiState) -> (r: u64)
    requires
        old(gdi).objects@.len() < u64::MAX,
    ensures
        final(gdi).objects@.len() == old(gdi).objects@.len() + 1,
        final(gdi).objects@.drop_last() == old(gdi).objects@,
        final(gdi).objects@.last() matches Some(GdiObject::Palette(p)) && p.num_entries == 20
            && p.entries@.len() == 256 && p.type_ == 3,
        allocate_post(
            old(gdi).table.entries@,
            old(gdi).table.next_index,
            final(gdi).table.entries@,
            final(gdi).table.next_index,
            GdiObjectType::Palette,
            new_entry_spec(GdiObjectType::Palette, final(gdi).objects@.len() as u64, 0),
            r,
        ),
{
    let p = GdiPalette::new();
    gdi.register(GdiObjectType::Palette, GdiObject::Palette(p))
}

/// Delete a GDI object: the handle must be valid; its object leaves the
/// store and its slot is emptied.
#[allow(non_snake_case)]
pub fn GdiDeleteObject(gdi: &mut GdiState, handle: u64) -> (r: bool)
    ensures
        r == (handle != 0 && old(gdi).table.lookup(handle) is Some),
        r ==> ({
            let e = old(gdi).table.lookup(handle).unwrap();
            &&& final(gdi).table.entries@ == old(gdi).table.entries@.update(handle_index(handle) as int, None)
            &&& final(gdi).objects@ == if 1 <= e.obj_ptr <= old(gdi).objects@.len() {
                old(gdi).objects@.update(e.obj_ptr - 1, None)
            } else {
                old(gdi).objects@
            }
        }),
        !r ==> final(gdi).table.entries@ == old(gdi).table.entries@ && final(gdi).objects@ == old(gdi).objects@,
        final(gdi).table.next_index == old(gdi).table.next_index,
{
    if handle == 0 {
        return false;
    }
    let ptr = match gdi.table.get(handle) {
        Some(e) => e.obj_ptr,
        None => {
            return false;
        },
    };
    if ptr >= 1 && ptr <= gdi.objects.len() as u64 {
        gdi.objects.set((ptr - 1) as usize, None);
    }
    proof {
        lemma_index_bits(handle);
    }
    let _ = gdi.table.free(handle);
    true
}

/// Once deleted, a handle no longer names anything.
pub proof fn lemma_deleted_handle_invalid(
    entries: Seq<Option<GdiHandleEntry>>,
    handle: u64,
)
    requires
        lookup_spec(entries, handle) is Some,
    ensures
        lookup_spec(entries.update(handle_index(handle) as int, None), handle) is None,
{
}

/// A handle given out for a recycled slot names the new entry.
pub proof fn lemma_recycled_handle_valid(
    entries: Seq<Option<GdiHandleEntry>>,
    i: int,
    t: GdiObjectType,
    ptr: u64,
    pid: u32,
)
    requires
        is_first_free(entries, i),
        i <= 0xFFFF,
    ensures
        lookup_spec(entries.update(i, Some(new_entry_spec(t, ptr, pid))), make_handle(t, i as u64))
            == Some(new_entry_spec(t, ptr, pid)),
{
    let h = make_handle(t, i as u64);
    let p = prefix_spec(t);
    let iu = i as u64;
    assert(0x4001 <= p <= 0x400B);
    assert(((((p as u64) << 16u64) | iu) & 0xFFFF) == iu && ((((p as u64) << 16u64) | iu) >> 16u64) as u32 == p)
        by (bit_vector)
        requires
            iu <= 0xFFFF,
            p <= 0xFFFF,
    ;
}

/// A handle that `allocate` gives out names the entry it made, as long as
/// the table held fewer than 0x10000 slots (an index must fit 16 bits).
pub proof fn lemma_allocated_handle_names_entry(
    old_entries: Seq<Option<GdiHandleEntry>>,
    old_next: u64,
    new_entries: Seq<Option<GdiHandleEntry>>,
    new_next: u64,
    t: GdiObjectType,
    ptr: u64,
    pid: u32,
    r: u64,
)
    requires
        allocate_post(old_entries, old_next, new_entries, new_next, t, new_entry_spec(t, ptr, pid), r),
        old_entries.len() <= 0xFFFF,
    ensures
        lookup_spec(new_entries, r) == Some(new_entry_spec(t, ptr, pid)),
{
    if exists|i: int| #![trigger is_first_free(old_entries, i)] {
        &&& is_first_free(old_entries, i)
        &&& new_entries == old_entries.update(i, Some(new_entry_spec(t, ptr, pid)))
        &&& r == make_handle(t, i as u64)
    } {
        let i = choose|i: int| #![trigger is_first_free(old_entries, i)] {
            &&& is_first_free(old_entries, i)
            &&& new_entries == old_entries.update(i, Some(new_entry_spec(t, ptr, pid)))
            &&& r == make_handle(t, i as u64)
        };
        lemma_recycled_handle_valid(old_entries, i, t, ptr, pid);
    } else {
        let n = old_entries.len();
        let p = prefix_spec(t);
        let iu = n as u64;
        lemma_obj_type_roundtrip(t);
        assert(0x4001 <= p <= 0x400B);
        assert(((((p as u64) << 16u64) | iu) & 0xFFFF) == iu && ((((p as u64) << 16u64) | iu) >> 16u64) as u32 == p)
            by (bit_vector)
            requires
                iu <= 0xFFFF,
                p <= 0xFFFF,
        ;
        assert(new_entries[n as int] == Some(new_entry_spec(t, ptr, pid)));
    }
}

/// Get object pointer from handle.
#[allow(non_snake_case)]
pub fn GdiGetObjectPtr(gdi: &GdiState, handle: u64) -> (r: Option<u64>)
    ensures
        r == match gdi.table.lookup(handle) {
            Some(e) => Some(e.obj_ptr),
            None => None,
        },
{
    match gdi.table.get(handle) {
        Some(e) => Some(e.obj_ptr),
        None => None,
    }
}

/// Validate a GDI handle: it must name an entry whose object pointer is not
/// null; gives that pointer.
#[allow(non_snake_case)]
pub fn GdiValidateHandle(gdi: &GdiState, handle: u64) -> (r: Option<u64>)
    ensures
        r == match gdi.table.lookup(handle) {
            Some(e) => if e.obj_ptr != 0 { Some(e.obj_ptr) } else { None },
            None => None,
        },
{
    match gdi.table.get(handle) {
        Some(e) => if e.obj_ptr != 0 { Some(e.obj_ptr) } else { None },
        None => None,
    }
}

/// Validate a GDI handle for a process: as `GdiValidateHandle`, and the
/// entry must belong to `process_id` or to the system (process 0).
#[allow(non_snake_case)]
pub fn GdiValidateHandleForProcess(gdi: &GdiState, handle: u64, process_id: u32) -> (r: Option<u64>)
    ensures
        r == match gdi.table.lookup(handle) {
            Some(e) => if (e.process_id == process_id || e.process_id == 0) && e.obj_ptr != 0 {
                Some(e.obj_ptr)
            } else {
                None
            },
            None => None,
        },
{
    match gdi.table.get(handle) {
        Some(e) => {
            if e.process_id == process_id || e.process_id == 0 {
                if e.obj_ptr != 0 {
                    return Some(e.obj_ptr);
                }
            }
            None
        },
        None => None,
    }
}

/// Check if a handle is valid (exists and type matches).
#[allow(non_snake_case)]
pub fn GdiIsHandleValid(gdi: &GdiState, handle: u64) -> (r: bool)
    ensures
        r == gdi.table.lookup(handle) is Some,
{
    gdi.table.get(handle).is_some()
}

/// Get object type from handle.
#[allow(non_snake_case)]
pub fn GdiGetObjectType(gdi: &GdiState, handle: u64) -> (r: Option<GdiObjectType>)
    ensures
        r == match gdi.table.lookup(handle) {
            Some(e) => obj_type_of(e.obj_type),
            None => None,
        },
{
    match gdi.table.get(handle) {
        Some(e) => e.get_type(),
        None => None,
    }
}

/// Get a copy of the handle entry.
#[allow(non_snake_case)]
pub fn GdiGetHandleEntry(gdi: &GdiState, handle: u64) -> (r: Option<GdiHandleEntry>)
    ensures
        r == gdi.table.lookup(handle),
{
    match gdi.table.get(handle) {
        Some(e) => Some(*e),
        None => None,
    }
}

/// The colour `GdiGetPenColor` reports: the pen's colour when the handle
/// names a pen entry whose object is a pen, else 0.
pub open spec fn pen_color_spec(gdi: &GdiState, handle: u64) -> u32 {
    match gdi.table.lookup(handle) {
        Some(e) => if obj_type_of(e.obj_type) == Some(GdiObjectType::Pen) {
            match object_at(gdi.objects@, e.obj_ptr) {
                Some(GdiObject::Pen(p)) => p.color,
                _ => 0,
            }
        } else {
            0
        },
        None => 0,
    }
}

/// The width `GdiGetPenWidth` reports: the pen's width, or 1.
pub open spec fn pen_width_spec(gdi: &GdiState, handle: u64) -> i32 {
    match gdi.table.lookup(handle) {
        Some(e) => if obj_type_of(e.obj_type) == Some(GdiObjectType::Pen) {
            match object_at(gdi.objects@, e.obj_ptr) {
                Some(GdiObject::Pen(p)) => p.width,
                _ => 1,
            }
        } else {
            1
        },
        None => 1,
    }
}

/// The colour `GdiGetBrushColor` reports: the brush's colour, or 0.
pub open spec fn brush_color_spec(gdi: &GdiState, handle: u64) -> u32 {
    match gdi.table.lookup(handle) {
        Some(e) => if obj_type_of(e.obj_type) == Some(GdiObjectType::Brush) {
            match object_at(gdi.objects@, e.obj_ptr) {
                Some(GdiObject::Brush(b)) => b.color,
                _ => 0,
            }
        } else {
            0
        },
        None => 0,
    }
}

fn object_at_exec(gdi: &GdiState, ptr: u64) -> (r: Option<&GdiObject>)
    ensures
        match r {
            Some(o) => object_at(gdi.objects@, ptr) == Some(*o),
            None => object_at(gdi.objects@, ptr) is None,
        },
{
    if ptr >= 1 && ptr <= gdi.objects.len() as u64 {
        match &gdi.objects[(ptr - 1) as usize] {
            Some(o) => Some(o),
            None => None,
        }
    } else {
        None
    }
}

/// Get pen color.
#[allow(non_snake_case)]
pub fn GdiGetPenColor(gdi: &GdiState, handle: u64) -> (r: u32)
    ensures
        r == pen_color_spec(gdi, handle),
{
    match gdi.table.get(handle) {
        Some(e) => {
            if e.get_type() == Some(GdiObjectType::Pen) {
                match object_at_exec(gdi, e.obj_ptr) {
                    Some(GdiObject::Pen(p)) => p.color,
                    _ => 0,
                }
            } else {
                0
            }
        },
        None => 0,
    }
}

/// Get pen width.
#[allow(non_snake_case)]
pub fn GdiGetPenWidth(gdi: &GdiState, handle: u64) -> (r: i32)
    ensures
        r == pen_width_spec(gdi, handle),
{
    match gdi.table.get(handle) {
        Some(e) => {
            if e.get_type() == Some(GdiObjectType::Pen) {
                match object_at_exec(gdi, e.obj_ptr) {
                    Some(GdiObject::Pen(p)) => p.width,
                    _ => 1,
                }
            } else {
                1
            }
        },
        None => 1,
    }
}

/// Get brush color.
#[allow(non_snake_case)]
pub fn GdiGetBrushColor(gdi: &GdiState, handle: u64) -> (r: u32)
    ensures
        r == brush_color_spec(gdi, handle),
{
    match gdi.table.get(handle) {
        Some(e) => {
            if e.get_type() == Some(GdiObjectType::Brush) {
                match object_at_exec(gdi, e.obj_ptr) {
                    Some(GdiObject::Brush(b)) => b.color,
                    _ => 0,
                }
            } else {
                0
            }
        },
        None => 0,
    }
}

/// Stock object handles (Windows system objects).
pub const STOCK_OBJECT_BLACK_BRUSH: u64 = 0x40000004;
pub const STOCK_OBJECT_WHITE_BRUSH: u64 = 0x40000005;
pub const STOCK_OBJECT_HOLLOW_BRUSH: u64 = 0x40000006;
pub const STOCK_OBJECT_BLACK_PEN: u64 = 0x40000007;
pub const STOCK_OBJECT_WHITE_PEN: u64 = 0x40000008;
pub const STOCK_OBJECT_NULL_PEN: u64 = 0x40000009;
pub const STOCK_OBJECT_SYSTEM_FONT: u64 = 0x4000000A;

/// Initialize stock objects: the stock handles are fixed values, so there
/// is nothing to set up.
pub fn init_stock_objects() {
}

/// Get a stock object: BLACK_BRUSH (0), WHITE_BRUSH (1), BLACK_PEN (4),
/// WHITE_PEN (5), NULL_PEN (6); 0 for anything else.
#[allow(non_snake_case)]
pub fn GdiGetStockObject(object_type: i32) -> (r: u64)
    ensures
        r == (if object_type == 0 {
            STOCK_OBJECT_BLACK_BRUSH
        } else if object_type == 1 {
            STOCK_OBJECT_WHITE_BRUSH
        } else if object_type == 4 {
            STOCK_OBJECT_BLACK_PEN
        } else if object_type == 5 {
            STOCK_OBJECT_WHITE_PEN
        } else if object_type == 6 {
            STOCK_OBJECT_NULL_PEN
        } else {
            0
        }),
{
    match object_type {
        0 => STOCK_OBJECT_BLACK_BRUSH,
        1 => STOCK_OBJECT_WHITE_BRUSH,
        4 => STOCK_OBJECT_BLACK_PEN,
        5 => STOCK_OBJECT_WHITE_PEN,
        6 => STOCK_OBJECT_NULL_PEN,
        _ => 0,
    }
}

/// Select an object into a DC (increment usage).
#[allow(non_snake_case)]
pub fn GdiSelectObject(gdi: &mut GdiState, handle: u64) -> (r: bool)
    ensures
        r == old(gdi).table.lookup(handle) is Some,
        final(gdi).objects@ == old(gdi).objects@,
        final(gdi).table.next_index == old(gdi).table.next_index,
        r ==> final(gdi).table.entries@ == old(gdi).table.entries@.update(
            handle_index(handle) as int,
            Some(GdiHandleEntry {
                uses: if old(gdi).table.lookup(handle).unwrap().uses == 255 {
                    255u8
                } else {
                    (old(gdi).table.lookup(handle).unwrap().uses + 1) as u8
                },
                ..old(gdi).table.lookup(handle).unwrap()
            }),
        ),
        !r ==> final(gdi).table.entries@ == old(gdi).table.entries@,
{
    gdi.table.add_ref(handle)
}

/// Unselect an object from a DC (decrement usage).
#[allow(non_snake_case)]
pub fn GdiUnselectObject(gdi: &mut GdiState, handle: u64)
    ensures
        final(gdi).objects@ == old(gdi).objects@,
        final(gdi).table.next_index == old(gdi).table.next_index,
        old(gdi).table.lookup(handle) is Some ==> final(gdi).table.entries@ == old(gdi).table.entries@.update(
            handle_index(handle) as int,
            Some(GdiHandleEntry {
                uses: if old(gdi).table.lookup(handle).unwrap().uses == 0 {
                    0u8
                } else {
                    (old(gdi).table.lookup(handle).unwrap().uses - 1) as u8
                },
                ..old(gdi).table.lookup(handle).unwrap()
            }),
        ),
        old(gdi).table.lookup(handle) is None ==> final(gdi).table.entries@ == old(gdi).table.entries@,
{
    let _ = gdi.table.release(handle);
}

/// Handle table statistics: (slots in use, slots in all).
pub fn dump_handle_stats(gdi: &GdiState) -> (r: (usize, usize))
    ensures
        r.1 == gdi.table.entries@.len(),
        r.0 == gdi.table.entries@.filter(|e: Option<GdiHandleEntry>| e is Some).len(),
{
    let mut used: usize = 0;
    let mut i: usize = 0;
    while i < gdi.table.entries.len()
        invariant
            i <= gdi.table.entries@.len(),
            used == gdi.table.entries@.take(i as int).filter(|e: Option<GdiHandleEntry>| e is Some).len(),
            used <= i,
        decreases gdi.table.entries@.len() - i,
    {
        proof {
            reveal_with_fuel(Seq::filter, 1);
            assert(gdi.table.entries@.take(i + 1).drop_last() =~= gdi.table.entries@.take(i as int));
        }
        if gdi.table.entries[i].is_some() {
            used = used + 1;
        }
        i = i + 1;
    }
    assert(gdi.table.entries@.take(i as int) =~= gdi.table.entries@);
    (used, gdi.table.entries.len())
}

} // verus!
