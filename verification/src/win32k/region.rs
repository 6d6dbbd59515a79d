//! Regions and clipping: rectangle regions kept as GDI objects, their
//! combination and queries, and the clipping state of DCs.
//!
//! A region is described by its bounding box (`extents`) and a rectangle
//! count that classifies it as null, simple or complex.

use vstd::prelude::*;
use crate::win32k::objects::{Rect, GdiRegion, GdiObject, GdiState, GdiCreateRectRgn, GdiDeleteObject, GdiGetObjectPtr,
    allocate_post, handle_index, new_entry_spec};
use crate::win32k::dc::{DcHandleTable, DcObject, dc_replaced};

verus! {

/// Region combination modes.
#[derive(Debug, Clone, Copy, PartialEq, Eq, Structural)]
pub enum RegionCombineMode {
    Copy,
    Union,
    Xor,
    Intersection,
    Difference,
}

impl RegionCombineMode {
    pub open spec fn code(self) -> i32 {
        match self {
            RegionCombineMode::Copy => 0,
            RegionCombineMode::Union => 1,
            RegionCombineMode::Xor => 2,
            RegionCombineMode::Intersection => 3,
            RegionCombineMode::Difference => 4,
        }
    }

    /// The mode's number.
    pub fn value(&self) -> (r: i32)
        ensures
            r == self.code(),
    {
        match self {
            RegionCombineMode::Copy => 0,
            RegionCombineMode::Union => 1,
            RegionCombineMode::Xor => 2,
            RegionCombineMode::Intersection => 3,
            RegionCombineMode::Difference => 4,
        }
    }
}

/// Region type (what combining gives back).
#[derive(Debug, Clone, Copy, PartialEq, Eq, Structural)]
pub enum RegionType {
    Null,
    Simple,
    Complex,
}

impl RegionType {
    pub open spec fn code(self) -> i32 {
        match self {
            RegionType::Null => 0,
            RegionType::Simple => 1,
            RegionType::Complex => 2,
        }
    }

    /// The type's number.
    pub fn value(&self) -> (r: i32)
        ensures
            r == self.code(),
    {
        match self {
            RegionType::Null => 0,
            RegionType::Simple => 1,
            RegionType::Complex => 2,
        }
    }
}

/// The most rectangles a region record holds.
pub const MAX_RECTANGLES: usize = 256;

/// Region record: a count of rectangles in use, their bounding box, and
/// the rectangles.
pub struct GdiRegionData {
    pub count: i32,
    pub extents: Rect,
    pub rects: [Rect; 256],
}

impl GdiRegionData {
    /// No rectangles; every rectangle and the extents are empty.
    pub fn new() -> (r: Self)
        ensures
            r.count == 0,
            r.extents == (Rect { left: 0, top: 0, right: 0, bottom: 0 }),
            forall|i: int| 0 <= i < 256 ==> r.rects@[i] == (Rect { left: 0, top: 0, right: 0, bottom: 0 }),
    {
        let z = Rect::new(0, 0, 0, 0);
        GdiRegionData { count: 0, extents: z, rects: [z; 256] }
    }
}

/// Region handle wrapper.
pub struct RegionHandle {
    pub data: Box<GdiRegionData>,
}

impl RegionHandle {
    /// An empty region.
    pub fn new() -> (r: Self)
        ensures
            r.data.count == 0,
            r.data.extents == (Rect { left: 0, top: 0, right: 0, bottom: 0 }),
    {
        RegionHandle { data: Box::new(GdiRegionData::new()) }
    }

    /// The region of one rectangle.
    pub fn from_rect(rect: &Rect) -> (r: Self)
        ensures
            r.data.count == 1,
            r.data.extents == *rect,
            r.data.rects@[0] == *rect,
    {
        let mut data = GdiRegionData::new();
        data.count = 1;
        data.extents = *rect;
        data.rects[0] = *rect;
        RegionHandle { data: Box::new(data) }
    }
}

// =============================================================================
// Rectangle helpers
// =============================================================================

pub open spec fn empty_rect(r: Rect) -> bool {
    r.left >= r.right || r.top >= r.bottom
}

/// The rectangle has no area.
fn is_empty_rect(rect: &Rect) -> (r: bool)
    ensures
        r == empty_rect(*rect),
{
    rect.left >= rect.right || rect.top >= rect.bottom
}

/// `inner` lies within `outer`.
fn rect_contains(outer: &Rect, inner: &Rect) -> (r: bool)
    ensures
        r == (inner.left >= outer.left && inner.right <= outer.right && inner.top >= outer.top && inner.bottom <= outer.bottom),
{
    inner.left >= outer.left && inner.right <= outer.right && inner.top >= outer.top && inner.bottom <= outer.bottom
}

pub open spec fn intersect_spec(a: Rect, b: Rect) -> bool {
    !(a.right <= b.left || a.left >= b.right || a.bottom <= b.top || a.top >= b.bottom)
}

/// The two rectangles share area.
fn rects_intersect(a: &Rect, b: &Rect) -> (r: bool)
    ensures
        r == intersect_spec(*a, *b),
{
    !(a.right <= b.left || a.left >= b.right || a.bottom <= b.top || a.top >= b.bottom)
}

pub open spec fn imax(a: i32, b: i32) -> i32 {
    if a >= b { a } else { b }
}

pub open spec fn imin(a: i32, b: i32) -> i32 {
    if a <= b { a } else { b }
}

/// The common part of two rectangles, when they share area.
fn rect_intersection(a: &Rect, b: &Rect) -> (r: Option<Rect>)
    ensures
        r == if intersect_spec(*a, *b) {
            Some(Rect { left: imax(a.left, b.left), top: imax(a.top, b.top), right: imin(a.right, b.right),
                bottom: imin(a.bottom, b.bottom) })
        } else {
            None::<Rect>
        },
{
    if !rects_intersect(a, b) {
        return None;
    }
    Some(Rect::new(
        if a.left >= b.left { a.left } else { b.left },
        if a.top >= b.top { a.top } else { b.top },
        if a.right <= b.right { a.right } else { b.right },
        if a.bottom <= b.bottom { a.bottom } else { b.bottom },
    ))
}

/// The two rectangles overlap.
fn rects_overlap(a: &Rect, b: &Rect) -> (r: bool)
    ensures
        r == (a.left < b.right && a.right > b.left && a.top < b.bottom && a.bottom > b.top),
{
    a.left < b.right && a.right > b.left && a.top < b.bottom && a.bottom > b.top
}

/// The bounding box of two rectangles.
pub open spec fn bounds_union(a: Rect, b: Rect) -> Rect {
    Rect { left: imin(a.left, b.left), top: imin(a.top, b.top), right: imax(a.right, b.right), bottom: imax(a.bottom, b.bottom) }
}

/// The box both rectangles cover, when it has area.
pub open spec fn bounds_intersection(a: Rect, b: Rect) -> Option<Rect> {
    let l = imax(a.left, b.left);
    let t = imax(a.top, b.top);
    let r = imin(a.right, b.right);
    let bt = imin(a.bottom, b.bottom);
    if r > l && bt > t { Some(Rect { left: l, top: t, right: r, bottom: bt }) } else { None }
}

/// Add a rectangle to a region record: an empty rectangle changes nothing;
/// the first rectangle becomes the whole region; otherwise the first
/// rectangle it overlaps grows to cover it, or (with room left) it is
/// appended; the extents grow to cover it.
fn add_rect_to_region(region: &mut GdiRegionData, rect: &Rect)
    requires
        0 <= old(region).count <= 256,
    ensures
        0 <= final(region).count <= 256,
        empty_rect(*rect) ==> final(region).count == old(region).count && final(region).extents == old(region).extents
            && final(region).rects@ == old(region).rects@,
        !empty_rect(*rect) && old(region).count == 0 ==> final(region).count == 1 && final(region).extents == *rect
            && final(region).rects@ == old(region).rects@.update(0, *rect),
        !empty_rect(*rect) && old(region).count > 0 ==> final(region).extents == bounds_union(old(region).extents, *rect),
{
    if is_empty_rect(rect) {
        return;
    }
    if region.count == 0 {
        region.count = 1;
        region.extents = *rect;
        region.rects[0] = *rect;
        return;
    }
    let mut merged = false;
    let n = region.count as usize;
    let mut i: usize = 0;
    while i < n
        invariant
            n == old(region).count,
            1 <= n <= 256,
            i <= n,
            region.count == old(region).count,
            region.extents == old(region).extents,
        decreases n - i,
    {
        let cur = region.rects[i];
        if rects_overlap(&cur, rect) {
            let nl = if cur.left <= rect.left { cur.left } else { rect.left };
            let nt = if cur.top <= rect.top { cur.top } else { rect.top };
            let nr = if cur.right >= rect.right { cur.right } else { rect.right };
            let nb = if cur.bottom >= rect.bottom { cur.bottom } else { rect.bottom };
            region.rects[i] = Rect::new(nl, nt, nr, nb);
            merged = true;
            break;
        }
        i = i + 1;
    }
    if !merged && region.count < 256 {
        let c = region.count as usize;
        region.rects[c] = *rect;
        region.count = region.count + 1;
    }
    let e = region.extents;
    region.extents = Rect::new(
        if e.left <= rect.left { e.left } else { rect.left },
        if e.top <= rect.top { e.top } else { rect.top },
        if e.right >= rect.right { e.right } else { rect.right },
        if e.bottom >= rect.bottom { e.bottom } else { rect.bottom },
    );
}

/// The bounding box of two regions.
fn compute_union_bounds(r1: &GdiRegion, r2: &GdiRegion) -> (r: Rect)
    ensures
        r == bounds_union(r1.extents, r2.extents),
{
    Rect::new(
        if r1.extents.left <= r2.extents.left { r1.extents.left } else { r2.extents.left },
        if r1.extents.top <= r2.extents.top { r1.extents.top } else { r2.extents.top },
        if r1.extents.right >= r2.extents.right { r1.extents.right } else { r2.extents.right },
        if r1.extents.bottom >= r2.extents.bottom { r1.extents.bottom } else { r2.extents.bottom },
    )
}

/// The box both regions' extents cover, when it has area.
fn compute_intersection_bounds(r1: &GdiRegion, r2: &GdiRegion) -> (r: Option<Rect>)
    ensures
        r == bounds_intersection(r1.extents, r2.extents),
{
    let left = if r1.extents.left >= r2.extents.left { r1.extents.left } else { r2.extents.left };
    let top = if r1.extents.top >= r2.extents.top { r1.extents.top } else { r2.extents.top };
    let right = if r1.extents.right <= r2.extents.right { r1.extents.right } else { r2.extents.right };
    let bottom = if r1.extents.bottom <= r2.extents.bottom { r1.extents.bottom } else { r2.extents.bottom };
    if right > left && bottom > top {
        Some(Rect::new(left, top, right, bottom))
    } else {
        None
    }
}

/// The part of `a` inside `clip`, when it has area.
pub open spec fn clip_part(a: Rect, clip: Rect) -> Option<Rect> {
    let inter = Rect { left: imax(a.left, clip.left), top: imax(a.top, clip.top), right: imin(a.right, clip.right),
        bottom: imin(a.bottom, clip.bottom) };
    if intersect_spec(a, clip) && !empty_rect(inter) { Some(inter) } else { None }
}

/// The parts inside `clip` of the rectangles of `s` that have any, in order.
pub open spec fn clip_rects(s: Seq<Rect>, clip: Rect) -> Seq<Rect>
    decreases s.len(),
{
    if s.len() == 0 {
        Seq::empty()
    } else {
        let prev = clip_rects(s.drop_last(), clip);
        match clip_part(s.last(), clip) {
            Some(p) => prev.push(p),
            None => prev,
        }
    }
}

/// The bounding box of the first `j` rectangles of `s` (`j >= 1`).
pub open spec fn bbox_prefix(s: Seq<Rect>, j: int) -> Rect
    decreases j,
{
    if j <= 1 {
        s[0]
    } else {
        bounds_union(bbox_prefix(s, j - 1), s[j - 1])
    }
}

/// Keep only the parts of the region record's rectangles that lie in
/// `rect`, packed to the front, and recompute the extents from them.
fn intersect_region_with_rect(region: &mut GdiRegionData, rect: &Rect)
    requires
        0 <= old(region).count <= 256,
    ensures
        final(region).count == clip_rects(old(region).rects@.take(old(region).count as int), *rect).len(),
        forall|k: int| 0 <= k < final(region).count ==>
            final(region).rects@[k] == clip_rects(old(region).rects@.take(old(region).count as int), *rect)[k],
        forall|k: int| final(region).count <= k < 256 ==> final(region).rects@[k] == old(region).rects@[k],
        final(region).count > 0 ==> final(region).extents == bbox_prefix(final(region).rects@, final(region).count as int),
        final(region).count == 0 ==> final(region).extents == old(region).extents,
{
    if region.count == 0 {
        assert(old(region).rects@.take(0) =~= Seq::<Rect>::empty());
        return;
    }
    let ghost orig = region.rects@;
    let n = region.count as usize;
    let mut new_count: usize = 0;
    let mut i: usize = 0;
    while i < n
        invariant
            n == old(region).count,
            orig == old(region).rects@,
            1 <= n <= 256,
            i <= n,
            new_count <= i,
            new_count == clip_rects(orig.take(i as int), *rect).len(),
            forall|k: int| 0 <= k < new_count ==> region.rects@[k] == clip_rects(orig.take(i as int), *rect)[k],
            forall|k: int| new_count <= k < 256 ==> region.rects@[k] == orig[k],
            region.count == old(region).count,
            region.extents == old(region).extents,
        decreases n - i,
    {
        let cur = region.rects[i];
        proof {
            assert(orig.take(i as int + 1).drop_last() =~= orig.take(i as int));
            assert(orig.take(i as int + 1).last() == orig[i as int]);
        }
        match rect_intersection(&cur, rect) {
            Some(inter) => {
                if !is_empty_rect(&inter) {
                    region.rects[new_count] = inter;
                    new_count = new_count + 1;
                }
            },
            None => {},
        }
        i = i + 1;
    }
    assert(orig.take(n as int) == old(region).rects@.take(old(region).count as int));
    region.count = new_count as i32;
    if new_count > 0 {
        let mut e = region.rects[0];
        let mut j: usize = 1;
        while j < new_count
            invariant
                1 <= j <= new_count,
                new_count <= 256,
                new_count == region.count,
                e == bbox_prefix(region.rects@, j as int),
            decreases new_count - j,
        {
            let r = region.rects[j];
            e = Rect::new(
                if e.left <= r.left { e.left } else { r.left },
                if e.top <= r.top { e.top } else { r.top },
                if e.right >= r.right { e.right } else { r.right },
                if e.bottom >= r.bottom { e.bottom } else { r.bottom },
            );
            j = j + 1;
        }
        region.extents = e;
    }
}

// =============================================================================
// Regions as GDI objects
// =============================================================================

/// The region object `handle` names: the store entry its handle points at,
/// when that holds a region.
pub open spec fn region_at(gdi: &GdiState, handle: u64) -> Option<GdiRegion> {
    match gdi.table.lookup(handle) {
        Some(e) => if 1 <= e.obj_ptr <= gdi.objects@.len() {
            match gdi.objects@[e.obj_ptr - 1] {
                Some(GdiObject::Region(g)) => Some(g),
                _ => None,
            }
        } else {
            None
        },
        None => None,
    }
}

/// The region `handle` names.
fn get_region(gdi: &GdiState, handle: u64) -> (r: Option<GdiRegion>)
    ensures
        r == region_at(gdi, handle),
{
    match GdiGetObjectPtr(gdi, handle) {
        Some(p) => {
            if 1 <= p && p <= gdi.objects.len() as u64 {
                match &gdi.objects[(p - 1) as usize] {
                    Some(GdiObject::Region(g)) => Some(*g),
                    _ => None,
                }
            } else {
                None
            }
        },
        None => None,
    }
}

/// Store `g` as the region `handle` names.
fn put_region(gdi: &mut GdiState, handle: u64, g: GdiRegion)
    requires
        region_at(old(gdi), handle) is Some,
    ensures
        final(gdi).table == old(gdi).table,
        final(gdi).objects@ == old(gdi).objects@.update(old(gdi).table.lookup(handle).unwrap().obj_ptr - 1,
            Some(GdiObject::Region(g))),
        region_at(final(gdi), handle) == Some(g),
{
    match GdiGetObjectPtr(gdi, handle) {
        Some(p) => {
            if 1 <= p && p <= gdi.objects.len() as u64 {
                gdi.objects.set((p - 1) as usize, Some(GdiObject::Region(g)));
            }
        },
        None => {},
    }
}

/// Create a rectangle region.
#[allow(non_snake_case)]
pub fn GreCreateRectRgn(gdi: &mut GdiState, left: i32, top: i32, right: i32, bottom: i32) -> (r: u64)
    requires
        old(gdi).objects@.len() < u64::MAX,
    ensures
        final(gdi).objects@.len() == old(gdi).objects@.len() + 1,
        final(gdi).objects@.drop_last() == old(gdi).objects@,
        final(gdi).objects@.last() matches Some(GdiObject::Region(g)) && g.num_rects == 1
            && g.extents == (Rect { left, top, right, bottom }),
        allocate_post(old(gdi).table.entries@, old(gdi).table.next_index, final(gdi).table.entries@,
            final(gdi).table.next_index, crate::win32k::objects::GdiObjectType::Region,
            new_entry_spec(crate::win32k::objects::GdiObjectType::Region, final(gdi).objects@.len() as u64, 0), r),
{
    GdiCreateRectRgn(gdi, left, top, right, bottom)
}

/// Create a rectangle region from a rectangle.
#[allow(non_snake_case)]
pub fn GreCreateRectRgnIndirect(gdi: &mut GdiState, rect: &Rect) -> (r: u64)
    requires
        old(gdi).objects@.len() < u64::MAX,
    ensures
        final(gdi).objects@.len() == old(gdi).objects@.len() + 1,
        final(gdi).objects@.drop_last() == old(gdi).objects@,
        final(gdi).objects@.last() matches Some(GdiObject::Region(g)) && g.num_rects == 1 && g.extents == *rect,
        allocate_post(old(gdi).table.entries@, old(gdi).table.next_index, final(gdi).table.entries@,
            final(gdi).table.next_index, crate::win32k::objects::GdiObjectType::Region,
            new_entry_spec(crate::win32k::objects::GdiObjectType::Region, final(gdi).objects@.len() as u64, 0), r),
{
    GreCreateRectRgn(gdi, rect.left, rect.top, rect.right, rect.bottom)
}

/// Delete a region (as any GDI object is deleted).
#[allow(non_snake_case)]
pub fn GreDeleteRegion(gdi: &mut GdiState, region: u64) -> (r: bool)
    ensures
        r == (region != 0 && old(gdi).table.lookup(region) is Some),
        r ==> ({
            let e = old(gdi).table.lookup(region).unwrap();
            &&& final(gdi).table.entries@ == old(gdi).table.entries@.update(handle_index(region) as int, None)
            &&& final(gdi).objects@ == if 1 <= e.obj_ptr <= old(gdi).objects@.len() {
                old(gdi).objects@.update(e.obj_ptr - 1, None)
            } else {
                old(gdi).objects@
            }
        }),
        !r ==> final(gdi).table.entries@ == old(gdi).table.entries@ && final(gdi).objects@ == old(gdi).objects@,
{
    GdiDeleteObject(gdi, region)
}

/// The region type a rectangle count stands for.
pub open spec fn type_of_count(n: i32) -> i32 {
    if n == 0 { 0 } else if n == 1 { 1 } else { 2 }
}

/// What taking the box `b` away from region `s1` leaves, each region taken
/// as its bounding box: `s1` itself when it is null or `b` misses it; a
/// null region when `b` covers it; the rest as one rectangle when `b` cuts
/// a full-width band off its top or bottom, or a full-height band off its
/// left or right; otherwise a complex region whose box is still `s1`'s.
pub open spec fn difference_result(s1: GdiRegion, b: Rect) -> GdiRegion {
    let a = s1.extents;
    if s1.num_rects == 0 || bounds_intersection(a, b) is None {
        s1
    } else if b.left <= a.left && b.right >= a.right && b.top <= a.top && b.bottom >= a.bottom {
        GdiRegion { extents: Rect { left: 0, top: 0, right: 0, bottom: 0 }, num_rects: 0, ..s1 }
    } else if b.left <= a.left && b.right >= a.right {
        if b.top <= a.top {
            GdiRegion { extents: Rect { top: b.bottom, ..a }, num_rects: 1, ..s1 }
        } else if b.bottom >= a.bottom {
            GdiRegion { extents: Rect { bottom: b.top, ..a }, num_rects: 1, ..s1 }
        } else {
            GdiRegion { num_rects: 2, ..s1 }
        }
    } else if b.top <= a.top && b.bottom >= a.bottom {
        if b.left <= a.left {
            GdiRegion { extents: Rect { left: b.right, ..a }, num_rects: 1, ..s1 }
        } else if b.right >= a.right {
            GdiRegion { extents: Rect { right: b.left, ..a }, num_rects: 1, ..s1 }
        } else {
            GdiRegion { num_rects: 2, ..s1 }
        }
    } else {
        GdiRegion { num_rects: 2, ..s1 }
    }
}

/// The region left when `b`'s box is taken away from `s1`.
fn difference_region(s1: &GdiRegion, b: &GdiRegion) -> (r: GdiRegion)
    ensures
        r == difference_result(*s1, b.extents),
{
    let a = s1.extents;
    let e = b.extents;
    if s1.num_rects == 0 || compute_intersection_bounds(s1, b).is_none() {
        *s1
    } else if e.left <= a.left && e.right >= a.right && e.top <= a.top && e.bottom >= a.bottom {
        GdiRegion { extents: Rect::new(0, 0, 0, 0), num_rects: 0, ..*s1 }
    } else if e.left <= a.left && e.right >= a.right {
        if e.top <= a.top {
            GdiRegion { extents: Rect::new(a.left, e.bottom, a.right, a.bottom), num_rects: 1, ..*s1 }
        } else if e.bottom >= a.bottom {
            GdiRegion { extents: Rect::new(a.left, a.top, a.right, e.top), num_rects: 1, ..*s1 }
        } else {
            GdiRegion { num_rects: 2, ..*s1 }
        }
    } else if e.top <= a.top && e.bottom >= a.bottom {
        if e.left <= a.left {
            GdiRegion { extents: Rect::new(e.right, a.top, a.right, a.bottom), num_rects: 1, ..*s1 }
        } else if e.right >= a.right {
            GdiRegion { extents: Rect::new(a.left, a.top, e.left, a.bottom), num_rects: 1, ..*s1 }
        } else {
            GdiRegion { num_rects: 2, ..*s1 }
        }
    } else {
        GdiRegion { num_rects: 2, ..*s1 }
    }
}

/// What combining gives the destination region `d` from `s1` and (when it
/// names a region) `s2`: a copy of `s1`; for a difference, what is left of
/// `s1` once `s2`'s box is taken away (`s1` with no second region); for a
/// union or xor with a second region, `s1` with the bounding box of both
/// and a complex count; for an intersection, `d` with the common box and a
/// simple count, or a null count when there is no common box or no second
/// region.
pub open spec fn combine_result(d: GdiRegion, s1: GdiRegion, s2: Option<GdiRegion>, mode: RegionCombineMode) -> GdiRegion {
    match mode {
        RegionCombineMode::Copy => s1,
        RegionCombineMode::Difference => match s2 {
            Some(b) => difference_result(s1, b.extents),
            None => s1,
        },
        RegionCombineMode::Union | RegionCombineMode::Xor => match s2 {
            Some(b) => GdiRegion { extents: bounds_union(s1.extents, b.extents), num_rects: 2, ..s1 },
            None => s1,
        },
        RegionCombineMode::Intersection => match s2 {
            Some(b) => match bounds_intersection(s1.extents, b.extents) {
                Some(i) => GdiRegion { extents: i, num_rects: 1, ..d },
                None => GdiRegion { num_rects: 0, ..d },
            },
            None => GdiRegion { num_rects: 0, ..d },
        },
    }
}

/// Combine regions `src1` and `src2` into `dest` by `mode` and give back
/// the type of the result. When `dest` or `src1` names no region, nothing
/// changes and the result is null (0); a `src2` that names no region
/// counts as absent.
#[allow(non_snake_case)]
pub fn GreCombineRgn(gdi: &mut GdiState, dest_handle: u64, src1_handle: u64, src2_handle: u64, mode: RegionCombineMode) -> (r: i32)
    ensures
        final(gdi).table == old(gdi).table,
        match (region_at(old(gdi), dest_handle), region_at(old(gdi), src1_handle)) {
            (Some(d), Some(s1)) => {
                let res = combine_result(d, s1, region_at(old(gdi), src2_handle), mode);
                &&& region_at(final(gdi), dest_handle) == Some(res)
                &&& final(gdi).objects@ == old(gdi).objects@.update(old(gdi).table.lookup(dest_handle).unwrap().obj_ptr - 1,
                    Some(GdiObject::Region(res)))
                &&& r == type_of_count(res.num_rects)
            },
            _ => r == 0 && final(gdi).objects@ == old(gdi).objects@,
        },
{
    let d = match get_region(gdi, dest_handle) {
        Some(d) => d,
        None => {
            return RegionType::Null.value();
        },
    };
    let s1 = match get_region(gdi, src1_handle) {
        Some(s) => s,
        None => {
            return RegionType::Null.value();
        },
    };
    let s2 = get_region(gdi, src2_handle);
    let res = match mode {
        RegionCombineMode::Copy => s1,
        RegionCombineMode::Difference => match s2 {
            Some(b) => difference_region(&s1, &b),
            None => s1,
        },
        RegionCombineMode::Union | RegionCombineMode::Xor => match s2 {
            Some(b) => GdiRegion { extents: compute_union_bounds(&s1, &b), num_rects: 2, ..s1 },
            None => s1,
        },
        RegionCombineMode::Intersection => match s2 {
            Some(b) => match compute_intersection_bounds(&s1, &b) {
                Some(i) => GdiRegion { extents: i, num_rects: 1, ..d },
                None => GdiRegion { num_rects: 0, ..d },
            },
            None => GdiRegion { num_rects: 0, ..d },
        },
    };
    put_region(gdi, dest_handle, res);
    if res.num_rects == 0 {
        RegionType::Null.value()
    } else if res.num_rects == 1 {
        RegionType::Simple.value()
    } else {
        RegionType::Complex.value()
    }
}

/// Two regions are equal when both exist with the same extents and count.
#[allow(non_snake_case)]
pub fn GreEqualRgn(gdi: &GdiState, region1: u64, region2: u64) -> (r: bool)
    ensures
        r == match (region_at(gdi, region1), region_at(gdi, region2)) {
            (Some(a), Some(b)) => a.extents == b.extents && a.num_rects == b.num_rects,
            _ => false,
        },
{
    match (get_region(gdi, region1), get_region(gdi, region2)) {
        (Some(a), Some(b)) => a.extents.left == b.extents.left && a.extents.top == b.extents.top
            && a.extents.right == b.extents.right && a.extents.bottom == b.extents.bottom && a.num_rects == b.num_rects,
        _ => false,
    }
}

/// The point lies in the region's extents (the extents stand for the
/// region).
#[allow(non_snake_case)]
pub fn GrePtInRegion(gdi: &GdiState, region: u64, x: i32, y: i32) -> (r: bool)
    ensures
        r == match region_at(gdi, region) {
            Some(g) => g.extents.left <= x < g.extents.right && g.extents.top <= y < g.extents.bottom,
            None => false,
        },
{
    match get_region(gdi, region) {
        Some(g) => !(x < g.extents.left || x >= g.extents.right || y < g.extents.top || y >= g.extents.bottom),
        None => false,
    }
}

/// The rectangle shares area with the region's extents.
#[allow(non_snake_case)]
pub fn GreRectInRegion(gdi: &GdiState, region: u64, rect: &Rect) -> (r: bool)
    ensures
        r == match region_at(gdi, region) {
            Some(g) => intersect_spec(g.extents, *rect),
            None => false,
        },
{
    match get_region(gdi, region) {
        Some(g) => rects_intersect(&g.extents, rect),
        None => false,
    }
}

/// The region's extents (written to `rect`) and type; null, with `rect`
/// untouched, when the handle names no region.
#[allow(non_snake_case)]
pub fn GreGetRgnBox(gdi: &GdiState, region: u64, rect: &mut Rect) -> (r: i32)
    ensures
        match region_at(gdi, region) {
            Some(g) => *final(rect) == g.extents && r == type_of_count(g.num_rects),
            None => *final(rect) == *old(rect) && r == 0,
        },
{
    match get_region(gdi, region) {
        Some(g) => {
            *rect = g.extents;
            if g.num_rects == 0 {
                RegionType::Null.value()
            } else if g.num_rects == 1 {
                RegionType::Simple.value()
            } else {
                RegionType::Complex.value()
            }
        },
        None => RegionType::Null.value(),
    }
}

// =============================================================================
// DC clipping
// =============================================================================

/// Select a clip region into a DC and give back its type (null for region
/// 0, and when the DC does not exist, in which case nothing changes).
#[allow(non_snake_case)]
pub fn GreSelectClipRgn(dcs: &mut DcHandleTable, gdi: &GdiState, dc: u64, region: u64) -> (r: i32)
    ensures
        final(dcs).next_handle == old(dcs).next_handle,
        match old(dcs).dc(dc) {
            Some(d) => dc_replaced(old(dcs).entries@, final(dcs).entries@, dc, DcObject { clip_region: region, ..d })
                && r == if region == 0 { 0 } else {
                    match region_at(gdi, region) {
                        Some(g) => type_of_count(g.num_rects),
                        None => 0,
                    }
                },
            None => r == 0 && final(dcs).entries@ == old(dcs).entries@,
        },
{
    match dcs.take(dc) {
        Some(mut d) => {
            d.clip_region = region;
            dcs.put(dc, d);
            if region == 0 {
                return RegionType::Null.value();
            }
            let mut rect = Rect::new(0, 0, 0, 0);
            GreGetRgnBox(gdi, region, &mut rect)
        },
        None => RegionType::Null.value(),
    }
}

/// Move a DC's viewport origin by `(x, y)`; false when the DC does not
/// exist. Origins that would leave 32 bits are left out.
#[allow(non_snake_case)]
pub fn GreOffsetDCOrg(dcs: &mut DcHandleTable, dc: u64, x: i32, y: i32) -> (r: bool)
    requires
        old(dcs).dc(dc) matches Some(d) ==> i32::MIN <= d.viewport_org.x + x <= i32::MAX
            && i32::MIN <= d.viewport_org.y + y <= i32::MAX,
    ensures
        final(dcs).next_handle == old(dcs).next_handle,
        r == old(dcs).dc(dc) is Some,
        match old(dcs).dc(dc) {
            Some(d) => dc_replaced(old(dcs).entries@, final(dcs).entries@, dc, DcObject {
                viewport_org: crate::win32k::dc::PointL { x: (d.viewport_org.x + x) as i32, y: (d.viewport_org.y + y) as i32 },
                ..d
            }),
            None => final(dcs).entries@ == old(dcs).entries@,
        },
{
    match dcs.take(dc) {
        Some(mut d) => {
            d.viewport_org.x = d.viewport_org.x + x;
            d.viewport_org.y = d.viewport_org.y + y;
            dcs.put(dc, d);
            true
        },
        None => false,
    }
}

/// Give a DC a rectangle clip region: a new region for a rectangle with
/// area, none (0) otherwise; false when the DC does not exist.
#[allow(non_snake_case)]
pub fn GreSetDCClipping(dcs: &mut DcHandleTable, gdi: &mut GdiState, dc: u64, rect: &Rect) -> (r: bool)
    requires
        old(gdi).objects@.len() < u64::MAX,
    ensures
        final(dcs).next_handle == old(dcs).next_handle,
        r == old(dcs).dc(dc) is Some,
        match old(dcs).dc(dc) {
            Some(d) => exists|h: u64| {
                &&& dc_replaced(old(dcs).entries@, final(dcs).entries@, dc, DcObject { region: h, ..d })
                &&& empty_rect(*rect) ==> h == 0 && final(gdi).objects@ == old(gdi).objects@
                    && final(gdi).table.entries@ == old(gdi).table.entries@
                &&& !empty_rect(*rect) ==> (final(gdi).objects@.last() matches Some(GdiObject::Region(g))
                    && g.extents == *rect && g.num_rects == 1)
                    && final(gdi).objects@.drop_last() == old(gdi).objects@
                    && allocate_post(old(gdi).table.entries@, old(gdi).table.next_index, final(gdi).table.entries@,
                        final(gdi).table.next_index, crate::win32k::objects::GdiObjectType::Region,
                        new_entry_spec(crate::win32k::objects::GdiObjectType::Region, final(gdi).objects@.len() as u64, 0), h)
            },
            None => final(dcs).entries@ == old(dcs).entries@ && final(gdi).objects@ == old(gdi).objects@
                && final(gdi).table.entries@ == old(gdi).table.entries@,
        },
{
    match dcs.take(dc) {
        Some(mut d) => {
            let ghost d0 = d;
            let h = if !is_empty_rect(rect) {
                GreCreateRectRgn(gdi, rect.left, rect.top, rect.right, rect.bottom)
            } else {
                0
            };
            d.region = h;
            dcs.put(dc, d);
            proof {
                assert({
                    &&& dc_replaced(old(dcs).entries@, dcs.entries@, dc, DcObject { region: h, ..d0 })
                    &&& empty_rect(*rect) ==> h == 0 && gdi.objects@ == old(gdi).objects@
                        && gdi.table.entries@ == old(gdi).table.entries@
                    &&& !empty_rect(*rect) ==> (gdi.objects@.last() matches Some(GdiObject::Region(g))
                        && g.extents == *rect && g.num_rects == 1)
                        && gdi.objects@.drop_last() == old(gdi).objects@
                        && allocate_post(old(gdi).table.entries@, old(gdi).table.next_index, gdi.table.entries@,
                            gdi.table.next_index, crate::win32k::objects::GdiObjectType::Region,
                            new_entry_spec(crate::win32k::objects::GdiObjectType::Region, gdi.objects@.len() as u64, 0), h)
                });
            }
            true
        },
        None => false,
    }
}

/// Exclude a rectangle from a DC's clipping: a DC with a clip region loses
/// it; the result is null (0) in every case.
#[allow(non_snake_case)]
pub fn GreExtExcludeClipRect(dcs: &mut DcHandleTable, gdi: &GdiState, dc: u64, left: i32, top: i32, right: i32, bottom: i32) -> (r: i32)
    ensures
        r == 0,
        final(dcs).next_handle == old(dcs).next_handle,
        match old(dcs).dc(dc) {
            Some(d) => if d.clip_region != 0 {
                dc_replaced(old(dcs).entries@, final(dcs).entries@, dc, DcObject { clip_region: 0, ..d })
            } else {
                final(dcs).entries@ == old(dcs).entries@
            },
            None => final(dcs).entries@ == old(dcs).entries@,
        },
{
    match dcs.take(dc) {
        Some(mut d) => {
            if d.clip_region != 0 {
                let _exclude_rect = Rect::new(left, top, right, bottom);
                let mut box_rect = Rect::new(0, 0, 0, 0);
                let _current_type = GreGetRgnBox(gdi, d.clip_region, &mut box_rect);
                d.clip_region = 0;
                dcs.put(dc, d);
                return RegionType::Null.value();
            }
            dcs.put(dc, d);
            proof {
                assert(dcs.entries@ =~= old(dcs).entries@);
            }
            RegionType::Null.value()
        },
        None => RegionType::Null.value(),
    }
}

/// Whether a region exists, with its extents and type (the information
/// a dump shows).
pub fn dump_region_info(gdi: &GdiState, region: u64) -> (r: Option<(Rect, i32)>)
    ensures
        r == match region_at(gdi, region) {
            Some(g) => Some((g.extents, g.num_rects)),
            None => None::<(Rect, i32)>,
        },
{
    match get_region(gdi, region) {
        Some(g) => Some((g.extents, g.num_rects)),
        None => None,
    }
}


/// `r` is the smallest box holding both `a` and `b`: each edge lies on
/// the outer of their two edges.
pub open spec fn bounds_both(r: Rect, a: Rect, b: Rect) -> bool {
    &&& r.left <= a.left && r.left <= b.left && (r.left == a.left || r.left == b.left)
    &&& r.top <= a.top && r.top <= b.top && (r.top == a.top || r.top == b.top)
    &&& r.right >= a.right && r.right >= b.right && (r.right == a.right || r.right == b.right)
    &&& r.bottom >= a.bottom && r.bottom >= b.bottom && (r.bottom == a.bottom || r.bottom == b.bottom)
}

/// `r` is the largest box inside both `a` and `b`: each edge lies on the
/// inner of their two edges.
pub open spec fn inside_both(r: Rect, a: Rect, b: Rect) -> bool {
    &&& r.left >= a.left && r.left >= b.left && (r.left == a.left || r.left == b.left)
    &&& r.top >= a.top && r.top >= b.top && (r.top == a.top || r.top == b.top)
    &&& r.right <= a.right && r.right <= b.right && (r.right == a.right || r.right == b.right)
    &&& r.bottom <= a.bottom && r.bottom <= b.bottom && (r.bottom == a.bottom || r.bottom == b.bottom)
}

/// The boxes `a` and `b` share some area.
pub open spec fn share_area(a: Rect, b: Rect) -> bool {
    &&& a.left < a.right && b.left < b.right && a.left < b.right && b.left < a.right
    &&& a.top < a.bottom && b.top < b.bottom && a.top < b.bottom && b.top < a.bottom
}

/// What `GreCombineRgn` leaves in the destination `d` from `s1` and a
/// second region `s2`, and the type it answers:
/// - a copy gives `s1` and its type;
/// - a union or an xor gives a complex region whose box is the smallest
///   holding both boxes;
/// - an intersection gives the largest box inside both as a simple
///   region when the boxes share area, and a null region otherwise;
/// - a difference gives `s1` untouched when the boxes share no area, a
///   null region when the second box covers the first (and they share
///   area), and otherwise a region whose box lies inside the first box.
pub proof fn lemma_combine_shapes(d: GdiRegion, s1: GdiRegion, s2: GdiRegion)
    ensures
        combine_result(d, s1, Some(s2), RegionCombineMode::Copy) == s1,
        ({
            let r = combine_result(d, s1, Some(s2), RegionCombineMode::Union);
            type_of_count(r.num_rects) == 2 && bounds_both(r.extents, s1.extents, s2.extents)
        }),
        ({
            let r = combine_result(d, s1, Some(s2), RegionCombineMode::Xor);
            type_of_count(r.num_rects) == 2 && bounds_both(r.extents, s1.extents, s2.extents)
        }),
        ({
            let r = combine_result(d, s1, Some(s2), RegionCombineMode::Intersection);
            &&& share_area(s1.extents, s2.extents) ==> type_of_count(r.num_rects) == 1
                && inside_both(r.extents, s1.extents, s2.extents)
            &&& !share_area(s1.extents, s2.extents) ==> type_of_count(r.num_rects) == 0
        }),
        ({
            let r = combine_result(d, s1, Some(s2), RegionCombineMode::Difference);
            let a = s1.extents;
            let b = s2.extents;
            &&& !share_area(a, b) ==> r == s1
            &&& share_area(a, b) && s1.num_rects != 0 && b.left <= a.left && b.top <= a.top && a.right <= b.right
                && a.bottom <= b.bottom ==> type_of_count(r.num_rects) == 0
            &&& share_area(a, b) && type_of_count(r.num_rects) != 0 ==> a.left <= r.extents.left
                && a.top <= r.extents.top && r.extents.right <= a.right && r.extents.bottom <= a.bottom
        }),
{
}

/// Combining two regions and the second way round gives the same box and
/// type for a union, an xor and an intersection.
pub proof fn lemma_combine_symmetric(d: GdiRegion, s1: GdiRegion, s2: GdiRegion, m: RegionCombineMode)
    requires
        m == RegionCombineMode::Union || m == RegionCombineMode::Xor || m == RegionCombineMode::Intersection,
    ensures
        combine_result(d, s1, Some(s2), m).extents == combine_result(d, s2, Some(s1), m).extents,
        type_of_count(combine_result(d, s1, Some(s2), m).num_rects)
            == type_of_count(combine_result(d, s2, Some(s1), m).num_rects),
{
}

} // verus!
