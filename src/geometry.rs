//! Logical and physical desktop geometry: which display owns a point, and how
//! a logical region maps onto the pixels of a captured frame.
use vstd::prelude::*;

verus! {

/// A display in virtual-desktop logical coordinates. The origin may be
/// negative for displays left of or above the primary one.
#[derive(Debug, Clone, Copy, PartialEq, Eq, Structural)]
pub struct DisplayDescriptor {
    pub x: i32,
    pub y: i32,
    pub width: u32,
    pub height: u32,
}

/// A rectangle in virtual-desktop logical coordinates.
#[derive(Debug, Clone, Copy, PartialEq, Eq, Structural)]
pub struct LogicalRegion {
    pub x: u32,
    pub y: u32,
    pub width: u32,
    pub height: u32,
}

/// A rectangle in the physical pixel space of one captured frame.
#[derive(Debug, Clone, Copy, PartialEq, Eq, Structural)]
pub struct PhysicalRegion {
    pub x: u32,
    pub y: u32,
    pub width: u32,
    pub height: u32,
}

/// A display with a non-empty logical area, so that the ratio of physical
/// to logical pixels is defined.
pub open spec fn display_wf(d: DisplayDescriptor) -> bool {
    d.width > 0 && d.height > 0
}

/// The logical bounding box of `d` contains the point `(x, y)`.
pub open spec fn display_contains(d: DisplayDescriptor, x: int, y: int) -> bool {
    d.x <= x < d.x + d.width && d.y <= y < d.y + d.height
}

/// The display that owns `(x, y)`: the first one that contains the point,
/// or the first display when none does.
pub open spec fn is_owner(ds: Seq<DisplayDescriptor>, x: int, y: int, i: int) -> bool {
    0 <= i < ds.len() && (
        (display_contains(ds[i], x, y) && forall|j: int| 0 <= j < i ==> !display_contains(#[trigger] ds[j], x, y))
        || (i == 0 && forall|j: int| 0 <= j < ds.len() ==> !display_contains(#[trigger] ds[j], x, y))
    )
}

/// A logical length or offset converted to physical pixels, where `phys`
/// physical pixels span `logical` logical ones (rounded down).
pub open spec fn to_physical(v: int, phys: int, logical: int) -> int {
    v * phys / logical
}

/// The start of a span clamped into a dimension: at most its last index.
pub open spec fn clamp_start(start: int, dim: int) -> int {
    if dim == 0 { 0 } else if start < dim - 1 { start } else { dim - 1 }
}

/// The length of a span clamped so that it ends inside the dimension.
pub open spec fn clamp_len(len: int, start: int, dim: int) -> int {
    if len < dim - clamp_start(start, dim) { len } else { dim - clamp_start(start, dim) }
}

/// Clamps a physical rectangle into a frame of `fw` by `fh` pixels.
pub open spec fn clamp_spec(x: int, y: int, w: int, h: int, fw: int, fh: int) -> PhysicalRegion {
    PhysicalRegion {
        x: clamp_start(x, fw) as u32,
        y: clamp_start(y, fh) as u32,
        width: clamp_len(w, x, fw) as u32,
        height: clamp_len(h, y, fh) as u32,
    }
}

/// The offset of a logical coordinate from a display origin, never negative.
pub open spec fn relative(v: int, origin: int) -> int {
    if v - origin > 0 { v - origin } else { 0 }
}

/// The physical region of a frame of `fw` by `fh` pixels, captured from `d`,
/// that corresponds to the logical region `r`: offset from the display's
/// origin, scaled by frame size over logical size, then clamped.
pub open spec fn physical_spec(r: LogicalRegion, d: DisplayDescriptor, fw: int, fh: int) -> PhysicalRegion {
    clamp_spec(
        to_physical(relative(r.x as int, d.x as int), fw, d.width as int),
        to_physical(relative(r.y as int, d.y as int), fh, d.height as int),
        to_physical(r.width as int, fw, d.width as int),
        to_physical(r.height as int, fh, d.height as int),
        fw,
        fh,
    )
}

/// `p` lies inside a frame of `fw` by `fh` pixels.
pub open spec fn region_fits(p: PhysicalRegion, fw: int, fh: int) -> bool {
    p.x + p.width <= fw && p.y + p.height <= fh
}

/// The index of the display that owns the logical point `(x, y)`; `None`
/// only when there are no displays.
pub fn owning_display(displays: &Vec<DisplayDescriptor>, x: u32, y: u32) -> (r: Option<usize>)
    ensures
        r.is_none() <==> displays@.len() == 0,
        r matches Some(i) ==> is_owner(displays@, x as int, y as int, i as int),
{
    if displays.len() == 0 {
        return None;
    }
    let mut i: usize = 0;
    while i < displays.len()
        invariant
            i <= displays@.len(),
            forall|j: int| 0 <= j < i ==> !display_contains(#[trigger] displays@[j], x as int, y as int),
        decreases displays@.len() - i,
    {
        let d = displays[i];
        let tx = x as i64;
        let ty = y as i64;
        if d.x as i64 <= tx && tx < d.x as i64 + d.width as i64 && d.y as i64 <= ty && ty < d.y as i64
            + d.height as i64 {
            return Some(i);
        }
        i = i + 1;
    }
    Some(0)
}

/// Clamps one span `[start, start + len)` into a dimension of `dim` pixels.
fn clamp_span(start: u128, len: u128, dim: u32) -> (r: (u32, u32))
    ensures
        r.0 as int == clamp_start(start as int, dim as int),
        r.1 as int == clamp_len(len as int, start as int, dim as int),
{
    let last: u32 = if dim == 0 { 0 } else { dim - 1 };
    let s: u32 = if dim == 0 { 0 } else if start < last as u128 { start as u32 } else { last };
    let room: u32 = dim - s;
    let l: u32 = if len < room as u128 { len as u32 } else { room };
    (s, l)
}

/// Clamps a physical rectangle into a frame of `fw` by `fh` pixels, so that
/// a crop with it never reads outside the frame.
pub fn clamp_to_frame(x: u32, y: u32, width: u32, height: u32, fw: u32, fh: u32) -> (r: PhysicalRegion)
    ensures
        r == clamp_spec(x as int, y as int, width as int, height as int, fw as int, fh as int),
        region_fits(r, fw as int, fh as int),
{
    let (sx, sw) = clamp_span(x as u128, width as u128, fw);
    let (sy, sh) = clamp_span(y as u128, height as u128, fh);
    PhysicalRegion { x: sx, y: sy, width: sw, height: sh }
}

/// `v * phys / logical` on machine integers.
fn scale_span(v: u64, phys: u32, logical: u32) -> (r: u128)
    requires
        logical > 0,
        v <= 0x2_0000_0000,
    ensures
        r as int == to_physical(v as int, phys as int, logical as int),
{
    assert((v as int) * (phys as int) <= 0x2_0000_0000 * 0x1_0000_0000) by (nonlinear_arith)
        requires
            v <= 0x2_0000_0000,
            phys <= 0xffff_ffff,
    ;
    let p: u128 = v as u128 * phys as u128;
    p / logical as u128
}

/// The physical region of a frame of `fw` by `fh` pixels captured from `d`
/// that corresponds to the logical region `r`.
pub fn physical_region(r: LogicalRegion, d: DisplayDescriptor, fw: u32, fh: u32) -> (p: PhysicalRegion)
    requires
        display_wf(d),
    ensures
        p == physical_spec(r, d, fw as int, fh as int),
        region_fits(p, fw as int, fh as int),
{
    let rx: i64 = r.x as i64 - d.x as i64;
    let ry: i64 = r.y as i64 - d.y as i64;
    let rel_x: u64 = if rx > 0 { rx as u64 } else { 0 };
    let rel_y: u64 = if ry > 0 { ry as u64 } else { 0 };
    let px = scale_span(rel_x, fw, d.width);
    let py = scale_span(rel_y, fh, d.height);
    let pw = scale_span(r.width as u64, fw, d.width);
    let ph = scale_span(r.height as u64, fh, d.height);
    let (sx, sw) = clamp_span(px, pw, fw);
    let (sy, sh) = clamp_span(py, ph, fh);
    PhysicalRegion { x: sx, y: sy, width: sw, height: sh }
}

/// Whatever the logical region and the display, including regions beyond the
/// display's bounds or left of a display with a negative origin, the derived
/// physical region starts at a non-negative offset and ends inside the frame.
pub proof fn lemma_physical_region_in_bounds(r: LogicalRegion, d: DisplayDescriptor, fw: u32, fh: u32)
    requires
        display_wf(d),
    ensures
        physical_spec(r, d, fw as int, fh as int).x >= 0,
        physical_spec(r, d, fw as int, fh as int).y >= 0,
        region_fits(physical_spec(r, d, fw as int, fh as int), fw as int, fh as int),
{
    let rx = relative(r.x as int, d.x as int);
    let ry = relative(r.y as int, d.y as int);
    lemma_scaled_nonneg(rx, fw as int, d.width as int);
    lemma_scaled_nonneg(ry, fh as int, d.height as int);
    lemma_scaled_nonneg(r.width as int, fw as int, d.width as int);
    lemma_scaled_nonneg(r.height as int, fh as int, d.height as int);
}

proof fn lemma_scaled_nonneg(v: int, phys: int, logical: int)
    requires
        v >= 0,
        phys >= 0,
        logical > 0,
    ensures
        to_physical(v, phys, logical) >= 0,
{
    assert(v * phys >= 0) by (nonlinear_arith)
        requires
            v >= 0,
            phys >= 0,
    ;
}

} // verus!
