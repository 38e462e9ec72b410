use vstd::prelude::*;

verus! {

/// Pan state of the viewport: a displacement, in canvas pixel units, that is
/// added to every canvas coordinate before the host scales to device
/// coordinates.  The zoom scale itself is a floating-point quantity and is
/// owned by the host adapter, not by this core.
pub struct Viewport {
    pub offset_x: i32,
    pub offset_y: i32,
}

/// Two's-complement wrap of a sum back into the `i32` range.  Defined for
/// values within one full turn of the range, which covers any sum of two
/// `i32` values.
pub open spec fn wrap_i32(v: int) -> int {
    if v > i32::MAX {
        v - 0x1_0000_0000
    } else if v < i32::MIN {
        v + 0x1_0000_0000
    } else {
        v
    }
}

/// The viewport state after a `pan(dx, dy)` call.
pub open spec fn panned(v: Viewport, dx: int, dy: int) -> Viewport {
    Viewport {
        offset_x: wrap_i32(v.offset_x + dx) as i32,
        offset_y: wrap_i32(v.offset_y + dy) as i32,
    }
}

/// `i32` addition that wraps around the range instead of failing.
fn wrap_add(a: i32, b: i32) -> (r: i32)
    ensures
        r as int == wrap_i32(a + b),
{
    let s: i64 = a as i64 + b as i64;
    if s > i32::MAX as i64 {
        (s - 0x1_0000_0000) as i32
    } else if s < i32::MIN as i64 {
        (s + 0x1_0000_0000) as i32
    } else {
        s as i32
    }
}

impl Viewport {
    /// A fresh viewport: no displacement.
    pub fn new() -> (v: Viewport)
        ensures
            v.offset_x == 0,
            v.offset_y == 0,
    {
        Viewport { offset_x: 0, offset_y: 0 }
    }

    /// Adds the integer deltas to the pan offset.  The operation is total:
    /// the offset wraps around the `i32` range, and the host is responsible
    /// for clamping to sensible magnitudes.
    pub fn pan(&mut self, dx: i32, dy: i32)
        ensures
            *final(self) == panned(*old(self), dx as int, dy as int),
    {
        self.offset_x = wrap_add(self.offset_x, dx);
        self.offset_y = wrap_add(self.offset_y, dy);
    }

    /// The panned position of canvas coordinate `(x, y)`: the displacement
    /// applied, still in canvas pixel units, before the host multiplies by
    /// the zoom scale.
    pub fn apply_offset(&self, x: i32, y: i32) -> (p: (i64, i64))
        ensures
            p.0 == x + self.offset_x,
            p.1 == y + self.offset_y,
    {
        (x as i64 + self.offset_x as i64, y as i64 + self.offset_y as i64)
    }
}

/// Panning by `(dx, dy)` and then by `(-dx, -dy)` restores the original
/// viewport offset exactly, for every delta whose negation is representable.
pub proof fn lemma_pan_roundtrip(v: Viewport, dx: i32, dy: i32)
    requires
        dx != i32::MIN,
        dy != i32::MIN,
    ensures
        panned(panned(v, dx as int, dy as int), -(dx as int), -(dy as int)) == v,
{
}

} // verus!
