use vstd::prelude::*;

verus! {

/// An indexed-color bitmap positioned within the canvas.  `pixels` holds
/// one palette index per cell, row-major, `width * height` bytes in all;
/// `(offset_x, offset_y)` places the bitmap's origin in canvas coordinates.
pub struct Layer {
    pub width: i32,
    pub height: i32,
    pub offset_x: i32,
    pub offset_y: i32,
    pub visible: bool,
    pub opacity: u8,
    pub pixels: Vec<u8>,
}

impl Layer {
    /// The layer's structural invariant: non-negative dimensions and a
    /// pixel buffer of exactly `width * height` palette indices.
    pub open spec fn wf(&self) -> bool {
        &&& 0 <= self.width
        &&& 0 <= self.height
        &&& self.pixels@.len() == self.width * self.height
    }

    /// Whether the layer's bitmap covers canvas coordinate `(x, y)`.
    pub open spec fn covers(&self, x: int, y: int) -> bool {
        &&& self.offset_x <= x < self.offset_x + self.width
        &&& self.offset_y <= y < self.offset_y + self.height
    }

    /// The palette index the layer stores for canvas coordinate `(x, y)`;
    /// meaningful only where the layer covers `(x, y)`.
    pub open spec fn index_at(&self, x: int, y: int) -> u8 {
        self.pixels@[(y - self.offset_y) * self.width + (x - self.offset_x)]
    }
}

/// Whether `l` is the layer `add_layer` creates for a `width` by `height`
/// canvas: canvas-sized, zero offset, visible, fully opaque, every pixel
/// set to palette index 0.
pub open spec fn is_default_layer(l: Layer, width: int, height: int) -> bool {
    &&& l.width == width
    &&& l.height == height
    &&& l.offset_x == 0
    &&& l.offset_y == 0
    &&& l.visible == true
    &&& l.opacity == 255
    &&& l.pixels@.len() == width * height
    &&& forall|i: int| 0 <= i < l.pixels@.len() ==> l.pixels@[i] == 0u8
}

/// The ordered stack of layers sharing one logical canvas.  Insertion order
/// is compositing order, bottom to top.
pub struct LayerManager {
    pub width: i32,
    pub height: i32,
    pub layers: Vec<Layer>,
}

impl LayerManager {
    /// The manager's structural invariant: a positive canvas whose pixel
    /// count fits the machine, and well-formed layers throughout the stack.
    pub open spec fn wf(&self) -> bool {
        &&& 0 < self.width
        &&& 0 < self.height
        &&& self.width * self.height <= usize::MAX
        &&& forall|i: int| 0 <= i < self.layers@.len() ==> self.layers@[i].wf()
    }

    /// A manager for a fresh canvas of the given dimensions, with an empty
    /// layer stack.  The dimensions are fixed for the manager's lifetime.
    pub fn new(width: i32, height: i32) -> (m: LayerManager)
        requires
            0 < width,
            0 < height,
            width * height <= usize::MAX,
        ensures
            m.wf(),
            m.width == width,
            m.height == height,
            m.layers@.len() == 0,
    {
        LayerManager { width, height, layers: Vec::new() }
    }

    /// Appends a fresh canvas-sized layer on top of the stack: fully
    /// opaque, visible, zero offset, every pixel palette index 0.
    pub fn add_layer(&mut self)
        requires
            old(self).wf(),
        ensures
            final(self).wf(),
            final(self).width == old(self).width,
            final(self).height == old(self).height,
            final(self).layers@.len() == old(self).layers@.len() + 1,
            forall|i: int|
                0 <= i < old(self).layers@.len() ==> final(self).layers@[i] == old(self).layers@[i],
            is_default_layer(
                final(self).layers@.last(),
                old(self).width as int,
                old(self).height as int,
            ),
    {
        let n: usize = (self.width as usize) * (self.height as usize);
        let mut pixels: Vec<u8> = Vec::new();
        let mut i: usize = 0;
        while i < n
            invariant
                i <= n,
                pixels@.len() == i,
                forall|j: int| 0 <= j < i ==> pixels@[j] == 0u8,
            decreases n - i,
        {
            pixels.push(0);
            i = i + 1;
        }
        let layer = Layer {
            width: self.width,
            height: self.height,
            offset_x: 0,
            offset_y: 0,
            visible: true,
            opacity: 255,
            pixels,
        };
        self.layers.push(layer);
    }
}

} // verus!
