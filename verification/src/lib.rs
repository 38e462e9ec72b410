//! A layered pixel-art compositing engine.
//!
//! The engine keeps an ordered stack of indexed-color bitmap layers, a
//! palette mapping small indices to RGB triples, and a pannable viewport.
//! Rendering resolves every canvas pixel by walking the layer stack bottom
//! to top, blending by per-layer opacity, and emits one fill instruction per
//! pixel for a host drawing surface to execute.

use vstd::prelude::*;

pub mod compositor;
pub mod layer;
pub mod palette;
pub mod viewport;

verus! {

/// The errors the engine reports instead of clamping or guessing.
#[derive(Clone, Copy, PartialEq, Eq, Debug)]
pub enum EngineError {
    /// A palette index addressed an entry beyond the palette's capacity.
    IndexOutOfRange,
}

/// The whole engine state: the layer stack, the palette and the viewport.
/// The host owns the drawing surface; `render` hands it a list of fill
/// instructions instead of touching it.
pub struct World {
    pub viewport: viewport::Viewport,
    pub layer_manager: layer::LayerManager,
    pub palette: palette::Palette,
}

impl World {
    /// The engine's invariant: a well-formed layer stack and palette.
    pub open spec fn wf(&self) -> bool {
        &&& self.layer_manager.wf()
        &&& self.palette.wf()
    }

    /// A fresh engine for a canvas of the given dimensions: one default
    /// layer, an all-black palette, and an identity viewport offset.
    pub fn new(bitmap_width: i32, bitmap_height: i32) -> (w: World)
        requires
            0 < bitmap_width,
            0 < bitmap_height,
            bitmap_width * bitmap_height <= usize::MAX,
        ensures
            w.wf(),
            w.layer_manager.width == bitmap_width,
            w.layer_manager.height == bitmap_height,
            w.layer_manager.layers@.len() == 1,
            layer::is_default_layer(
                w.layer_manager.layers@[0],
                bitmap_width as int,
                bitmap_height as int,
            ),
            w.viewport.offset_x == 0,
            w.viewport.offset_y == 0,
            forall|i: int|
                0 <= i < 3 * palette::PALETTE_ENTRIES ==> w.palette.colors@[i] == 0u8,
    {
        let mut layer_manager = layer::LayerManager::new(bitmap_width, bitmap_height);
        layer_manager.add_layer();
        World {
            viewport: viewport::Viewport::new(),
            layer_manager,
            palette: palette::Palette::new(),
        }
    }

    /// A full redraw: the composited color of every canvas pixel, as fill
    /// instructions for the host surface.  Reads all state, mutates none.
    pub fn render(&self) -> (cmds: Vec<compositor::FillCommand>)
        requires
            self.wf(),
        ensures
            compositor::frame_ok(self.layer_manager, self.palette.colors@, cmds@),
    {
        compositor::render_frame(&self.layer_manager, &self.palette)
    }

    /// Overwrites one palette entry; rejects an index beyond the palette's
    /// capacity and then changes nothing.  Layers and viewport are
    /// untouched either way.
    pub fn set_palette_color(&mut self, palette_index: usize, r: u8, g: u8, b: u8) -> (res: Result<
        (),
        EngineError,
    >)
        requires
            old(self).wf(),
        ensures
            final(self).wf(),
            final(self).layer_manager == old(self).layer_manager,
            final(self).viewport == old(self).viewport,
            palette_index < palette::PALETTE_ENTRIES ==> res == Ok::<(), EngineError>(())
                && final(self).palette.colors@ == palette::with_entry(
                old(self).palette.colors@,
                palette_index as int,
                r,
                g,
                b,
            ),
            palette_index >= palette::PALETTE_ENTRIES ==> res == Err::<(), EngineError>(
                EngineError::IndexOutOfRange,
            ) && final(self).palette == old(self).palette,
    {
        self.palette.set_color(palette_index, r, g, b)
    }

    /// Adds the integer deltas to the viewport's pan offset; layers and
    /// palette are untouched.
    pub fn pan(&mut self, dx: i32, dy: i32)
        ensures
            final(self).viewport == viewport::panned(old(self).viewport, dx as int, dy as int),
            final(self).layer_manager == old(self).layer_manager,
            final(self).palette == old(self).palette,
    {
        self.viewport.pan(dx, dy);
    }

    /// Appends a fresh canvas-sized default layer on top of the stack;
    /// palette and viewport are untouched.
    pub fn add_layer(&mut self)
        requires
            old(self).wf(),
        ensures
            final(self).wf(),
            final(self).viewport == old(self).viewport,
            final(self).palette == old(self).palette,
            final(self).layer_manager.width == old(self).layer_manager.width,
            final(self).layer_manager.height == old(self).layer_manager.height,
            final(self).layer_manager.layers@.len() == old(self).layer_manager.layers@.len() + 1,
            forall|i: int|
                0 <= i < old(self).layer_manager.layers@.len()
                    ==> final(self).layer_manager.layers@[i] == old(self).layer_manager.layers@[i],
            layer::is_default_layer(
                final(self).layer_manager.layers@.last(),
                old(self).layer_manager.width as int,
                old(self).layer_manager.height as int,
            ),
    {
        self.layer_manager.add_layer();
    }
}

} // verus!
