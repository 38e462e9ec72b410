use vstd::prelude::*;
use crate::layer::{Layer, LayerManager};
use crate::palette::{Palette, rgb_at};

verus! {

/// One drawing instruction for the host surface: paint the canvas cell at
/// `(x, y)` with the resolved color `(r, g, b)`.  The host maps the cell
/// through the viewport transform before filling.
#[derive(Clone, Copy, PartialEq, Eq, Debug)]
pub struct FillCommand {
    pub x: i32,
    pub y: i32,
    pub r: u8,
    pub g: u8,
    pub b: u8,
}

/// One channel of the opacity blend: the exact integer-truncated linear
/// interpolation `(a * fg + (255 - a) * bg) / 255`, each output channel
/// drawn strictly from its own source and accumulator channel.
pub open spec fn blend_channel(a: u8, fg: u8, bg: u8) -> u8 {
    (((a as int) * (fg as int) + (255 - a as int) * (bg as int)) / 255) as u8
}

/// The accumulator color after blending a layer color `fg` with opacity `a`
/// onto the accumulator `bg`: opacity 0 leaves the accumulator untouched,
/// opacity 255 overwrites it, anything between interpolates per channel.
pub open spec fn blend(a: u8, fg: (u8, u8, u8), bg: (u8, u8, u8)) -> (u8, u8, u8) {
    if a == 0 {
        bg
    } else if a == 255 {
        fg
    } else {
        (blend_channel(a, fg.0, bg.0), blend_channel(a, fg.1, bg.1), blend_channel(a, fg.2, bg.2))
    }
}

/// The accumulator color after one layer's contribution at canvas
/// coordinate `(x, y)`: an invisible layer, or one that does not cover the
/// coordinate, leaves the accumulator unchanged; otherwise the layer's
/// palette-resolved color is blended on by its opacity.
pub open spec fn layer_applied(
    l: Layer,
    colors: Seq<u8>,
    x: int,
    y: int,
    acc: (u8, u8, u8),
) -> (u8, u8, u8) {
    if !l.visible {
        acc
    } else if !l.covers(x, y) {
        acc
    } else {
        blend(l.opacity, rgb_at(colors, l.index_at(x, y) as int), acc)
    }
}

/// The accumulator color after walking a layer stack bottom to top over the
/// starting accumulator `acc`.
pub open spec fn composite_onto(
    layers: Seq<Layer>,
    colors: Seq<u8>,
    x: int,
    y: int,
    acc: (u8, u8, u8),
) -> (u8, u8, u8)
    decreases layers.len(),
{
    if layers.len() == 0 {
        acc
    } else {
        layer_applied(layers.last(), colors, x, y, composite_onto(layers.drop_last(), colors, x, y, acc))
    }
}

/// The resolved color of canvas pixel `(x, y)`: the layer stack composited
/// bottom to top over the black background.
pub open spec fn composite(layers: Seq<Layer>, colors: Seq<u8>, x: int, y: int) -> (u8, u8, u8) {
    composite_onto(layers, colors, x, y, (0u8, 0u8, 0u8))
}

/// The fill instruction a render pass owes for canvas pixel `(x, y)`.
pub open spec fn pixel_command(lm: LayerManager, colors: Seq<u8>, x: int, y: int) -> FillCommand {
    let c = composite(lm.layers@, colors, x, y);
    FillCommand { x: x as i32, y: y as i32, r: c.0, g: c.1, b: c.2 }
}

/// Whether `cmds` is the full frame for manager `lm` under palette bytes
/// `colors`: one instruction per canvas pixel, column by column with `y`
/// moving fastest, each carrying that pixel's composited color.
pub open spec fn frame_ok(lm: LayerManager, colors: Seq<u8>, cmds: Seq<FillCommand>) -> bool {
    &&& cmds.len() == lm.width * lm.height
    &&& forall|x: int, y: int|
        0 <= x < lm.width && 0 <= y < lm.height ==> cmds[x * lm.height + y] == pixel_command(
            lm,
            colors,
            x,
            y,
        )
}

/// One channel of the opacity blend, computed exactly as `blend_channel`
/// states it.
fn blend_channel_exec(a: u8, fg: u8, bg: u8) -> (r: u8)
    ensures
        r == blend_channel(a, fg, bg),
{
    proof {
        assert((a as int) * (fg as int) <= 255 * 255) by (nonlinear_arith)
            requires
                0 <= a as int <= 255,
                0 <= fg as int <= 255,
        ;
        assert((255 - a as int) * (bg as int) <= 255 * 255) by (nonlinear_arith)
            requires
                0 <= a as int <= 255,
                0 <= bg as int <= 255,
        ;
    }
    let num: u32 = (a as u32) * (fg as u32) + (255 - a as u32) * (bg as u32);
    let q: u32 = num / 255;
    q as u8
}

/// Resolves one canvas pixel: walks the layer stack bottom to top, blending
/// each visible covering layer's palette color onto the accumulator.
pub fn composite_pixel(layers: &Vec<Layer>, palette: &Palette, x: i32, y: i32) -> (c: (u8, u8, u8))
    requires
        forall|i: int| 0 <= i < layers@.len() ==> layers@[i].wf(),
        palette.wf(),
    ensures
        c == composite(layers@, palette.colors@, x as int, y as int),
{
    let mut r: u8 = 0;
    let mut g: u8 = 0;
    let mut b: u8 = 0;
    let mut i: usize = 0;
    while i < layers.len()
        invariant
            i <= layers@.len(),
            forall|j: int| 0 <= j < layers@.len() ==> layers@[j].wf(),
            palette.wf(),
            (r, g, b) == composite_onto(
                layers@.take(i as int),
                palette.colors@,
                x as int,
                y as int,
                (0u8, 0u8, 0u8),
            ),
        decreases layers@.len() - i,
    {
        let layer = &layers[i];
        if layer.visible {
            let lx: i64 = x as i64 - layer.offset_x as i64;
            let ly: i64 = y as i64 - layer.offset_y as i64;
            if 0 <= lx && lx < layer.width as i64 && 0 <= ly && ly < layer.height as i64 {
                let w64: i64 = layer.width as i64;
                proof {
                    assert(0 <= (ly as int) * (w64 as int) <= 0x7fff_ffff * 0x7fff_ffff)
                        by (nonlinear_arith)
                        requires
                            0 <= ly as int <= 0x7fff_ffff,
                            0 <= w64 as int <= 0x7fff_ffff,
                    ;
                    assert((ly as int) * (w64 as int) + lx < (layer.height as int) * (
                    layer.width as int)) by (nonlinear_arith)
                        requires
                            0 <= (lx as int),
                            (lx as int) < (layer.width as int),
                            0 <= (ly as int),
                            (ly as int) < (layer.height as int),
                            (w64 as int) == (layer.width as int),
                    ;
                    assert((layer.height as int) * (layer.width as int) == (layer.width as int) * (
                    layer.height as int)) by (nonlinear_arith);
                    assert(layers@[i as int].wf());
                }
                let npix: usize = layer.pixels.len();
                proof {
                    assert((ly as int) * (w64 as int) + (lx as int) < npix as int);
                }
                let idx: usize = (ly * w64 + lx) as usize;
                proof {
                    assert(layer.covers(x as int, y as int));
                    assert(idx as int == (y as int - layer.offset_y as int) * (layer.width as int)
                        + (x as int - layer.offset_x as int));
                }
                let pi = layer.pixels[idx];
                proof {
                    assert(pi == layer.index_at(x as int, y as int));
                }
                let base: usize = (pi as usize) * 3;
                let lr = palette.colors[base];
                let lg = palette.colors[base + 1];
                let lb = palette.colors[base + 2];
                let a = layer.opacity;
                if a == 255 {
                    r = lr;
                    g = lg;
                    b = lb;
                } else if a != 0 {
                    r = blend_channel_exec(a, lr, r);
                    g = blend_channel_exec(a, lg, g);
                    b = blend_channel_exec(a, lb, b);
                }
            }
        }
        proof {
            assert(layers@.take(i as int + 1).drop_last() =~= layers@.take(i as int));
            assert(layers@.take(i as int + 1).last() == layers@[i as int]);
        }
        i = i + 1;
    }
    proof {
        assert(layers@.take(layers@.len() as int) =~= layers@);
    }
    (r, g, b)
}

/// A full redraw: one fill instruction per canvas pixel, each carrying the
/// composited color of its pixel, column by column with `y` moving fastest.
pub fn render_frame(lm: &LayerManager, palette: &Palette) -> (cmds: Vec<FillCommand>)
    requires
        lm.wf(),
        palette.wf(),
    ensures
        frame_ok(*lm, palette.colors@, cmds@),
{
    let mut cmds: Vec<FillCommand> = Vec::new();
    let mut x: i32 = 0;
    while x < lm.width
        invariant
            lm.wf(),
            palette.wf(),
            0 <= x <= lm.width,
            cmds@.len() == x * lm.height,
            forall|xi: int, yi: int|
                0 <= xi < x && 0 <= yi < lm.height ==> cmds@[xi * lm.height + yi] == pixel_command(
                    *lm,
                    palette.colors@,
                    xi,
                    yi,
                ),
        decreases lm.width - x,
    {
        let mut y: i32 = 0;
        while y < lm.height
            invariant
                lm.wf(),
                palette.wf(),
                0 <= x < lm.width,
                0 <= y <= lm.height,
                cmds@.len() == x * lm.height + y,
                forall|xi: int, yi: int|
                    0 <= xi < x && 0 <= yi < lm.height ==> cmds@[xi * lm.height + yi]
                        == pixel_command(*lm, palette.colors@, xi, yi),
                forall|yi: int|
                    0 <= yi < y ==> cmds@[x * lm.height + yi] == pixel_command(
                        *lm,
                        palette.colors@,
                        x as int,
                        yi,
                    ),
            decreases lm.height - y,
        {
            let c = composite_pixel(&lm.layers, palette, x, y);
            let ghost pre = cmds@;
            cmds.push(FillCommand { x, y, r: c.0, g: c.1, b: c.2 });
            proof {
                assert forall|xi: int, yi: int|
                    0 <= xi < x && 0 <= yi < lm.height implies #[trigger] cmds@[xi * (
                lm.height as int) + yi] == pixel_command(*lm, palette.colors@, xi, yi) by {
                    assert(0 <= xi * (lm.height as int) + yi && xi * (lm.height as int) + yi < x
                        * (lm.height as int)) by (nonlinear_arith)
                        requires
                            0 <= xi,
                            xi < x,
                            0 <= yi,
                            yi < (lm.height as int),
                    ;
                    assert(cmds@[xi * (lm.height as int) + yi] == pre[xi * (lm.height as int)
                        + yi]);
                }
            }
            y = y + 1;
        }
        proof {
            assert((x + 1) * (lm.height as int) == x * (lm.height as int) + lm.height as int)
                by (nonlinear_arith);
        }
        x = x + 1;
    }
    cmds
}

/// A fully opaque, visible layer that covers `(x, y)` determines that
/// pixel outright: compositing any stack that ends with it yields exactly
/// the layer's palette-resolved color there, whatever lies beneath.
pub proof fn lemma_opaque_layer_determines(
    below: Seq<Layer>,
    top: Layer,
    colors: Seq<u8>,
    x: int,
    y: int,
)
    requires
        top.visible,
        top.opacity == 255,
        top.covers(x, y),
    ensures
        composite(below.push(top), colors, x, y) == rgb_at(colors, top.index_at(x, y) as int),
{
    assert(below.push(top).last() == top);
    assert(below.push(top).drop_last() =~= below);
}

/// Wherever a fully opaque, visible layer covers the canvas, it occludes
/// everything beneath it: the stacks below it can be exchanged freely
/// without changing the composited pixel.
pub proof fn lemma_opaque_layer_occludes(
    below1: Seq<Layer>,
    below2: Seq<Layer>,
    top: Layer,
    above: Seq<Layer>,
    colors: Seq<u8>,
    x: int,
    y: int,
)
    requires
        top.visible,
        top.opacity == 255,
        top.covers(x, y),
    ensures
        composite(below1.push(top) + above, colors, x, y) == composite(
            below2.push(top) + above,
            colors,
            x,
            y,
        ),
    decreases above.len(),
{
    if above.len() == 0 {
        assert(below1.push(top) + above =~= below1.push(top));
        assert(below2.push(top) + above =~= below2.push(top));
        lemma_opaque_layer_determines(below1, top, colors, x, y);
        lemma_opaque_layer_determines(below2, top, colors, x, y);
    } else {
        assert((below1.push(top) + above).last() == above.last());
        assert((below2.push(top) + above).last() == above.last());
        assert((below1.push(top) + above).drop_last() =~= below1.push(top) + above.drop_last());
        assert((below2.push(top) + above).drop_last() =~= below2.push(top) + above.drop_last());
        lemma_opaque_layer_occludes(below1, below2, top, above.drop_last(), colors, x, y);
    }
}

/// A layer with opacity 0 contributes nothing: compositing with it in the
/// stack gives exactly the same pixel as compositing without it.
pub proof fn lemma_transparent_layer_no_effect(
    below: Seq<Layer>,
    l: Layer,
    above: Seq<Layer>,
    colors: Seq<u8>,
    x: int,
    y: int,
)
    requires
        l.opacity == 0,
    ensures
        composite(below.push(l) + above, colors, x, y) == composite(below + above, colors, x, y),
    decreases above.len(),
{
    if above.len() == 0 {
        assert(below.push(l) + above =~= below.push(l));
        assert(below + above =~= below);
        assert(below.push(l).last() == l);
        assert(below.push(l).drop_last() =~= below);
    } else {
        assert((below.push(l) + above).last() == above.last());
        assert((below + above).last() == above.last());
        assert((below.push(l) + above).drop_last() =~= below.push(l) + above.drop_last());
        assert((below + above).drop_last() =~= below + above.drop_last());
        lemma_transparent_layer_no_effect(below, l, above.drop_last(), colors, x, y);
    }
}

/// Two render passes over equal canvas dimensions whose stacks resolve
/// every canvas pixel to the same color produce byte-identical frames.
pub proof fn lemma_frames_pointwise_equal(
    lm1: LayerManager,
    lm2: LayerManager,
    colors: Seq<u8>,
    f1: Seq<FillCommand>,
    f2: Seq<FillCommand>,
)
    requires
        lm1.width == lm2.width,
        lm1.height == lm2.height,
        0 < lm1.width,
        0 < lm1.height,
        frame_ok(lm1, colors, f1),
        frame_ok(lm2, colors, f2),
        forall|x: int, y: int|
            0 <= x < lm1.width && 0 <= y < lm1.height ==> composite(lm1.layers@, colors, x, y)
                == composite(lm2.layers@, colors, x, y),
    ensures
        f1 == f2,
{
    let h = lm1.height as int;
    let w = lm1.width as int;
    assert forall|k: int| 0 <= k < f1.len() implies f1[k] == f2[k] by {
        vstd::arithmetic::div_mod::lemma_fundamental_div_mod(k, h);
        vstd::arithmetic::div_mod::lemma_mod_division_less_than_divisor(k, h);
        let x = k / h;
        let y = k % h;
        assert(0 <= x) by (nonlinear_arith)
            requires
                0 <= k,
                0 < h,
                k == h * x + y,
                0 <= y,
                y < h,
        ;
        assert(x < w) by (nonlinear_arith)
            requires
                k < w * h,
                0 < h,
                k == h * x + y,
                0 <= y,
                y < h,
        ;
        assert(x * h + y == k);
        assert(f1[x * h + y] == pixel_command(lm1, colors, x, y));
        assert(f2[x * h + y] == pixel_command(lm2, colors, x, y));
        assert(composite(lm1.layers@, colors, x, y) == composite(lm2.layers@, colors, x, y));
    }
    assert(f1 =~= f2);
}

/// Rendering with an opacity-0 layer present is byte-identical to
/// rendering with it absent: the two full frames are equal, instruction
/// for instruction.
pub proof fn lemma_transparent_layer_frame_identical(
    lm_with: LayerManager,
    lm_without: LayerManager,
    below: Seq<Layer>,
    l: Layer,
    above: Seq<Layer>,
    colors: Seq<u8>,
    f_with: Seq<FillCommand>,
    f_without: Seq<FillCommand>,
)
    requires
        l.opacity == 0,
        lm_with.layers@ == below.push(l) + above,
        lm_without.layers@ == below + above,
        lm_with.width == lm_without.width,
        lm_with.height == lm_without.height,
        0 < lm_with.width,
        0 < lm_with.height,
        frame_ok(lm_with, colors, f_with),
        frame_ok(lm_without, colors, f_without),
    ensures
        f_with == f_without,
{
    assert forall|x: int, y: int|
        0 <= x < lm_with.width && 0 <= y < lm_with.height implies composite(
        lm_with.layers@,
        colors,
        x,
        y,
    ) == composite(lm_without.layers@, colors, x, y) by {
        lemma_transparent_layer_no_effect(below, l, above, colors, x, y);
    }
    lemma_frames_pointwise_equal(lm_with, lm_without, colors, f_with, f_without);
}

/// Whether every layer of a stack is either fully transparent or fully
/// opaque.
pub open spec fn stack_binary_opacity(s: Seq<Layer>) -> bool {
    forall|i: int| 0 <= i < s.len() ==> s[i].opacity == 0 || s[i].opacity == 255
}

/// With only fully transparent or fully opaque layers the accumulator never
/// mixes into the output: a stack either passes any starting accumulator
/// through unchanged, or resolves to one color independent of it.  Together
/// with `lemma_composite_split` this makes accumulation over such stacks
/// insensitive to grouping; a partial opacity breaks this, as its channels
/// truncate against the accumulator (`blend_channel`).
pub proof fn lemma_binary_opacity_accumulator_independent(
    s: Seq<Layer>,
    colors: Seq<u8>,
    x: int,
    y: int,
    acc1: (u8, u8, u8),
    acc2: (u8, u8, u8),
)
    requires
        stack_binary_opacity(s),
    ensures
        composite_onto(s, colors, x, y, acc1) == composite_onto(s, colors, x, y, acc2)
            || (composite_onto(s, colors, x, y, acc1) == acc1 && composite_onto(s, colors, x, y, acc2)
            == acc2),
    decreases s.len(),
{
    if s.len() > 0 {
        assert(stack_binary_opacity(s.drop_last()));
        lemma_binary_opacity_accumulator_independent(s.drop_last(), colors, x, y, acc1, acc2);
    }
}

/// Accumulation splits over concatenation: compositing a stack in one pass
/// equals compositing its lower part first and feeding the result to the
/// upper part as the starting accumulator.  With partial opacities this
/// sequential order is the only grouping the engine defines; the per-step
/// color is pinned by the exact integer formula of `blend_channel`.
pub proof fn lemma_composite_split(
    s1: Seq<Layer>,
    s2: Seq<Layer>,
    colors: Seq<u8>,
    x: int,
    y: int,
    acc: (u8, u8, u8),
)
    ensures
        composite_onto(s1 + s2, colors, x, y, acc) == composite_onto(
            s2,
            colors,
            x,
            y,
            composite_onto(s1, colors, x, y, acc),
        ),
    decreases s2.len(),
{
    if s2.len() == 0 {
        assert(s1 + s2 =~= s1);
    } else {
        assert((s1 + s2).last() == s2.last());
        assert((s1 + s2).drop_last() =~= s1 + s2.drop_last());
        lemma_composite_split(s1, s2.drop_last(), colors, x, y, acc);
    }
}

} // verus!
