use pixelcomp::compositor::FillCommand;
use pixelcomp::palette::Palette;
use pixelcomp::viewport::Viewport;
use pixelcomp::{EngineError, World};

fn frame_of(w: &World) -> Vec<(i32, i32, u8, u8, u8)> {
    w.render().iter().map(|c| (c.x, c.y, c.r, c.g, c.b)).collect()
}

fn color_at(frame: &[FillCommand], x: i32, y: i32) -> (u8, u8, u8) {
    let c = frame
        .iter()
        .find(|c| c.x == x && c.y == y)
        .expect("frame misses a canvas pixel");
    (c.r, c.g, c.b)
}

#[test]
fn palette_set_then_lookup_returns_exact_triple() {
    let mut p = Palette::new();
    assert_eq!(p.set_color(7, 10, 20, 30), Ok(()));
    assert_eq!(p.lookup(7), Ok((10, 20, 30)));
}

#[test]
fn palette_set_leaves_other_entries_unchanged() {
    let mut p = Palette::new();
    assert_eq!(p.set_color(3, 1, 2, 3), Ok(()));
    assert_eq!(p.set_color(4, 9, 9, 9), Ok(()));
    assert_eq!(p.lookup(3), Ok((1, 2, 3)));
    assert_eq!(p.lookup(2), Ok((0, 0, 0)));
    assert_eq!(p.lookup(5), Ok((0, 0, 0)));
}

#[test]
fn palette_rejects_out_of_range_index() {
    let mut p = Palette::new();
    assert_eq!(p.set_color(256, 1, 2, 3), Err(EngineError::IndexOutOfRange));
    assert_eq!(p.lookup(256), Err(EngineError::IndexOutOfRange));
    assert_eq!(p.lookup(0), Ok((0, 0, 0)));
}

#[test]
fn world_starts_with_one_default_layer() {
    let w = World::new(4, 3);
    assert_eq!(w.layer_manager.width, 4);
    assert_eq!(w.layer_manager.height, 3);
    assert_eq!(w.layer_manager.layers.len(), 1);
    let l = &w.layer_manager.layers[0];
    assert_eq!((l.width, l.height), (4, 3));
    assert_eq!((l.offset_x, l.offset_y), (0, 0));
    assert!(l.visible);
    assert_eq!(l.opacity, 255);
    assert_eq!(l.pixels, vec![0u8; 12]);
    assert_eq!((w.viewport.offset_x, w.viewport.offset_y), (0, 0));
}

#[test]
fn world_set_palette_color_out_of_range_is_error() {
    let mut w = World::new(2, 2);
    assert_eq!(
        w.set_palette_color(300, 1, 2, 3),
        Err(EngineError::IndexOutOfRange)
    );
    assert_eq!(w.palette.lookup(0), Ok((0, 0, 0)));
}

#[test]
fn pan_then_inverse_pan_restores_offset() {
    let mut v = Viewport::new();
    v.pan(17, -40);
    v.pan(123456, 654321);
    v.pan(-123456, -654321);
    v.pan(-17, 40);
    assert_eq!((v.offset_x, v.offset_y), (0, 0));
}

#[test]
fn pan_wraps_around_the_i32_range() {
    let mut v = Viewport::new();
    v.pan(i32::MAX, 0);
    v.pan(1, 0);
    assert_eq!(v.offset_x, i32::MIN);
    v.pan(-1, 0);
    v.pan(-i32::MAX, 0);
    assert_eq!(v.offset_x, 0);
}

#[test]
fn viewport_apply_offset_adds_pan_displacement() {
    let mut v = Viewport::new();
    v.pan(10, -4);
    assert_eq!(v.apply_offset(1, 2), (11, -2));
}

#[test]
fn world_pan_moves_only_the_viewport() {
    let mut w = World::new(2, 2);
    let before = frame_of(&w);
    w.pan(5, -3);
    assert_eq!((w.viewport.offset_x, w.viewport.offset_y), (5, -3));
    assert_eq!(frame_of(&w), before);
}

#[test]
fn render_full_red_canvas_emits_four_red_fills() {
    let mut w = World::new(2, 2);
    assert_eq!(w.set_palette_color(0, 255, 0, 0), Ok(()));
    let frame = w.render();
    assert_eq!(frame.len(), 4);
    let cells: Vec<(i32, i32)> = frame.iter().map(|c| (c.x, c.y)).collect();
    assert_eq!(cells, vec![(0, 0), (0, 1), (1, 0), (1, 1)]);
    for c in &frame {
        assert_eq!((c.r, c.g, c.b), (255, 0, 0));
    }
}

#[test]
fn offset_layer_misses_column_zero() {
    let mut w = World::new(2, 2);
    assert_eq!(w.set_palette_color(1, 0, 255, 0), Ok(()));
    w.add_layer();
    let l = &mut w.layer_manager.layers[1];
    l.width = 1;
    l.height = 2;
    l.offset_x = 1;
    l.pixels = vec![1, 1];
    let frame = w.render();
    assert_eq!(color_at(&frame, 0, 0), (0, 0, 0));
    assert_eq!(color_at(&frame, 0, 1), (0, 0, 0));
    assert_eq!(color_at(&frame, 1, 0), (0, 255, 0));
    assert_eq!(color_at(&frame, 1, 1), (0, 255, 0));
}

#[test]
fn opaque_covering_layer_reproduces_its_colors_exactly() {
    let mut w = World::new(2, 2);
    assert_eq!(w.set_palette_color(0, 255, 0, 0), Ok(()));
    assert_eq!(w.set_palette_color(1, 12, 34, 56), Ok(()));
    w.add_layer();
    w.layer_manager.layers[1].pixels = vec![1, 1, 1, 1];
    let frame = w.render();
    for c in &frame {
        assert_eq!((c.r, c.g, c.b), (12, 34, 56));
    }
}

#[test]
fn opaque_layer_occludes_whatever_lies_beneath() {
    let mut first = World::new(2, 2);
    assert_eq!(first.set_palette_color(0, 200, 100, 50), Ok(()));
    assert_eq!(first.set_palette_color(1, 7, 8, 9), Ok(()));
    first.add_layer();
    first.layer_manager.layers[1].pixels = vec![1, 1, 1, 1];

    let mut second = World::new(2, 2);
    assert_eq!(second.set_palette_color(0, 1, 2, 3), Ok(()));
    assert_eq!(second.set_palette_color(1, 7, 8, 9), Ok(()));
    second.add_layer();
    second.layer_manager.layers[1].pixels = vec![1, 1, 1, 1];
    second.layer_manager.layers[0].opacity = 128;

    assert_eq!(frame_of(&first), frame_of(&second));
    for c in &first.render() {
        assert_eq!((c.r, c.g, c.b), (7, 8, 9));
    }
}

#[test]
fn opacity_zero_layer_changes_nothing() {
    let mut with = World::new(3, 2);
    assert_eq!(with.set_palette_color(0, 40, 50, 60), Ok(()));
    assert_eq!(with.set_palette_color(1, 250, 250, 250), Ok(()));
    with.add_layer();
    with.layer_manager.layers[1].pixels = vec![1; 6];
    with.layer_manager.layers[1].opacity = 0;

    let mut without = World::new(3, 2);
    assert_eq!(without.set_palette_color(0, 40, 50, 60), Ok(()));
    assert_eq!(without.set_palette_color(1, 250, 250, 250), Ok(()));

    assert_eq!(frame_of(&with), frame_of(&without));
}

#[test]
fn invisible_layer_changes_nothing() {
    let mut w = World::new(2, 1);
    assert_eq!(w.set_palette_color(1, 99, 99, 99), Ok(()));
    w.add_layer();
    w.layer_manager.layers[1].pixels = vec![1, 1];
    w.layer_manager.layers[1].visible = false;
    for c in &w.render() {
        assert_eq!((c.r, c.g, c.b), (0, 0, 0));
    }
}

#[test]
fn partial_opacity_follows_exact_truncated_formula() {
    // One layer at opacity 128 over the black background:
    // channel = (128 * fg + 127 * 0) / 255, truncated.
    let mut w = World::new(1, 1);
    assert_eq!(w.set_palette_color(0, 200, 100, 255), Ok(()));
    w.layer_manager.layers[0].opacity = 128;
    let frame = w.render();
    assert_eq!(
        color_at(&frame, 0, 0),
        (
            ((128 * 200) / 255) as u8,
            ((128 * 100) / 255) as u8,
            ((128 * 255) / 255) as u8,
        )
    );
    assert_eq!(color_at(&frame, 0, 0), (100, 50, 128));
}

#[test]
fn two_partial_opacities_accumulate_sequentially() {
    // Bottom layer: opacity 128, color (200, 60, 10) over black.
    // Top layer: opacity 128, color (50, 180, 90) over that result.
    // Each channel must follow (a * fg + (255 - a) * bg) / 255, truncated,
    // from its own source channel only.
    let mut w = World::new(1, 1);
    assert_eq!(w.set_palette_color(0, 200, 60, 10), Ok(()));
    assert_eq!(w.set_palette_color(1, 50, 180, 90), Ok(()));
    w.layer_manager.layers[0].opacity = 128;
    w.add_layer();
    w.layer_manager.layers[1].pixels = vec![1];
    w.layer_manager.layers[1].opacity = 128;

    let step = |a: u32, fg: u32, bg: u32| ((a * fg + (255 - a) * bg) / 255) as u8;
    let bottom = (step(128, 200, 0), step(128, 60, 0), step(128, 10, 0));
    let expected = (
        step(128, 50, bottom.0 as u32),
        step(128, 180, bottom.1 as u32),
        step(128, 90, bottom.2 as u32),
    );
    let frame = w.render();
    assert_eq!(color_at(&frame, 0, 0), expected);
    assert_eq!(expected, (74, 105, 47));
}

#[test]
fn layer_outside_canvas_leaves_background() {
    let mut w = World::new(2, 2);
    assert_eq!(w.set_palette_color(1, 5, 6, 7), Ok(()));
    w.add_layer();
    let l = &mut w.layer_manager.layers[1];
    l.offset_x = 10;
    l.offset_y = -10;
    l.pixels = vec![1, 1, 1, 1];
    for c in &w.render() {
        assert_eq!((c.r, c.g, c.b), (0, 0, 0));
    }
}
