use rust_ed::editor::Editor;
use rust_ed::renderer::{transform_view_coordinates, Rect, RenderOpts, Renderer, StringRenderer};
use rust_ed::vector::Vector2;

fn opts(x: i64, y: i64, w: i32, h: i32, scale: u32) -> RenderOpts {
    RenderOpts { view: Rect { location: Vector2(x, y), width: w, height: h }, scale }
}

#[test]
fn full_frame_pads_with_blanks() {
    let e = Editor::from("ab\ncde");
    let out = StringRenderer::new().render(&e, opts(0, 0, 4, 3, 10));
    assert_eq!(out, "ab  \ncde \n    \n");
}

#[test]
fn frame_follows_view_location() {
    let e = Editor::from("ab\ncde");
    let out = StringRenderer::new().render(&e, opts(1000, 1000, 2, 1, 10));
    assert_eq!(out, "de\n");
    let out = StringRenderer::new().render(&e, opts(-1000, 0, 3, 1, 10));
    assert_eq!(out, " ab\n");
}

#[test]
fn line_hint_renders_one_row() {
    let e = Editor::from("ab\ncde\nf");
    let out = StringRenderer::with_line_hint(1).render(&e, opts(0, 0, 5, 10, 10));
    assert_eq!(out, "cde  \n");
}

#[test]
fn break_on_line_end_stops_row() {
    let e = Editor::from("ab\ncde");
    let r = StringRenderer { line_hint: Some(0), break_on_line_end: true };
    assert_eq!(r.render(&e, opts(0, 0, 5, 1, 10)), "ab\n");
}

#[test]
fn scale_two_skips_cells() {
    let e = Editor::from("abcdef\n123456\nxyz");
    let out = StringRenderer::new().render(&e, opts(0, 0, 3, 2, 20));
    assert_eq!(out, "ace\nxz \n");
}

#[test]
fn zoom_preserves_center_scenario() {
    let mut o = opts(10000, 10000, 80, 24, 10);
    o.set_scale(20);
    assert_eq!(o.scale, 20);
    assert_eq!(o.view.location, Vector2(-15000, -1000));
    o.set_scale(10);
    assert_eq!(o.view.location, Vector2(10000, 10000));
}

#[test]
fn transform_scales_and_rounds_down() {
    assert_eq!(transform_view_coordinates(Vector2(50000, -7), 10, 20), Vector2(25000, -4));
    assert_eq!(transform_view_coordinates(Vector2(3, 3), 10, 3), Vector2(10, 10));
}

#[test]
fn rect_geometry() {
    let r = Rect { location: Vector2(2000, 3000), width: 5, height: 4 };
    assert_eq!(r.area(), 20);
    assert_eq!(r.x(), 2000);
    assert_eq!(r.y(), 3000);
    assert!(r.contains(Vector2(2, 3)));
    assert!(r.contains(Vector2(6, 6)));
    assert!(!r.contains(Vector2(7, 3)));
    assert!(!r.contains(Vector2(2, 7)));
    assert!(!r.contains(Vector2(1, 3)));
    assert_eq!(r.center(), Vector2(2500, 2000));
    assert_eq!(r.center_point(), Vector2(4500, 5000));
}

#[test]
fn default_opts() {
    let o = RenderOpts::default();
    assert_eq!(o.scale, 10);
    assert_eq!(o.view.width, 0);
    assert_eq!(o.view.location, Vector2(0, 0));
}

#[test]
fn vector_ops() {
    let a: Vector2<i32> = Vector2(1, 2);
    assert_eq!(a.add(Vector2(3, -4)), Vector2(4, -2));
    assert_eq!(Vector2::<i32>::from(a), Vector2(1i64, 2i64));
    assert!(Vector2(5, 1).before(&Vector2(0, 2)));
    assert!(!Vector2(0, 2).before(&Vector2(5, 1)));
    assert!(Vector2(1, 1).before(&Vector2(2, 1)));
}

#[test]
fn renderer_trait_draws_text() {
    let e = Editor::from("xy");
    let r = StringRenderer::new();
    let out: String = <StringRenderer as Renderer>::render(&r, &e, opts(0, 0, 3, 1, 10));
    assert_eq!(out, "xy \n");
}
