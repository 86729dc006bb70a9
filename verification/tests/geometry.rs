use rendercore::boxmodel::BoxModel;
use rendercore::geom::{Edges, Rect, PX};
use rendercore::painter::{
    dash_values, do_paint_rectangle, draw_double_border, draw_single_border, setup_rectangle_path,
    Border, BorderStyle, Brush, Color, CornerRadii, DashPattern, DrawOp, PaintError, Rectangle,
    ShapeEnum,
};

fn px(n: i64) -> i64 {
    n * PX
}

#[test]
fn rect_overlap_basics() {
    let a = Rect { x: 0, y: 0, width: px(100), height: px(100) };
    let b = Rect { x: px(50), y: px(50), width: px(100), height: px(100) };
    let c = Rect { x: px(100), y: 0, width: px(100), height: px(100) };
    assert!(a.overlaps(&b));
    assert!(b.overlaps(&a));
    // Touching edge to edge is not overlap.
    assert!(!a.overlaps(&c));
}

#[test]
fn rect_translate_shifts_origin_only() {
    let a = Rect { x: px(10), y: px(20), width: px(30), height: px(40) };
    let t = a.translate(-px(10), -px(20));
    assert_eq!(t, Rect { x: 0, y: 0, width: px(30), height: px(40) });
}

#[test]
fn box_model_nesting_by_successive_insets() {
    let bm = BoxModel {
        margin_box: Rect { x: 0, y: 0, width: px(120), height: px(120) },
        margin: Edges { top: px(10), right: px(10), bottom: px(10), left: px(10) },
        border: Edges { top: px(2), right: px(2), bottom: px(2), left: px(2) },
        padding: Edges { top: px(3), right: px(3), bottom: px(3), left: px(3) },
    };
    assert_eq!(bm.border_box(), Rect { x: px(10), y: px(10), width: px(100), height: px(100) });
    assert_eq!(bm.padding_box(), Rect { x: px(12), y: px(12), width: px(96), height: px(96) });
    assert_eq!(bm.content_box(), Rect { x: px(15), y: px(15), width: px(90), height: px(90) });
}

#[test]
fn box_model_zero_edges_collapses_all_boxes() {
    let bm = BoxModel {
        margin_box: Rect { x: px(7), y: px(9), width: px(50), height: px(60) },
        margin: Edges::zero(),
        border: Edges::zero(),
        padding: Edges::zero(),
    };
    assert_eq!(bm.margin_box(), bm.border_box());
    assert_eq!(bm.border_box(), bm.padding_box());
    assert_eq!(bm.padding_box(), bm.content_box());
}

#[test]
fn box_model_zero_is_all_zero() {
    let bm = BoxModel::zero();
    assert_eq!(bm.margin_box(), Rect { x: 0, y: 0, width: 0, height: 0 });
    assert_eq!(bm.content_box(), Rect { x: 0, y: 0, width: 0, height: 0 });
}

fn double_bordered(width_units: i64) -> Rectangle {
    Rectangle::new(Rect { x: 0, y: 0, width: px(100), height: px(100) }).with_border(Border::new(
        width_units,
        BorderStyle::Double,
        Brush::Solid(Color::black()),
    ))
}

#[test]
fn double_border_just_below_three_pixels_degrades_to_single_stroke() {
    // Width 2.9 pixels: no room for two lines.
    let ops = draw_double_border(&double_bordered(29));
    assert_eq!(ops.len(), 1);
    match ops[0] {
        DrawOp::Stroke { width, dash, .. } => {
            assert_eq!(width, 29);
            assert_eq!(dash, DashPattern::Uninterrupted);
        }
        _ => panic!("expected a stroke"),
    }
}

#[test]
fn double_border_at_three_pixels_gives_two_one_pixel_strokes() {
    // Width 3.0 pixels: two strokes of floor(1.5) = 1 pixel, a 1 pixel gap.
    let ops = draw_double_border(&double_bordered(30));
    assert_eq!(ops.len(), 2);
    match ops[0] {
        DrawOp::Stroke { width, shape, .. } => {
            assert_eq!(width, px(1));
            assert_eq!(shape, ShapeEnum::Rect(Rect { x: 0, y: 0, width: px(100), height: px(100) }));
        }
        _ => panic!("expected a stroke"),
    }
    match ops[1] {
        DrawOp::Stroke { width, shape, .. } => {
            assert_eq!(width, px(1));
            // Inset from top/left by stroke width + 1 pixel gap = 2 pixels.
            assert_eq!(
                shape,
                ShapeEnum::Rect(Rect { x: px(2), y: px(2), width: px(98), height: px(98) })
            );
        }
        _ => panic!("expected a stroke"),
    }
}

#[test]
fn dash_patterns_have_documented_lengths() {
    assert_eq!(dash_values(DashPattern::Uninterrupted), Vec::<i64>::new());
    assert_eq!(dash_values(DashPattern::Dashed), vec![px(50), px(10), px(10), px(10)]);
    assert_eq!(dash_values(DashPattern::Dotted), vec![px(10), px(10)]);
}

#[test]
fn single_border_keeps_full_width_and_dash() {
    let rect = Rectangle::new(Rect { x: 0, y: 0, width: px(10), height: px(10) }).with_border(
        Border::new(px(2), BorderStyle::Dashed, Brush::Solid(Color::black())),
    );
    match draw_single_border(&rect, DashPattern::Dashed) {
        DrawOp::Stroke { width, dash, .. } => {
            assert_eq!(width, px(2));
            assert_eq!(dash, DashPattern::Dashed);
        }
        _ => panic!("expected a stroke"),
    }
}

#[test]
fn paint_rectangle_emits_fill_then_strokes() {
    let rect = Rectangle::new(Rect { x: 0, y: 0, width: px(10), height: px(10) })
        .with_background(Brush::Solid(Color::black()))
        .with_border(Border::new(px(1), BorderStyle::Solid, Brush::Solid(Color::black())));
    let ops = do_paint_rectangle(&rect).unwrap();
    assert_eq!(ops.len(), 2);
    assert!(matches!(ops[0], DrawOp::Fill { .. }));
    assert!(matches!(ops[1], DrawOp::Stroke { .. }));
}

#[test]
fn paint_rectangle_hidden_border_draws_nothing() {
    let rect = Rectangle::new(Rect { x: 0, y: 0, width: px(10), height: px(10) }).with_border(
        Border::new(px(4), BorderStyle::Hidden, Brush::Solid(Color::black())),
    );
    let ops = do_paint_rectangle(&rect).unwrap();
    assert!(ops.is_empty());
}

#[test]
fn paint_rectangle_reserved_styles_are_reported_unsupported() {
    for style in [BorderStyle::Groove, BorderStyle::Ridge, BorderStyle::Inset, BorderStyle::Outset]
    {
        let rect = Rectangle::new(Rect { x: 0, y: 0, width: px(10), height: px(10) })
            .with_border(Border::new(px(1), style, Brush::Solid(Color::black())));
        assert_eq!(do_paint_rectangle(&rect), Err(PaintError::UnsupportedBorderStyle));
    }
}

#[test]
fn paint_rectangle_double_border_lowers_to_fill_and_two_strokes() {
    let rect = Rectangle::new(Rect { x: 0, y: 0, width: px(100), height: px(100) })
        .with_background(Brush::Solid(Color::black()))
        .with_border(Border::new(px(4), BorderStyle::Double, Brush::Solid(Color::black())));
    let ops = do_paint_rectangle(&rect).unwrap();
    assert_eq!(ops.len(), 3);
    assert!(matches!(ops[0], DrawOp::Fill { .. }));
    // floor(4.0 / 2) = 2 pixels per stroke, inner inset 3 pixels.
    match ops[1] {
        DrawOp::Stroke { width, .. } => assert_eq!(width, px(2)),
        _ => panic!("expected a stroke"),
    }
    match ops[2] {
        DrawOp::Stroke { width, shape, .. } => {
            assert_eq!(width, px(2));
            assert_eq!(
                shape,
                ShapeEnum::Rect(Rect { x: px(3), y: px(3), width: px(97), height: px(97) })
            );
        }
        _ => panic!("expected a stroke"),
    }
}

#[test]
fn rounded_rectangle_path_keeps_radii() {
    let radii = CornerRadii { top_left: px(2), top_right: px(2), bottom_right: px(2), bottom_left: px(2) };
    let plain = Rectangle::new(Rect { x: 0, y: 0, width: px(10), height: px(10) });
    assert_eq!(
        setup_rectangle_path(&plain),
        ShapeEnum::Rect(Rect { x: 0, y: 0, width: px(10), height: px(10) })
    );
    let rounded = plain.with_radius(radii);
    assert_eq!(
        setup_rectangle_path(&rounded),
        ShapeEnum::RoundedRect(Rect { x: 0, y: 0, width: px(10), height: px(10) }, radii)
    );
}
