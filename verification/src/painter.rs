//! Backend-neutral paint commands and the lowering of one rectangle
//! command into fill and stroke operations, including the sub-pixel
//! double-border policy.

use vstd::prelude::*;
use crate::geom::{Rect, COORD_LIMIT, PX};
use crate::layout::{el_wf, LayoutContext, LayoutElementNode, LayoutTree};
use crate::texture_store::{Texture, TextureId, TextureStore};
use crate::tiler::Tile;

verus! {

/// A solid colour, one byte per channel.
#[derive(Clone, Copy, Debug, PartialEq, Eq, Structural)]
pub struct Color {
    pub r: u8,
    pub g: u8,
    pub b: u8,
    pub a: u8,
}

impl Color {
    /// Opaque black.
    pub fn black() -> (c: Color)
        ensures
            c == (Color { r: 0u8, g: 0u8, b: 0u8, a: 255u8 }),
    {
        Color { r: 0, g: 0, b: 0, a: 255 }
    }
}

/// A colour used when painting glyph runs.
#[derive(Clone, Copy, Debug, PartialEq, Eq, Structural)]
pub struct ColorBrush {
    r: u8,
    g: u8,
    b: u8,
    a: u8,
}

impl ColorBrush {
    /// The channel values of the brush, in `(r, g, b, a)` order.
    pub closed spec fn spec_channels(self) -> (u8, u8, u8, u8) {
        (self.r, self.g, self.b, self.a)
    }

    /// A brush with the given channel values.
    pub fn new(r: u8, g: u8, b: u8, a: u8) -> (c: ColorBrush)
        ensures
            c.spec_channels() == (r, g, b, a),
    {
        ColorBrush { r, g, b, a }
    }
}

impl Default for ColorBrush {
    /// The default text brush is opaque black.
    fn default() -> (c: ColorBrush)
        ensures
            c.spec_channels() == (0u8, 0u8, 0u8, 255u8),
    {
        ColorBrush { r: 0, g: 0, b: 0, a: 255 }
    }
}

/// A fill descriptor: a solid colour, or a reference to a texture cached
/// in the resource store.
#[derive(Clone, Copy, Debug, PartialEq, Eq, Structural)]
pub enum Brush {
    Solid(Color),
    Texture(TextureId),
}

/// The stroke style of a border.
#[derive(Clone, Copy, Debug, PartialEq, Eq, Structural)]
pub enum BorderStyle {
    /// No stroke is drawn; the border still reserves its space in the box
    /// model.
    NoBorder,
    Solid,
    Dashed,
    Dotted,
    Double,
    /// Reserved for multi-tone border rendering; lowering reports it as
    /// unsupported rather than approximating it.
    Groove,
    Ridge,
    Inset,
    Outset,
    /// Like `NoBorder`: nothing is drawn, space stays reserved.
    Hidden,
}

/// A border specification: stroke width in coordinate units, style, and
/// the brush both strokes use.
#[derive(Clone, Copy, Debug, PartialEq, Eq, Structural)]
pub struct Border {
    pub width: i64,
    pub style: BorderStyle,
    pub brush: Brush,
}

impl Border {
    pub open spec fn spec_width(self) -> i64 {
        self.width
    }

    pub open spec fn spec_style(self) -> BorderStyle {
        self.style
    }

    pub open spec fn spec_brush(self) -> Brush {
        self.brush
    }

    /// A border of the given width, style and brush.
    pub fn new(width: i64, style: BorderStyle, brush: Brush) -> (b: Border)
        ensures
            b.spec_width() == width,
            b.spec_style() == style,
            b.spec_brush() == brush,
    {
        Border { width, style, brush }
    }

    /// A zero-width border that draws nothing.
    pub fn none() -> (b: Border)
        ensures
            b.spec_width() == 0,
            b.spec_style() == BorderStyle::NoBorder,
            b.spec_brush() == Brush::Solid(Color { r: 0u8, g: 0u8, b: 0u8, a: 255u8 }),
    {
        Border { width: 0, style: BorderStyle::NoBorder, brush: Brush::Solid(Color::black()) }
    }

    pub fn width(&self) -> (r: i64)
        ensures
            r == self.spec_width(),
    {
        self.width
    }

    pub fn style(&self) -> (r: BorderStyle)
        ensures
            r == self.spec_style(),
    {
        self.style
    }

    pub fn brush(&self) -> (r: Brush)
        ensures
            r == self.spec_brush(),
    {
        self.brush
    }
}

/// Corner radii of a rounded rectangle, one per corner, clockwise from
/// the top left.
#[derive(Clone, Copy, Debug, PartialEq, Eq, Structural)]
pub struct CornerRadii {
    pub top_left: i64,
    pub top_right: i64,
    pub bottom_right: i64,
    pub bottom_left: i64,
}

/// A rectangle to draw: geometry, an optional background brush, a border
/// specification and optional corner radii.
#[derive(Clone, Copy, Debug, PartialEq, Eq, Structural)]
pub struct Rectangle {
    pub rect: Rect,
    pub background: Option<Brush>,
    pub border: Border,
    pub radius: Option<CornerRadii>,
}

impl Rectangle {
    pub open spec fn spec_rect(self) -> Rect {
        self.rect
    }

    pub open spec fn spec_background(self) -> Option<Brush> {
        self.background
    }

    pub open spec fn spec_border(self) -> Border {
        self.border
    }

    pub open spec fn spec_radius(self) -> Option<CornerRadii> {
        self.radius
    }

    /// A plain rectangle with no background, no border and square corners.
    pub fn new(rect: Rect) -> (r: Rectangle)
        ensures
            r.spec_rect() == rect,
            r.spec_background() is None,
            r.spec_border().spec_width() == 0,
            r.spec_border().spec_style() == BorderStyle::NoBorder,
            r.spec_border().spec_brush() == Brush::Solid(
                Color { r: 0u8, g: 0u8, b: 0u8, a: 255u8 },
            ),
            r.spec_radius() is None,
    {
        Rectangle { rect, background: None, border: Border::none(), radius: None }
    }

    /// The same rectangle with a background brush.
    pub fn with_background(self, brush: Brush) -> (r: Rectangle)
        ensures
            r == (Rectangle { background: Some(brush), ..self }),
    {
        Rectangle { background: Some(brush), ..self }
    }

    /// The same rectangle with a border specification.
    pub fn with_border(self, border: Border) -> (r: Rectangle)
        ensures
            r.spec_border() == border,
            r.spec_rect() == self.spec_rect(),
            r.spec_background() == self.spec_background(),
            r.spec_radius() == self.spec_radius(),
    {
        Rectangle { border, ..self }
    }

    /// The same rectangle with corner radii.
    pub fn with_radius(self, radius: CornerRadii) -> (r: Rectangle)
        ensures
            r == (Rectangle { radius: Some(radius), ..self }),
    {
        Rectangle { radius: Some(radius), ..self }
    }

    pub fn rect(&self) -> (r: Rect)
        ensures
            r == self.spec_rect(),
    {
        self.rect
    }

    pub fn background(&self) -> (r: Option<Brush>)
        ensures
            r == self.spec_background(),
    {
        self.background
    }

    pub fn border(&self) -> (r: Border)
        ensures
            r == self.spec_border(),
    {
        self.border
    }

    pub fn is_rounded(&self) -> (r: bool)
        ensures
            r == self.spec_radius() is Some,
    {
        self.radius.is_some()
    }
}

/// The outline a fill or stroke runs along.
#[derive(Clone, Copy, Debug, PartialEq, Eq, Structural)]
pub enum ShapeEnum {
    Rect(Rect),
    RoundedRect(Rect, CornerRadii),
}

/// The dash pattern of a stroke. The concrete dash lengths of each
/// pattern are given by [`dash_values`].
#[derive(Clone, Copy, Debug, PartialEq, Eq, Structural)]
pub enum DashPattern {
    /// An unbroken stroke.
    Uninterrupted,
    /// A long dash followed by short dashes.
    Dashed,
    /// Evenly spaced short dashes.
    Dotted,
}

/// The dash lengths of a pattern, in coordinate units, alternating
/// drawn and skipped spans.
pub fn dash_values(p: DashPattern) -> (r: Vec<i64>)
    ensures
        p is Uninterrupted ==> r@ =~= Seq::<i64>::empty(),
        p is Dashed ==> r@ =~= seq![(50 * PX) as i64, (10 * PX) as i64, (10 * PX) as i64, (10 * PX) as i64],
        p is Dotted ==> r@ =~= seq![(10 * PX) as i64, (10 * PX) as i64],
{
    match p {
        DashPattern::Uninterrupted => Vec::new(),
        DashPattern::Dashed => {
            let mut v = Vec::new();
            v.push(50 * PX);
            v.push(10 * PX);
            v.push(10 * PX);
            v.push(10 * PX);
            v
        },
        DashPattern::Dotted => {
            let mut v = Vec::new();
            v.push(10 * PX);
            v.push(10 * PX);
            v
        },
    }
}

/// One drawing operation a backend executes: fill a shape, or stroke its
/// outline with a width and dash pattern.
#[derive(Clone, Copy, Debug, PartialEq, Eq, Structural)]
pub enum DrawOp {
    Fill { shape: ShapeEnum, brush: Brush },
    Stroke { shape: ShapeEnum, width: i64, dash: DashPattern, brush: Brush },
}

/// Lowering a rectangle whose border style is reserved for future
/// multi-tone rendering fails with this error instead of approximating.
#[derive(Clone, Copy, Debug, PartialEq, Eq, Structural)]
pub enum PaintError {
    UnsupportedBorderStyle,
}

/// The outline of a rectangle: its plain rectangle, or a rounded
/// rectangle when corner radii are set.
pub open spec fn spec_shape_of(rect: Rectangle) -> ShapeEnum {
    match rect.spec_radius() {
        Some(radius) => ShapeEnum::RoundedRect(rect.spec_rect(), radius),
        None => ShapeEnum::Rect(rect.spec_rect()),
    }
}

/// Build the outline along which a rectangle is filled and stroked.
pub fn setup_rectangle_path(rect: &Rectangle) -> (r: ShapeEnum)
    ensures
        r == spec_shape_of(*rect),
{
    if rect.is_rounded() {
        match rect.radius_values() {
            Some(radius) => ShapeEnum::RoundedRect(rect.rect(), radius),
            None => ShapeEnum::Rect(rect.rect()),
        }
    } else {
        ShapeEnum::Rect(rect.rect())
    }
}

impl Rectangle {
    pub fn radius_values(&self) -> (r: Option<CornerRadii>)
        ensures
            r == self.spec_radius(),
    {
        self.radius
    }
}

/// The single full-width stroke drawn for solid, dashed and dotted
/// borders, and for double borders too narrow to split.
pub open spec fn spec_single_stroke(rect: Rectangle, dash: DashPattern) -> DrawOp {
    DrawOp::Stroke {
        shape: spec_shape_of(rect),
        width: rect.spec_border().spec_width(),
        dash,
        brush: rect.spec_border().spec_brush(),
    }
}

/// Width of each of the two strokes of a double border: the border width
/// halved and rounded down to a whole pixel.
pub open spec fn spec_double_stroke_width(width: i64) -> int {
    ((width as int) / ((2 * PX) as int)) * (PX as int)
}

/// The inner rectangle of a double border: the border box shifted inward
/// from its top and left edges by the stroke width plus a one-pixel gap,
/// its size reduced by the same amount.
pub open spec fn spec_double_inner_rect(r: Rect, w: int) -> Rect {
    Rect {
        x: (r.x + w + PX) as i64,
        y: (r.y + w + PX) as i64,
        width: (r.width - w - PX) as i64,
        height: (r.height - w - PX) as i64,
    }
}

/// Stroke a single border along the rectangle's outline, at full border
/// width, with the given dash pattern.
pub fn draw_single_border(rect: &Rectangle, dash: DashPattern) -> (r: DrawOp)
    ensures
        r == spec_single_stroke(*rect, dash),
{
    DrawOp::Stroke {
        shape: setup_rectangle_path(rect),
        width: rect.border().width(),
        dash,
        brush: rect.border().brush(),
    }
}

/// Lower a double border. A border narrower than three pixels has no room
/// for two strokes and degrades to one solid stroke at full width; a wider
/// one becomes two strokes of half the width rounded down to a whole
/// pixel, the inner one inset from the top and left edges by that width
/// plus a one-pixel gap.
pub fn draw_double_border(rect: &Rectangle) -> (ops: Vec<DrawOp>)
    requires
        rect.spec_rect().wf(),
        0 <= rect.spec_border().spec_width() <= COORD_LIMIT,
    ensures
        rect.spec_border().spec_width() < 3 * PX ==> ops@ =~= seq![
            spec_single_stroke(*rect, DashPattern::Uninterrupted),
        ],
        rect.spec_border().spec_width() >= 3 * PX ==> ops@ =~= seq![
            DrawOp::Stroke {
                shape: spec_shape_of(*rect),
                width: spec_double_stroke_width(rect.spec_border().spec_width()) as i64,
                dash: DashPattern::Uninterrupted,
                brush: rect.spec_border().spec_brush(),
            },
            DrawOp::Stroke {
                shape: ShapeEnum::Rect(
                    spec_double_inner_rect(
                        rect.spec_rect(),
                        spec_double_stroke_width(rect.spec_border().spec_width()),
                    ),
                ),
                width: spec_double_stroke_width(rect.spec_border().spec_width()) as i64,
                dash: DashPattern::Uninterrupted,
                brush: rect.spec_border().spec_brush(),
            },
        ],
{
    let mut ops: Vec<DrawOp> = Vec::new();
    if rect.border().width() < 3 * PX {
        // Too narrow for two strokes: fall back to a single solid stroke.
        ops.push(draw_single_border(rect, DashPattern::Uninterrupted));
        return ops;
    }
    let width = rect.border().width() / (2 * PX) * PX;
    ops.push(
        DrawOp::Stroke {
            shape: setup_rectangle_path(rect),
            width,
            dash: DashPattern::Uninterrupted,
            brush: rect.border().brush(),
        },
    );
    let gap_size = PX;
    let r = rect.rect();
    let inner = Rect {
        x: r.x + width + gap_size,
        y: r.y + width + gap_size,
        width: r.width - width - gap_size,
        height: r.height - width - gap_size,
    };
    ops.push(
        DrawOp::Stroke {
            shape: ShapeEnum::Rect(inner),
            width,
            dash: DashPattern::Uninterrupted,
            brush: rect.border().brush(),
        },
    );
    ops
}

/// The operations a rectangle command lowers to, when its border style is
/// supported: a background fill if a brush is set, then the strokes of its
/// border style.
pub open spec fn spec_paint_rectangle_ops(rect: Rectangle) -> Seq<DrawOp> {
    let fill: Seq<DrawOp> = match rect.spec_background() {
        Some(brush) => seq![DrawOp::Fill { shape: spec_shape_of(rect), brush }],
        None => Seq::empty(),
    };
    let w = rect.spec_border().spec_width();
    let strokes: Seq<DrawOp> = match rect.spec_border().spec_style() {
        BorderStyle::NoBorder => Seq::empty(),
        BorderStyle::Hidden => Seq::empty(),
        BorderStyle::Solid => seq![spec_single_stroke(rect, DashPattern::Uninterrupted)],
        BorderStyle::Dashed => seq![spec_single_stroke(rect, DashPattern::Dashed)],
        BorderStyle::Dotted => seq![spec_single_stroke(rect, DashPattern::Dotted)],
        BorderStyle::Double => if w < 3 * PX {
            seq![spec_single_stroke(rect, DashPattern::Uninterrupted)]
        } else {
            seq![
                DrawOp::Stroke {
                    shape: spec_shape_of(rect),
                    width: spec_double_stroke_width(w) as i64,
                    dash: DashPattern::Uninterrupted,
                    brush: rect.spec_border().spec_brush(),
                },
                DrawOp::Stroke {
                    shape: ShapeEnum::Rect(
                        spec_double_inner_rect(rect.spec_rect(), spec_double_stroke_width(w)),
                    ),
                    width: spec_double_stroke_width(w) as i64,
                    dash: DashPattern::Uninterrupted,
                    brush: rect.spec_border().spec_brush(),
                },
            ]
        },
        _ => Seq::empty(),
    };
    fill + strokes
}

/// Whether a border style can be lowered; the styles reserved for
/// multi-tone rendering cannot.
pub open spec fn spec_style_supported(style: BorderStyle) -> bool {
    !(style is Groove || style is Ridge || style is Inset || style is Outset)
}

/// Lower one rectangle command into its fill and stroke operations, in
/// drawing order. Rectangles whose border style is reserved for future
/// multi-tone rendering are reported as unsupported.
pub fn do_paint_rectangle(rectangle: &Rectangle) -> (r: Result<Vec<DrawOp>, PaintError>)
    requires
        rectangle.spec_rect().wf(),
        0 <= rectangle.spec_border().spec_width() <= COORD_LIMIT,
    ensures
        match r {
            Ok(ops) => spec_style_supported(rectangle.spec_border().spec_style()) && ops@
                =~= spec_paint_rectangle_ops(*rectangle),
            Err(e) => !spec_style_supported(rectangle.spec_border().spec_style()) && e
                == PaintError::UnsupportedBorderStyle,
        },
{
    let mut ops: Vec<DrawOp> = Vec::new();
    match rectangle.background() {
        Some(brush) => {
            ops.push(DrawOp::Fill { shape: setup_rectangle_path(rectangle), brush });
        },
        None => {},
    }
    match rectangle.border().style() {
        BorderStyle::NoBorder => {},
        BorderStyle::Hidden => {},
        BorderStyle::Solid => {
            ops.push(draw_single_border(rectangle, DashPattern::Uninterrupted));
        },
        BorderStyle::Dashed => {
            ops.push(draw_single_border(rectangle, DashPattern::Dashed));
        },
        BorderStyle::Dotted => {
            ops.push(draw_single_border(rectangle, DashPattern::Dotted));
        },
        BorderStyle::Double => {
            let mut strokes = draw_double_border(rectangle);
            ops.append(&mut strokes);
        },
        BorderStyle::Groove => {
            return Err(PaintError::UnsupportedBorderStyle);
        },
        BorderStyle::Ridge => {
            return Err(PaintError::UnsupportedBorderStyle);
        },
        BorderStyle::Inset => {
            return Err(PaintError::UnsupportedBorderStyle);
        },
        BorderStyle::Outset => {
            return Err(PaintError::UnsupportedBorderStyle);
        },
    }
    Ok(ops)
}

/// One backend-neutral paint command, in tile-local coordinates: a
/// rectangle with background and border, a run of prepared text, or an
/// image with its decoded pixel buffer.
#[derive(Clone, Debug)]
pub enum PaintCommand {
    Rectangle(Rectangle),
    TextRun { rect: Rect, layout_handle: u64, color: Color },
    Image { rect: Rect, width: usize, height: usize, data: Vec<u8>, border: Border },
}

/// An element's border box shifted into tile-local coordinates: the
/// tile's origin is subtracted once, uniformly.
pub open spec fn spec_local_border_box(el: LayoutElementNode, tile_rect: Rect) -> Rect {
    let bb = el.box_model.spec_border_box();
    Rect {
        x: (bb.x - tile_rect.x) as i64,
        y: (bb.y - tile_rect.y) as i64,
        width: bb.width,
        height: bb.height,
    }
}

/// The command one element paints as, given the store contents: a text
/// element emits its glyph run; an element whose background references a
/// stored texture emits an image carrying that texture's pixels; on a
/// store miss the image content is skipped and only background-less
/// border drawing remains; any other element emits a rectangle with its
/// background and border.
pub open spec fn spec_command_matches(
    cmd: PaintCommand,
    el: LayoutElementNode,
    store: Map<u64, Texture>,
    tile_rect: Rect,
) -> bool {
    match el.context {
        LayoutContext::Text { layout_handle, color } => cmd == PaintCommand::TextRun {
            rect: spec_local_border_box(el, tile_rect),
            layout_handle,
            color,
        },
        LayoutContext::Element { background, border } => match background {
            Some(Brush::Texture(tid)) => {
                if store.contains_key(tid.0) {
                    &&& cmd matches PaintCommand::Image {
                        rect,
                        width,
                        height,
                        data,
                        border: cmd_border,
                    }
                    &&& rect == spec_local_border_box(el, tile_rect)
                    &&& width == store[tid.0].width
                    &&& height == store[tid.0].height
                    &&& data@ == store[tid.0].data@
                    &&& cmd_border == border
                } else {
                    cmd == PaintCommand::Rectangle(
                        Rectangle {
                            rect: spec_local_border_box(el, tile_rect),
                            background: None,
                            border,
                            radius: None,
                        },
                    )
                }
            },
            _ => cmd == PaintCommand::Rectangle(
                Rectangle {
                    rect: spec_local_border_box(el, tile_rect),
                    background,
                    border,
                    radius: None,
                },
            ),
        },
    }
}

/// Copy a pixel buffer byte for byte.
fn clone_bytes(v: &Vec<u8>) -> (r: Vec<u8>)
    ensures
        r@ == v@,
{
    let mut out: Vec<u8> = Vec::new();
    let mut i: usize = 0;
    while i < v.len()
        invariant
            i <= v@.len(),
            out@ == v@.take(i as int),
        decreases v@.len() - i,
    {
        out.push(v[i]);
        proof {
            assert(out@ =~= v@.take(i as int + 1));
        }
        i = i + 1;
    }
    proof {
        assert(out@ =~= v@);
    }
    out
}

/// The painter: turns the elements of one tile into an ordered list of
/// backend-neutral paint commands.
pub struct Painter {}

impl Painter {
    /// Generate the paint commands for one tile: one command per element
    /// the tile references, in the tile's paint order, with all geometry
    /// shifted into tile-local coordinates. A texture the store no longer
    /// holds is skipped: the element keeps its border but loses the image
    /// content.
    ///
    /// An element spanning several tiles is painted whole by every tile
    /// that references it; the backend's tile surface is expected to clip
    /// at the tile rectangle, so seams rely on that clipping rather than
    /// on splitting commands at tile boundaries.
    pub fn paint(tile: &Tile, tree: &LayoutTree, store: &TextureStore) -> (r: Vec<PaintCommand>)
        requires
            tree.wf(),
            tile.rect.wf(),
            forall|q: int|
                0 <= q < tile.elements@.len() ==> (#[trigger] tile.elements@[q] as int)
                    < tree.arena@.len(),
        ensures
            r@.len() == tile.elements@.len(),
            forall|q: int|
                0 <= q < r@.len() ==> spec_command_matches(
                    #[trigger] r@[q],
                    tree.arena@[tile.elements@[q] as int],
                    store@,
                    tile.rect,
                ),
    {
        let mut commands: Vec<PaintCommand> = Vec::new();
        let mut m: usize = 0;
        while m < tile.elements.len()
            invariant
                tree.wf(),
                tile.rect.wf(),
                forall|q: int|
                    0 <= q < tile.elements@.len() ==> (#[trigger] tile.elements@[q] as int)
                        < tree.arena@.len(),
                m <= tile.elements@.len(),
                commands@.len() == m,
                forall|q: int|
                    0 <= q < m ==> spec_command_matches(
                        #[trigger] commands@[q],
                        tree.arena@[tile.elements@[q] as int],
                        store@,
                        tile.rect,
                    ),
            decreases tile.elements@.len() - m,
        {
            let e = tile.elements[m];
            proof {
                assert(el_wf(tree.arena@[e as int], e as int));
            }
            let el = &tree.arena[e];
            let bb = el.box_model.border_box();
            let local = Rect {
                x: bb.x - tile.rect.x,
                y: bb.y - tile.rect.y,
                width: bb.width,
                height: bb.height,
            };
            match el.context {
                LayoutContext::Text { layout_handle, color } => {
                    commands.push(PaintCommand::TextRun { rect: local, layout_handle, color });
                },
                LayoutContext::Element { background, border } => {
                    match background {
                        Some(Brush::Texture(tid)) => {
                            match store.get(tid) {
                                Some(texture) => {
                                    commands.push(
                                        PaintCommand::Image {
                                            rect: local,
                                            width: texture.width,
                                            height: texture.height,
                                            data: clone_bytes(&texture.data),
                                            border,
                                        },
                                    );
                                },
                                None => {
                                    commands.push(
                                        PaintCommand::Rectangle(
                                            Rectangle {
                                                rect: local,
                                                background: None,
                                                border,
                                                radius: None,
                                            },
                                        ),
                                    );
                                },
                            }
                        },
                        _ => {
                            commands.push(
                                PaintCommand::Rectangle(
                                    Rectangle { rect: local, background, border, radius: None },
                                ),
                            );
                        },
                    }
                },
            }
            m = m + 1;
        }
        commands
    }
}

} // verus!
