//! Resolved style values and the derivation of a per-node style descriptor,
//! the input handed to the external constraint solver.

use vstd::prelude::*;
use crate::geom::PX;

verus! {

/// Default font size, in coordinate units, used when measuring text nodes.
pub const TEXT_FONT_SIZE: i64 = 32 * PX;

/// Default line height, in coordinate units, used when measuring text nodes.
pub const TEXT_LINE_HEIGHT: i64 = 36 * PX;

/// The style properties the layouter reads from a render node.
#[derive(Clone, Copy, Debug, PartialEq, Eq, Structural)]
pub enum StyleProp {
    Width,
    Height,
    MarginTop,
    MarginBottom,
    MarginLeft,
    MarginRight,
    PaddingTop,
    PaddingBottom,
    PaddingLeft,
    PaddingRight,
    BorderTopWidth,
    BorderBottomWidth,
    BorderLeftWidth,
    BorderRightWidth,
}

/// Unit of a dimensional style value. Units the layouter does not
/// recognise (em, rem) leave the styled field at its default.
#[derive(Clone, Copy, Debug, PartialEq, Eq, Structural)]
pub enum Unit {
    Px,
    Percent,
    Em,
    Rem,
}

/// A resolved style value: a dimensional value with a unit, or a keyword
/// the layouter ignores. Lengths are in coordinate units, percentages in
/// hundredths of a percent.
#[derive(Clone, Copy, Debug, PartialEq, Eq, Structural)]
pub enum StyleValue {
    Unit(i64, Unit),
    Keyword,
}

/// A size constraint for the solver: automatic, a fixed length, or a
/// percentage of the containing block.
#[derive(Clone, Copy, Debug, PartialEq, Eq, Structural)]
pub enum Dimension {
    Auto,
    Length(i64),
    Percent(i64),
}

/// A margin value for the solver: automatic, a fixed length, or a
/// percentage.
#[derive(Clone, Copy, Debug, PartialEq, Eq, Structural)]
pub enum LengthPercentageAuto {
    Auto,
    Length(i64),
    Percent(i64),
}

/// A padding or border value for the solver: a fixed length or a
/// percentage.
#[derive(Clone, Copy, Debug, PartialEq, Eq, Structural)]
pub enum LengthPercentage {
    Length(i64),
    Percent(i64),
}

/// Per-edge margin values.
#[derive(Clone, Copy, Debug, PartialEq, Eq, Structural)]
pub struct StyleEdgesAuto {
    pub top: LengthPercentageAuto,
    pub right: LengthPercentageAuto,
    pub bottom: LengthPercentageAuto,
    pub left: LengthPercentageAuto,
}

/// Per-edge padding or border values.
#[derive(Clone, Copy, Debug, PartialEq, Eq, Structural)]
pub struct StyleEdges {
    pub top: LengthPercentage,
    pub right: LengthPercentage,
    pub bottom: LengthPercentage,
    pub left: LengthPercentage,
}

/// Display mode of an element. Block layout is the only mode this
/// pipeline derives.
#[derive(Clone, Copy, Debug, PartialEq, Eq, Structural)]
pub enum Display {
    Block,
}

/// The per-node style handed to the external constraint solver: size,
/// margin, padding and border thickness per edge, and display mode.
#[derive(Clone, Copy, Debug, PartialEq, Eq, Structural)]
pub struct StyleDescriptor {
    pub display: Display,
    pub width: Dimension,
    pub height: Dimension,
    pub margin: StyleEdgesAuto,
    pub padding: StyleEdges,
    pub border: StyleEdges,
}

/// The first value stored for `prop`, if any.
pub open spec fn spec_get_style(styles: Seq<(StyleProp, StyleValue)>, prop: StyleProp) -> Option<
    StyleValue,
>
    decreases styles.len(),
{
    if styles.len() == 0 {
        None
    } else if styles[0].0 == prop {
        Some(styles[0].1)
    } else {
        spec_get_style(styles.drop_first(), prop)
    }
}

/// How a size property maps to a solver dimension: pixel and percentage
/// values are taken over, everything else stays automatic.
pub open spec fn spec_dimension_of(v: Option<StyleValue>) -> Dimension {
    match v {
        Some(StyleValue::Unit(n, Unit::Px)) => Dimension::Length(n),
        Some(StyleValue::Unit(n, Unit::Percent)) => Dimension::Percent(n),
        _ => Dimension::Auto,
    }
}

/// How a margin property maps to a solver value: pixel and percentage
/// values are taken over, everything else keeps the zero-length default.
pub open spec fn spec_lpa_of(v: Option<StyleValue>) -> LengthPercentageAuto {
    match v {
        Some(StyleValue::Unit(n, Unit::Px)) => LengthPercentageAuto::Length(n),
        Some(StyleValue::Unit(n, Unit::Percent)) => LengthPercentageAuto::Percent(n),
        _ => LengthPercentageAuto::Length(0),
    }
}

/// How a padding or border property maps to a solver value: pixel and
/// percentage values are taken over, everything else keeps the zero-length
/// default.
pub open spec fn spec_lp_of(v: Option<StyleValue>) -> LengthPercentage {
    match v {
        Some(StyleValue::Unit(n, Unit::Px)) => LengthPercentage::Length(n),
        Some(StyleValue::Unit(n, Unit::Percent)) => LengthPercentage::Percent(n),
        _ => LengthPercentage::Length(0),
    }
}

/// The style descriptor an element with the given properties resolves to.
pub open spec fn spec_derive_style(styles: Seq<(StyleProp, StyleValue)>) -> StyleDescriptor {
    StyleDescriptor {
        display: Display::Block,
        width: spec_dimension_of(spec_get_style(styles, StyleProp::Width)),
        height: spec_dimension_of(spec_get_style(styles, StyleProp::Height)),
        margin: StyleEdgesAuto {
            top: spec_lpa_of(spec_get_style(styles, StyleProp::MarginTop)),
            right: spec_lpa_of(spec_get_style(styles, StyleProp::MarginRight)),
            bottom: spec_lpa_of(spec_get_style(styles, StyleProp::MarginBottom)),
            left: spec_lpa_of(spec_get_style(styles, StyleProp::MarginLeft)),
        },
        padding: StyleEdges {
            top: spec_lp_of(spec_get_style(styles, StyleProp::PaddingTop)),
            right: spec_lp_of(spec_get_style(styles, StyleProp::PaddingRight)),
            bottom: spec_lp_of(spec_get_style(styles, StyleProp::PaddingBottom)),
            left: spec_lp_of(spec_get_style(styles, StyleProp::PaddingLeft)),
        },
        border: StyleEdges {
            top: spec_lp_of(spec_get_style(styles, StyleProp::BorderTopWidth)),
            right: spec_lp_of(spec_get_style(styles, StyleProp::BorderRightWidth)),
            bottom: spec_lp_of(spec_get_style(styles, StyleProp::BorderBottomWidth)),
            left: spec_lp_of(spec_get_style(styles, StyleProp::BorderLeftWidth)),
        },
    }
}

/// Look up the first value stored for `prop`.
pub fn get_style(styles: &Vec<(StyleProp, StyleValue)>, prop: StyleProp) -> (r: Option<StyleValue>)
    ensures
        r == spec_get_style(styles@, prop),
{
    let mut i: usize = 0;
    proof {
        assert(styles@.skip(0) =~= styles@);
    }
    while i < styles.len()
        invariant
            0 <= i <= styles@.len(),
            spec_get_style(styles@, prop) == spec_get_style(styles@.skip(i as int), prop),
        decreases styles@.len() - i,
    {
        proof {
            assert(styles@.skip(i as int)[0] == styles@[i as int]);
            assert(styles@.skip(i as int).drop_first() =~= styles@.skip(i as int + 1));
        }
        if styles[i].0 == prop {
            return Some(styles[i].1);
        }
        i = i + 1;
    }
    proof {
        assert(styles@.skip(i as int) =~= Seq::<(StyleProp, StyleValue)>::empty());
    }
    None
}

fn dimension_from(v: Option<StyleValue>) -> (r: Dimension)
    ensures
        r == spec_dimension_of(v),
{
    match v {
        Some(StyleValue::Unit(n, Unit::Px)) => Dimension::Length(n),
        Some(StyleValue::Unit(n, Unit::Percent)) => Dimension::Percent(n),
        _ => Dimension::Auto,
    }
}

fn lpa_from(v: Option<StyleValue>) -> (r: LengthPercentageAuto)
    ensures
        r == spec_lpa_of(v),
{
    match v {
        Some(StyleValue::Unit(n, Unit::Px)) => LengthPercentageAuto::Length(n),
        Some(StyleValue::Unit(n, Unit::Percent)) => LengthPercentageAuto::Percent(n),
        _ => LengthPercentageAuto::Length(0),
    }
}

fn lp_from(v: Option<StyleValue>) -> (r: LengthPercentage)
    ensures
        r == spec_lp_of(v),
{
    match v {
        Some(StyleValue::Unit(n, Unit::Px)) => LengthPercentage::Length(n),
        Some(StyleValue::Unit(n, Unit::Percent)) => LengthPercentage::Percent(n),
        _ => LengthPercentage::Length(0),
    }
}

/// Derive the style descriptor of an element from its resolved properties.
/// Unset properties fall back to the defaults (block display, automatic
/// size, zero margin, padding and border); values with an unrecognised
/// unit are ignored and keep the default as well.
pub fn derive_style(styles: &Vec<(StyleProp, StyleValue)>) -> (r: StyleDescriptor)
    ensures
        r == spec_derive_style(styles@),
{
    StyleDescriptor {
        display: Display::Block,
        width: dimension_from(get_style(styles, StyleProp::Width)),
        height: dimension_from(get_style(styles, StyleProp::Height)),
        margin: StyleEdgesAuto {
            top: lpa_from(get_style(styles, StyleProp::MarginTop)),
            right: lpa_from(get_style(styles, StyleProp::MarginRight)),
            bottom: lpa_from(get_style(styles, StyleProp::MarginBottom)),
            left: lpa_from(get_style(styles, StyleProp::MarginLeft)),
        },
        padding: StyleEdges {
            top: lp_from(get_style(styles, StyleProp::PaddingTop)),
            right: lp_from(get_style(styles, StyleProp::PaddingRight)),
            bottom: lp_from(get_style(styles, StyleProp::PaddingBottom)),
            left: lp_from(get_style(styles, StyleProp::PaddingLeft)),
        },
        border: StyleEdges {
            top: lp_from(get_style(styles, StyleProp::BorderTopWidth)),
            right: lp_from(get_style(styles, StyleProp::BorderRightWidth)),
            bottom: lp_from(get_style(styles, StyleProp::BorderBottomWidth)),
            left: lp_from(get_style(styles, StyleProp::BorderLeftWidth)),
        },
    }
}

/// The style descriptor of a text node whose height was measured
/// externally: block display, fixed height, everything else default.
pub fn derive_text_style(measured_height: i64) -> (r: StyleDescriptor)
    ensures
        r == (StyleDescriptor {
            height: Dimension::Length(measured_height),
            ..spec_derive_style(Seq::empty())
        }),
{
    let mut s = derive_style(&Vec::new());
    s.height = Dimension::Length(measured_height);
    s
}

/// One margin edge is zero when it is a zero length or a zero percentage.
pub open spec fn spec_edge_is_zero(v: LengthPercentageAuto) -> bool {
    v == LengthPercentageAuto::Length(0) || v == LengthPercentageAuto::Percent(0)
}

/// Whether the margin edges carry any non-zero value.
pub fn has_margin(src: &StyleEdgesAuto) -> (r: bool)
    ensures
        r == !(spec_edge_is_zero(src.top) && spec_edge_is_zero(src.right) && spec_edge_is_zero(
            src.bottom,
        ) && spec_edge_is_zero(src.left)),
{
    let is_zero = (src.top == LengthPercentageAuto::Length(0) || src.top
        == LengthPercentageAuto::Percent(0)) && (src.right == LengthPercentageAuto::Length(0)
        || src.right == LengthPercentageAuto::Percent(0)) && (src.bottom
        == LengthPercentageAuto::Length(0) || src.bottom == LengthPercentageAuto::Percent(0)) && (
    src.left == LengthPercentageAuto::Length(0) || src.left == LengthPercentageAuto::Percent(0));
    !is_zero
}

} // verus!
