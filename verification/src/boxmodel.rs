//! The CSS-style box model of one layout element: four nested rectangles
//! derived from the margin box by successive inward insets.

use vstd::prelude::*;
use crate::geom::{Edges, Rect};

verus! {

/// Resolved geometry of one element, in absolute document coordinates.
/// Only the outermost rectangle is stored; the border, padding and content
/// boxes are derived by insetting it with the per-edge thicknesses.
#[derive(Clone, Copy, Debug, PartialEq, Eq, Structural)]
pub struct BoxModel {
    /// Outermost rectangle: position plus size inclusive of margins.
    pub margin_box: Rect,
    /// Margin thickness per edge.
    pub margin: Edges,
    /// Border thickness per edge.
    pub border: Edges,
    /// Padding thickness per edge.
    pub padding: Edges,
}

/// `r` shrunk inward by the per-edge thicknesses `e`.
pub open spec fn spec_inset(r: Rect, e: Edges) -> Rect {
    Rect {
        x: (r.x + e.left) as i64,
        y: (r.y + e.top) as i64,
        width: (r.width - e.left - e.right) as i64,
        height: (r.height - e.top - e.bottom) as i64,
    }
}

impl BoxModel {
    /// The border box: the margin box inset by the margins.
    pub open spec fn spec_border_box(self) -> Rect {
        spec_inset(self.margin_box, self.margin)
    }

    /// The padding box: the border box inset by the border thicknesses.
    pub open spec fn spec_padding_box(self) -> Rect {
        spec_inset(self.spec_border_box(), self.border)
    }

    /// The content box: the padding box inset by the paddings.
    pub open spec fn spec_content_box(self) -> Rect {
        spec_inset(self.spec_padding_box(), self.padding)
    }

    /// A box model is valid when the margin box is well formed, every edge
    /// thickness is non-negative, and the three inward insets never exhaust
    /// the margin box, so all four derived boxes have non-negative size.
    pub open spec fn valid(self) -> bool {
        &&& self.margin_box.wf()
        &&& self.margin.wf()
        &&& self.border.wf()
        &&& self.padding.wf()
        &&& self.margin.left + self.border.left + self.padding.left + self.padding.right
            + self.border.right + self.margin.right <= self.margin_box.width
        &&& self.margin.top + self.border.top + self.padding.top + self.padding.bottom
            + self.border.bottom + self.margin.bottom <= self.margin_box.height
    }

    /// A box model with no extent and no edge thicknesses.
    pub fn zero() -> (r: BoxModel)
        ensures
            r.valid(),
            r.margin_box == (Rect { x: 0i64, y: 0i64, width: 0i64, height: 0i64 }),
            r.margin.spec_is_zero(),
            r.border.spec_is_zero(),
            r.padding.spec_is_zero(),
    {
        BoxModel {
            margin_box: Rect { x: 0, y: 0, width: 0, height: 0 },
            margin: Edges::zero(),
            border: Edges::zero(),
            padding: Edges::zero(),
        }
    }

    /// The outermost rectangle.
    pub fn margin_box(&self) -> (r: Rect)
        ensures
            r == self.margin_box,
    {
        self.margin_box
    }

    /// Compute the border box.
    pub fn border_box(&self) -> (r: Rect)
        requires
            self.valid(),
        ensures
            r == self.spec_border_box(),
            r.wf(),
    {
        Rect {
            x: self.margin_box.x + self.margin.left,
            y: self.margin_box.y + self.margin.top,
            width: self.margin_box.width - self.margin.left - self.margin.right,
            height: self.margin_box.height - self.margin.top - self.margin.bottom,
        }
    }

    /// Compute the padding box.
    pub fn padding_box(&self) -> (r: Rect)
        requires
            self.valid(),
        ensures
            r == self.spec_padding_box(),
            r.wf(),
    {
        let b = self.border_box();
        Rect {
            x: b.x + self.border.left,
            y: b.y + self.border.top,
            width: b.width - self.border.left - self.border.right,
            height: b.height - self.border.top - self.border.bottom,
        }
    }

    /// Compute the content box.
    pub fn content_box(&self) -> (r: Rect)
        requires
            self.valid(),
        ensures
            r == self.spec_content_box(),
            r.wf(),
    {
        let p = self.padding_box();
        Rect {
            x: p.x + self.padding.left,
            y: p.y + self.padding.top,
            width: p.width - self.padding.left - self.padding.right,
            height: p.height - self.padding.top - self.padding.bottom,
        }
    }
}

/// The four boxes of a valid box model nest: the content box lies within
/// the padding box, which lies within the border box, which lies within the
/// margin box, each separated by the corresponding non-negative thickness.
pub proof fn lemma_box_nesting(bm: BoxModel)
    requires
        bm.valid(),
    ensures
        bm.margin_box.spec_contains_rect(bm.spec_border_box()),
        bm.spec_border_box().spec_contains_rect(bm.spec_padding_box()),
        bm.spec_padding_box().spec_contains_rect(bm.spec_content_box()),
        bm.spec_border_box().wf(),
        bm.spec_padding_box().wf(),
        bm.spec_content_box().wf(),
{
}

/// With zero margin, border and padding the four boxes coincide.
pub proof fn lemma_zero_edges_collapse(bm: BoxModel)
    requires
        bm.valid(),
        bm.margin.spec_is_zero(),
        bm.border.spec_is_zero(),
        bm.padding.spec_is_zero(),
    ensures
        bm.spec_border_box() == bm.margin_box,
        bm.spec_padding_box() == bm.margin_box,
        bm.spec_content_box() == bm.margin_box,
{
}

} // verus!
