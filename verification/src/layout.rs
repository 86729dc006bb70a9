//! The layout tree builder: turns a styled render-node tree plus
//! per-node solver geometry into an arena of layout elements carrying
//! absolutely positioned box models.
//!
//! The external constraint solver reports, for every node it laid out,
//! a parent-relative location, a size and per-edge thicknesses
//! ([`NodeLayout`]). The builder walks the render tree, skips nodes the
//! solver produced no geometry for (dropping their whole subtree while
//! siblings continue), and accumulates the running offset rule: a child's
//! absolute offset is the parent's offset plus the parent's local
//! location plus the parent's left/top margin.

use vstd::prelude::*;
use std::collections::HashMap;
use crate::boxmodel::BoxModel;
use crate::geom::{Edges, Rect, COORD_LIMIT};
use crate::painter::{Border, Brush, Color};
use crate::style::{StyleProp, StyleValue};

verus! {

broadcast use vstd::std_specs::hash::group_hash_axioms;

/// The resolved content of an element render node: its style properties,
/// background brush and border specification.
#[derive(Clone, Debug)]
pub struct ElementData {
    pub styles: Vec<(StyleProp, StyleValue)>,
    pub background: Option<Brush>,
    pub border: Border,
}

/// The content of a text render node: the raw text, a handle to the
/// externally prepared glyph layout, and the text colour.
#[derive(Clone, Debug)]
pub struct TextData {
    pub content: String,
    pub layout_handle: u64,
    pub color: Color,
}

/// What kind of document node a render node stands for.
#[derive(Clone, Debug)]
pub enum NodeKind {
    Element(ElementData),
    Text(TextData),
}

/// One node of the styled render tree handed to the pipeline, with its
/// ordered children. Immutable for the duration of one pass.
#[derive(Debug)]
pub struct RenderNode {
    pub id: u64,
    pub kind: NodeKind,
    pub children: Vec<RenderNode>,
}

/// The styled render tree; it may lack a root, in which case layout
/// produces no tree.
#[derive(Debug)]
pub struct RenderTree {
    pub root: Option<RenderNode>,
}

/// The geometry the external constraint solver reports for one node:
/// location relative to the parent's content origin, border-box size, and
/// resolved margin, border and padding thicknesses.
#[derive(Clone, Copy, Debug, PartialEq, Eq, Structural)]
pub struct NodeLayout {
    pub location_x: i64,
    pub location_y: i64,
    pub width: i64,
    pub height: i64,
    pub margin: Edges,
    pub border: Edges,
    pub padding: Edges,
}

impl NodeLayout {
    /// Solver geometry is well formed when the size is non-negative and
    /// bounded, the edges are non-negative, and border plus padding fit
    /// inside the reported size.
    pub open spec fn wf(self) -> bool {
        &&& 0 <= self.width <= COORD_LIMIT
        &&& 0 <= self.height <= COORD_LIMIT
        &&& -COORD_LIMIT <= self.location_x <= COORD_LIMIT
        &&& -COORD_LIMIT <= self.location_y <= COORD_LIMIT
        &&& self.margin.wf()
        &&& self.border.wf()
        &&& self.padding.wf()
        &&& self.border.left + self.padding.left + self.padding.right + self.border.right
            <= self.width
        &&& self.border.top + self.padding.top + self.padding.bottom + self.border.bottom
            <= self.height
    }
}

/// Every layout the solver reported is well formed.
pub open spec fn layouts_wf(m: Map<u64, NodeLayout>) -> bool {
    forall|k: u64| m.contains_key(k) ==> m[k].wf()
}

/// What a layout element paints as: a box with background and border, or
/// a run of prepared text.
#[derive(Clone, Copy, Debug, PartialEq, Eq, Structural)]
pub enum LayoutContext {
    Element { background: Option<Brush>, border: Border },
    Text { layout_handle: u64, color: Color },
}

/// The paint-relevant content of a render node.
pub open spec fn spec_context_of(kind: NodeKind) -> LayoutContext {
    match kind {
        NodeKind::Element(d) => LayoutContext::Element {
            background: d.background,
            border: d.border,
        },
        NodeKind::Text(t) => LayoutContext::Text {
            layout_handle: t.layout_handle,
            color: t.color,
        },
    }
}

fn context_of(kind: &NodeKind) -> (r: LayoutContext)
    ensures
        r == spec_context_of(*kind),
{
    match kind {
        NodeKind::Element(d) => LayoutContext::Element {
            background: d.background,
            border: d.border,
        },
        NodeKind::Text(t) => LayoutContext::Text {
            layout_handle: t.layout_handle,
            color: t.color,
        },
    }
}

/// One element of the layout tree: the arena index it lives at, the
/// render node it was derived from, its absolute box model, its paint
/// content and its ordered child indices.
#[derive(Clone, Debug)]
pub struct LayoutElementNode {
    pub id: usize,
    pub source_node_id: u64,
    pub box_model: BoxModel,
    pub context: LayoutContext,
    pub children: Vec<usize>,
}

/// One arena entry is well formed at position `i`: it knows its own
/// index, its box model is valid, and its children were built before it,
/// so every child index is smaller than its own.
pub open spec fn el_wf(el: LayoutElementNode, i: int) -> bool {
    &&& el.id == i
    &&& el.box_model.valid()
    &&& forall|j: int| 0 <= j < el.children@.len() ==> (el.children@[j] as int) < i
}

/// Every arena entry is well formed.
pub open spec fn arena_wf(arena: Seq<LayoutElementNode>) -> bool {
    forall|i: int| 0 <= i < arena.len() ==> el_wf(#[trigger] arena[i], i)
}

/// The layout tree: an arena of elements indexed by their identifiers.
/// Children are stored before their parent, so the root is the last
/// element.
#[derive(Clone, Debug)]
pub struct LayoutTree {
    pub arena: Vec<LayoutElementNode>,
    pub root_id: usize,
}

impl LayoutTree {
    /// A tree is well formed when it is non-empty, the root is the last
    /// element, and every entry is well formed at its index.
    pub open spec fn wf(self) -> bool {
        &&& self.arena@.len() > 0
        &&& self.root_id + 1 == self.arena@.len()
        &&& arena_wf(self.arena@)
    }

    /// Look an element up by its identifier.
    pub fn get_node_by_id(&self, id: usize) -> (r: Option<&LayoutElementNode>)
        ensures
            match r {
                Some(el) => id < self.arena@.len() && *el == self.arena@[id as int],
                None => id >= self.arena@.len(),
            },
    {
        if id < self.arena.len() {
            Some(&self.arena[id])
        } else {
            None
        }
    }
}

/// The absolute box model of a node: the solver-local location shifted by
/// the accumulated offset gives the margin-box origin; the margin box's
/// size is the reported size grown by the margins; the edge thicknesses
/// are taken over unchanged.
pub open spec fn spec_to_boxmodel(nl: NodeLayout, ox: int, oy: int) -> BoxModel {
    BoxModel {
        margin_box: Rect {
            x: (ox + nl.location_x) as i64,
            y: (oy + nl.location_y) as i64,
            width: (nl.width + nl.margin.left + nl.margin.right) as i64,
            height: (nl.height + nl.margin.top + nl.margin.bottom) as i64,
        },
        margin: nl.margin,
        border: nl.border,
        padding: nl.padding,
    }
}

/// Convert one node's solver geometry into an absolute box model, given
/// the accumulated offset of its ancestors.
pub fn to_boxmodel(layout: &NodeLayout, offset_x: i64, offset_y: i64) -> (r: BoxModel)
    requires
        layout.wf(),
        -COORD_LIMIT <= offset_x + layout.location_x,
        offset_x + layout.location_x + layout.width + layout.margin.left + layout.margin.right
            <= COORD_LIMIT,
        -COORD_LIMIT <= offset_y + layout.location_y,
        offset_y + layout.location_y + layout.height + layout.margin.top + layout.margin.bottom
            <= COORD_LIMIT,
    ensures
        r == spec_to_boxmodel(*layout, offset_x as int, offset_y as int),
        r.valid(),
{
    BoxModel {
        margin_box: Rect {
            x: offset_x + layout.location_x,
            y: offset_y + layout.location_y,
            width: layout.width + layout.margin.left + layout.margin.right,
            height: layout.height + layout.margin.top + layout.margin.bottom,
        },
        margin: layout.margin,
        border: layout.border,
        padding: layout.padding,
    }
}

/// The running offsets stay within the coordinate bound throughout the
/// subtree of `node`, so every box model the builder computes is
/// representable. Nodes without solver geometry are skipped along with
/// their subtree, so nothing is required of them.
pub open spec fn offsets_ok(node: RenderNode, layouts: Map<u64, NodeLayout>, ox: int, oy: int) -> bool
    decreases node, node.children@.len() + 1,
{
    if layouts.contains_key(node.id) {
        let nl = layouts[node.id];
        &&& -COORD_LIMIT <= ox + nl.location_x
        &&& ox + nl.location_x + nl.width + nl.margin.left + nl.margin.right <= COORD_LIMIT
        &&& -COORD_LIMIT <= oy + nl.location_y
        &&& oy + nl.location_y + nl.height + nl.margin.top + nl.margin.bottom <= COORD_LIMIT
        &&& offsets_children_ok(
            node,
            0,
            layouts,
            ox + nl.location_x + nl.margin.left,
            oy + nl.location_y + nl.margin.top,
        )
    } else {
        true
    }
}

/// The offsets stay bounded for the children of `node` from index `ci`
/// on, at the child offset `(ox, oy)`.
pub open spec fn offsets_children_ok(
    node: RenderNode,
    ci: int,
    layouts: Map<u64, NodeLayout>,
    ox: int,
    oy: int,
) -> bool
    decreases node, node.children@.len() - ci,
{
    if ci < 0 || ci >= node.children@.len() {
        true
    } else {
        &&& offsets_ok(node.children@[ci], layouts, ox, oy)
        &&& offsets_children_ok(node, ci + 1, layouts, ox, oy)
    }
}

/// The arena segment `[base, r]` is the faithful build of the subtree of
/// `node` at offset `(ox, oy)`: the element at `r` carries the node's
/// absolute box model and paint content, and its children pack the
/// segment `[base, r)` in order, one per child of `node` the solver laid
/// out.
pub open spec fn built_ok(
    arena: Seq<LayoutElementNode>,
    node: RenderNode,
    layouts: Map<u64, NodeLayout>,
    ox: int,
    oy: int,
    base: int,
    r: int,
) -> bool
    decreases node, node.children@.len() + 1,
{
    &&& layouts.contains_key(node.id)
    &&& 0 <= base <= r < arena.len()
    &&& arena[r].id == r
    &&& arena[r].source_node_id == node.id
    &&& arena[r].box_model == spec_to_boxmodel(layouts[node.id], ox, oy)
    &&& arena[r].context == spec_context_of(node.kind)
    &&& built_children_ok(
        arena,
        node,
        0,
        layouts,
        ox + layouts[node.id].location_x + layouts[node.id].margin.left,
        oy + layouts[node.id].location_y + layouts[node.id].margin.top,
        base,
        r,
        arena[r].children@,
        0,
    )
}

/// The children of `node` from index `ci` on are built, in order, into
/// the arena segment `[lo, hi)`, their roots listed in `ids` from
/// position `ii` on: a child the solver laid out occupies the next
/// sub-segment and contributes the next entry of `ids`; a child without
/// solver geometry is skipped entirely.
pub open spec fn built_children_ok(
    arena: Seq<LayoutElementNode>,
    node: RenderNode,
    ci: int,
    layouts: Map<u64, NodeLayout>,
    ox: int,
    oy: int,
    lo: int,
    hi: int,
    ids: Seq<usize>,
    ii: int,
) -> bool
    decreases node, node.children@.len() - ci,
{
    if ci < 0 || ci >= node.children@.len() {
        ii == ids.len() && lo == hi
    } else {
        let child = node.children@[ci];
        if layouts.contains_key(child.id) {
            &&& 0 <= ii < ids.len()
            &&& lo <= ids[ii] < hi
            &&& built_ok(arena, child, layouts, ox, oy, lo, ids[ii] as int)
            &&& built_children_ok(
                arena,
                node,
                ci + 1,
                layouts,
                ox,
                oy,
                ids[ii] + 1,
                hi,
                ids,
                ii + 1,
            )
        } else {
            built_children_ok(arena, node, ci + 1, layouts, ox, oy, lo, hi, ids, ii)
        }
    }
}

/// Building reads only the arena segment below `r`, so extending the
/// arena preserves it.
pub proof fn lemma_built_ok_frame(
    a1: Seq<LayoutElementNode>,
    a2: Seq<LayoutElementNode>,
    node: RenderNode,
    layouts: Map<u64, NodeLayout>,
    ox: int,
    oy: int,
    base: int,
    r: int,
)
    requires
        built_ok(a1, node, layouts, ox, oy, base, r),
        a1.len() <= a2.len(),
        forall|i: int| 0 <= i < a1.len() ==> a2[i] == a1[i],
    ensures
        built_ok(a2, node, layouts, ox, oy, base, r),
    decreases node, node.children@.len() + 1,
{
    lemma_built_children_ok_frame(
        a1,
        a2,
        node,
        0,
        layouts,
        ox + layouts[node.id].location_x + layouts[node.id].margin.left,
        oy + layouts[node.id].location_y + layouts[node.id].margin.top,
        base,
        r,
        a1[r].children@,
        0,
    );
}

pub proof fn lemma_built_children_ok_frame(
    a1: Seq<LayoutElementNode>,
    a2: Seq<LayoutElementNode>,
    node: RenderNode,
    ci: int,
    layouts: Map<u64, NodeLayout>,
    ox: int,
    oy: int,
    lo: int,
    hi: int,
    ids: Seq<usize>,
    ii: int,
)
    requires
        built_children_ok(a1, node, ci, layouts, ox, oy, lo, hi, ids, ii),
        a1.len() <= a2.len(),
        forall|i: int| 0 <= i < a1.len() ==> a2[i] == a1[i],
        hi <= a1.len(),
    ensures
        built_children_ok(a2, node, ci, layouts, ox, oy, lo, hi, ids, ii),
    decreases node, node.children@.len() - ci,
{
    if ci < 0 || ci >= node.children@.len() {
    } else {
        let child = node.children@[ci];
        if layouts.contains_key(child.id) {
            lemma_built_ok_frame(a1, a2, child, layouts, ox, oy, lo, ids[ii] as int);
            lemma_built_children_ok_frame(
                a1,
                a2,
                node,
                ci + 1,
                layouts,
                ox,
                oy,
                ids[ii] + 1,
                hi,
                ids,
                ii + 1,
            );
        } else {
            lemma_built_children_ok_frame(a1, a2, node, ci + 1, layouts, ox, oy, lo, hi, ids, ii);
        }
    }
}

/// Every child root listed by a build of children lies in the segment
/// `[lo, hi)`.
pub proof fn lemma_built_children_ids_bounded(
    arena: Seq<LayoutElementNode>,
    node: RenderNode,
    ci: int,
    layouts: Map<u64, NodeLayout>,
    ox: int,
    oy: int,
    lo: int,
    hi: int,
    ids: Seq<usize>,
    ii: int,
)
    requires
        built_children_ok(arena, node, ci, layouts, ox, oy, lo, hi, ids, ii),
    ensures
        forall|k: int| ii <= k < ids.len() ==> lo <= #[trigger] (ids[k] as int) < hi,
    decreases node, node.children@.len() - ci,
{
    if ci < 0 || ci >= node.children@.len() {
    } else {
        let child = node.children@[ci];
        if layouts.contains_key(child.id) {
            lemma_built_children_ids_bounded(
                arena,
                node,
                ci + 1,
                layouts,
                ox,
                oy,
                ids[ii] + 1,
                hi,
                ids,
                ii + 1,
            );
        } else {
            lemma_built_children_ids_bounded(
                arena,
                node,
                ci + 1,
                layouts,
                ox,
                oy,
                lo,
                hi,
                ids,
                ii,
            );
        }
    }
}

/// Each child root a build of children lists carries the box model of its
/// source node at the child offset `(ox, oy)`: its margin-box origin is
/// that offset plus the child's own solver-local location.
pub proof fn lemma_children_positions(
    arena: Seq<LayoutElementNode>,
    node: RenderNode,
    ci: int,
    layouts: Map<u64, NodeLayout>,
    ox: int,
    oy: int,
    lo: int,
    hi: int,
    ids: Seq<usize>,
    ii: int,
)
    requires
        layouts_wf(layouts),
        built_children_ok(arena, node, ci, layouts, ox, oy, lo, hi, ids, ii),
        offsets_children_ok(node, ci, layouts, ox, oy),
    ensures
        forall|k: int|
            ii <= k < ids.len() ==> {
                let c = #[trigger] ids[k] as int;
                let sid = arena[c].source_node_id;
                &&& layouts.contains_key(sid)
                &&& arena[c].box_model.margin_box.x == ox + layouts[sid].location_x
                &&& arena[c].box_model.margin_box.y == oy + layouts[sid].location_y
            },
    decreases node, node.children@.len() - ci,
{
    if ci < 0 || ci >= node.children@.len() {
    } else {
        let child = node.children@[ci];
        if layouts.contains_key(child.id) {
            lemma_children_positions(
                arena,
                node,
                ci + 1,
                layouts,
                ox,
                oy,
                ids[ii] + 1,
                hi,
                ids,
                ii + 1,
            );
            assert(built_ok(arena, child, layouts, ox, oy, lo, ids[ii] as int));
            assert(offsets_ok(child, layouts, ox, oy));
            let c = ids[ii] as int;
            let nl = layouts[child.id];
            assert(nl.wf());
            assert(arena[c].source_node_id == child.id);
            assert(-COORD_LIMIT <= ox + nl.location_x && ox + nl.location_x <= COORD_LIMIT);
            assert(-COORD_LIMIT <= oy + nl.location_y && oy + nl.location_y <= COORD_LIMIT);
            assert(arena[c].box_model.margin_box.x == (ox + nl.location_x) as i64);
            assert(arena[c].box_model.margin_box.x == ox + nl.location_x);
            assert(arena[c].box_model.margin_box.y == oy + nl.location_y);
        } else {
            lemma_children_positions(arena, node, ci + 1, layouts, ox, oy, lo, hi, ids, ii);
        }
    }
}

/// The accumulated offset rule, read off the built tree: an element's
/// margin-box origin is the running offset plus its solver-local
/// location, and each child's margin-box origin is the parent's
/// margin-box origin plus the parent's left/top margin plus the child's
/// solver-local location. At the root the running offset is zero, so the
/// root's position is its own local location relative to the viewport
/// origin.
pub proof fn lemma_child_absolute_offsets(
    arena: Seq<LayoutElementNode>,
    node: RenderNode,
    layouts: Map<u64, NodeLayout>,
    ox: int,
    oy: int,
    base: int,
    r: int,
)
    requires
        layouts_wf(layouts),
        built_ok(arena, node, layouts, ox, oy, base, r),
        offsets_ok(node, layouts, ox, oy),
    ensures
        arena[r].box_model.margin_box.x == ox + layouts[node.id].location_x,
        arena[r].box_model.margin_box.y == oy + layouts[node.id].location_y,
        forall|k: int|
            0 <= k < arena[r].children@.len() ==> {
                let c = #[trigger] arena[r].children@[k] as int;
                let sid = arena[c].source_node_id;
                &&& layouts.contains_key(sid)
                &&& arena[c].box_model.margin_box.x == arena[r].box_model.margin_box.x
                    + layouts[node.id].margin.left + layouts[sid].location_x
                &&& arena[c].box_model.margin_box.y == arena[r].box_model.margin_box.y
                    + layouts[node.id].margin.top + layouts[sid].location_y
            },
{
    let nl = layouts[node.id];
    assert(nl.wf());
    assert(-COORD_LIMIT <= ox + nl.location_x && ox + nl.location_x <= COORD_LIMIT);
    assert(-COORD_LIMIT <= oy + nl.location_y && oy + nl.location_y <= COORD_LIMIT);
    assert(arena[r].box_model.margin_box.x == (ox + nl.location_x) as i64);
    assert(arena[r].box_model.margin_box.x == ox + nl.location_x);
    assert(arena[r].box_model.margin_box.y == oy + nl.location_y);
    assert(offsets_children_ok(
        node,
        0,
        layouts,
        ox + nl.location_x + nl.margin.left,
        oy + nl.location_y + nl.margin.top,
    ));
    lemma_children_positions(
        arena,
        node,
        0,
        layouts,
        ox + nl.location_x + nl.margin.left,
        oy + nl.location_y + nl.margin.top,
        base,
        r,
        arena[r].children@,
        0,
    );
}

/// Build the subtree of `node` into the arena at offset `(ox, oy)`.
/// Returns the arena index of the subtree's root, or `None` — leaving the
/// arena untouched — when the solver produced no geometry for `node`.
pub fn generate_node(
    arena: &mut Vec<LayoutElementNode>,
    node: &RenderNode,
    layouts: &HashMap<u64, NodeLayout>,
    ox: i64,
    oy: i64,
) -> (r: Option<usize>)
    requires
        layouts_wf(layouts@),
        offsets_ok(*node, layouts@, ox as int, oy as int),
    ensures
        final(arena)@.len() >= old(arena)@.len(),
        forall|i: int| 0 <= i < old(arena)@.len() ==> final(arena)@[i] == old(arena)@[i],
        forall|i: int|
            old(arena)@.len() <= i < final(arena)@.len() ==> el_wf(#[trigger] final(arena)@[i], i),
        match r {
            None => final(arena)@ =~= old(arena)@ && !layouts@.contains_key(node.id),
            Some(rid) => {
                &&& layouts@.contains_key(node.id)
                &&& rid as int == final(arena)@.len() - 1
                &&& built_ok(
                    final(arena)@,
                    *node,
                    layouts@,
                    ox as int,
                    oy as int,
                    old(arena)@.len() as int,
                    rid as int,
                )
            },
        },
    decreases *node, node.children@.len() + 1,
{
    let nl = match layouts.get(&node.id) {
        Some(nl) => *nl,
        None => {
            return None;
        },
    };
    let cox = ox + nl.location_x + nl.margin.left;
    let coy = oy + nl.location_y + nl.margin.top;
    let mut ids: Vec<usize> = Vec::new();
    let ghost base = arena@.len() as int;
    generate_children(arena, node, 0, layouts, cox, coy, &mut ids);
    let rid = arena.len();
    let el = LayoutElementNode {
        id: rid,
        source_node_id: node.id,
        box_model: to_boxmodel(&nl, ox, oy),
        context: context_of(&node.kind),
        children: ids,
    };
    proof {
        lemma_built_children_ids_bounded(
            arena@,
            *node,
            0,
            layouts@,
            cox as int,
            coy as int,
            base,
            rid as int,
            el.children@,
            0,
        );
    }
    let ghost pre_push = arena@;
    arena.push(el);
    proof {
        assert(arena@.drop_last() =~= pre_push);
        assert(arena@[rid as int] == el);
        lemma_built_children_ok_frame(
            pre_push,
            arena@,
            *node,
            0,
            layouts@,
            cox as int,
            coy as int,
            base,
            rid as int,
            arena@[rid as int].children@,
            0,
        );
        assert(built_ok(
            arena@,
            *node,
            layouts@,
            ox as int,
            oy as int,
            base,
            rid as int,
        ));
    }
    Some(rid)
}

/// Build the children of `node` from index `ci` on, appending the arena
/// index of each child the solver laid out to `ids`.
fn generate_children(
    arena: &mut Vec<LayoutElementNode>,
    node: &RenderNode,
    ci: usize,
    layouts: &HashMap<u64, NodeLayout>,
    ox: i64,
    oy: i64,
    ids: &mut Vec<usize>,
)
    requires
        layouts_wf(layouts@),
        ci <= node.children@.len(),
        offsets_children_ok(*node, ci as int, layouts@, ox as int, oy as int),
    ensures
        final(arena)@.len() >= old(arena)@.len(),
        forall|i: int| 0 <= i < old(arena)@.len() ==> final(arena)@[i] == old(arena)@[i],
        forall|i: int|
            old(arena)@.len() <= i < final(arena)@.len() ==> el_wf(#[trigger] final(arena)@[i], i),
        final(ids)@.len() >= old(ids)@.len(),
        forall|k: int| 0 <= k < old(ids)@.len() ==> final(ids)@[k] == old(ids)@[k],
        built_children_ok(
            final(arena)@,
            *node,
            ci as int,
            layouts@,
            ox as int,
            oy as int,
            old(arena)@.len() as int,
            final(arena)@.len() as int,
            final(ids)@,
            old(ids)@.len() as int,
        ),
    decreases *node, node.children@.len() - ci,
{
    if ci >= node.children.len() {
        return;
    }
    let child = &node.children[ci];
    let ghost lo = arena@.len() as int;
    let r = generate_node(arena, child, layouts, ox, oy);
    match r {
        Some(rid) => {
            ids.push(rid);
            let ghost mid_arena = arena@;
            let ghost mid_ids = ids@;
            generate_children(arena, node, ci + 1, layouts, ox, oy, ids);
            proof {
                lemma_built_ok_frame(
                    mid_arena,
                    arena@,
                    node.children@[ci as int],
                    layouts@,
                    ox as int,
                    oy as int,
                    lo,
                    rid as int,
                );
            }
        },
        None => {
            generate_children(arena, node, ci + 1, layouts, ox, oy, ids);
        },
    }
}

/// Build the layout tree for a render tree from the geometry the solver
/// reported. Fails — producing no tree — only when the render tree has no
/// root or the solver rejected the root; any other node without solver
/// geometry is dropped together with its subtree while its siblings are
/// kept.
pub fn generate_tree(
    render_tree: &RenderTree,
    layouts: &HashMap<u64, NodeLayout>,
) -> (r: Option<LayoutTree>)
    requires
        layouts_wf(layouts@),
        match render_tree.root {
            Some(n) => offsets_ok(n, layouts@, 0, 0),
            None => true,
        },
    ensures
        match r {
            None => match render_tree.root {
                None => true,
                Some(n) => !layouts@.contains_key(n.id),
            },
            Some(tree) => match render_tree.root {
                None => false,
                Some(n) => {
                    &&& tree.wf()
                    &&& built_ok(tree.arena@, n, layouts@, 0, 0, 0, tree.root_id as int)
                },
            },
        },
{
    let root = match &render_tree.root {
        Some(root) => root,
        None => {
            return None;
        },
    };
    let mut arena: Vec<LayoutElementNode> = Vec::new();
    match generate_node(&mut arena, root, layouts, 0, 0) {
        Some(rid) => Some(LayoutTree { arena, root_id: rid }),
        None => None,
    }
}

} // verus!
