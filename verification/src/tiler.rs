//! The tiler: partitions the viewport into a grid of fixed-size tiles and
//! records, per tile, the layout elements whose border box overlaps it, in
//! document paint order (pre-order walk of the layout tree).

use vstd::prelude::*;
use crate::geom::{Rect, COORD_LIMIT};
use crate::layout::{arena_wf, built_children_ok, built_ok, el_wf, LayoutElementNode, LayoutTree, NodeLayout, RenderNode};

verus! {

/// One tile of the viewport grid: its rectangle and the elements whose
/// border box overlaps it, in paint order.
#[derive(Clone, Debug)]
pub struct Tile {
    pub rect: Rect,
    pub elements: Vec<usize>,
}

/// The complete set of tiles covering the current viewport.
#[derive(Clone, Debug)]
pub struct TileList {
    pub viewport: Rect,
    pub tile_size: i64,
    pub tiles: Vec<Tile>,
}

impl TileList {
    /// An empty tile list for an empty viewport.
    pub fn empty() -> (r: TileList)
        ensures
            r.tiles@.len() == 0,
            r.viewport == (Rect { x: 0i64, y: 0i64, width: 0i64, height: 0i64 }),
            r.tile_size == 1,
    {
        TileList {
            viewport: Rect { x: 0, y: 0, width: 0, height: 0 },
            tile_size: 1,
            tiles: Vec::new(),
        }
    }
}

/// The document paint order of the subtree rooted at arena index `r`:
/// the root first, then each child's subtree in source order.
pub open spec fn spec_preorder(arena: Seq<LayoutElementNode>, r: int) -> Seq<usize>
    decreases r, arena[r].children@.len() + 1,
{
    seq![r as usize] + spec_preorder_children(arena, r, 0)
}

/// The concatenated paint orders of the children of `r` from child
/// position `j` on. Child indices not below `r` are skipped so that the
/// walk is well founded on any input; a well-formed arena has none.
pub open spec fn spec_preorder_children(arena: Seq<LayoutElementNode>, r: int, j: int) -> Seq<
    usize,
>
    decreases r, arena[r].children@.len() - j,
{
    if j < 0 || j >= arena[r].children@.len() {
        Seq::empty()
    } else {
        let c = arena[r].children@[j] as int;
        if 0 <= c < r {
            spec_preorder(arena, c) + spec_preorder_children(arena, r, j + 1)
        } else {
            spec_preorder_children(arena, r, j + 1)
        }
    }
}

/// Append the paint order of the subtree at `r` to `out`.
fn collect_paint_order(arena: &Vec<LayoutElementNode>, r: usize, out: &mut Vec<usize>)
    requires
        arena_wf(arena@),
        (r as int) < arena@.len(),
    ensures
        final(out)@ =~= old(out)@ + spec_preorder(arena@, r as int),
    decreases r, arena@[r as int].children@.len() + 1,
{
    out.push(r);
    collect_children_order(arena, r, 0, out);
}

/// Append the paint orders of the children of `r` from position `j` on.
fn collect_children_order(arena: &Vec<LayoutElementNode>, r: usize, j: usize, out: &mut Vec<usize>)
    requires
        arena_wf(arena@),
        (r as int) < arena@.len(),
        j <= arena@[r as int].children@.len(),
    ensures
        final(out)@ =~= old(out)@ + spec_preorder_children(arena@, r as int, j as int),
    decreases r, arena@[r as int].children@.len() - j,
{
    proof {
        assert(el_wf(arena@[r as int], r as int));
    }
    if j >= arena[r].children.len() {
        proof {
            assert(spec_preorder_children(arena@, r as int, j as int) =~= Seq::<usize>::empty());
        }
        return;
    }
    let c = arena[r].children[j];
    proof {
        assert((arena@[r as int].children@[j as int] as int) < r as int);
    }
    collect_paint_order(arena, c, out);
    collect_children_order(arena, r, j + 1, out);
}

/// In a well-formed arena the paint order of the subtree at `r` starts
/// with `r` itself, and every element of it has index at most `r`:
/// descendants were built before their ancestors.
pub proof fn lemma_preorder_bounded(arena: Seq<LayoutElementNode>, r: int)
    requires
        arena_wf(arena),
        0 <= r < arena.len(),
    ensures
        spec_preorder(arena, r).len() >= 1,
        spec_preorder(arena, r)[0] == r as usize,
        forall|q: int|
            0 <= q < spec_preorder(arena, r).len() ==> (#[trigger] spec_preorder(arena, r)[q]
                as int) <= r,
    decreases r, arena[r].children@.len() + 1,
{
    lemma_preorder_children_bounded(arena, r, 0);
    let po = spec_preorder(arena, r);
    let kids = spec_preorder_children(arena, r, 0);
    assert forall|q: int| 0 <= q < po.len() implies (#[trigger] po[q] as int) <= r by {
        if q >= 1 {
            assert(po[q] == kids[q - 1]);
        }
    }
}

/// Every element of the children's concatenated paint orders has index
/// strictly below `r`.
pub proof fn lemma_preorder_children_bounded(arena: Seq<LayoutElementNode>, r: int, j: int)
    requires
        arena_wf(arena),
        0 <= r < arena.len(),
    ensures
        forall|q: int|
            0 <= q < spec_preorder_children(arena, r, j).len() ==> (
            #[trigger] spec_preorder_children(arena, r, j)[q] as int) < r,
    decreases r, arena[r].children@.len() - j,
{
    if j < 0 || j >= arena[r].children@.len() {
    } else {
        let c = arena[r].children@[j] as int;
        let whole = spec_preorder_children(arena, r, j);
        let rest = spec_preorder_children(arena, r, j + 1);
        if 0 <= c < r {
            lemma_preorder_bounded(arena, c);
            lemma_preorder_children_bounded(arena, r, j + 1);
            let head = spec_preorder(arena, c);
            assert forall|q: int| 0 <= q < whole.len() implies (#[trigger] whole[q] as int)
                < r by {
                if q < head.len() {
                    assert(whole[q] == head[q]);
                } else {
                    assert(whole[q] == rest[q - head.len()]);
                }
            }
        } else {
            lemma_preorder_children_bounded(arena, r, j + 1);
        }
    }
}

/// Number of tile columns covering the viewport: the viewport width
/// divided by the tile size, rounded up.
pub open spec fn spec_nx(vp: Rect, ts: int) -> int {
    (vp.width + ts - 1) / ts
}

/// Number of tile rows covering the viewport.
pub open spec fn spec_ny(vp: Rect, ts: int) -> int {
    (vp.height + ts - 1) / ts
}

/// Number of tiles in the grid.
pub open spec fn spec_num_tiles(vp: Rect, ts: int) -> int {
    spec_nx(vp, ts) * spec_ny(vp, ts)
}

/// The rectangle of tile `k` of the grid: tiles are laid out row by row,
/// grid-aligned from the viewport origin, and a tile at the grid boundary
/// is clipped to the viewport, not padded.
pub open spec fn spec_tile_rect(vp: Rect, ts: int, k: int) -> Rect {
    let i = k % spec_nx(vp, ts);
    let j = k / spec_nx(vp, ts);
    let x = vp.x + i * ts;
    let y = vp.y + j * ts;
    Rect {
        x: x as i64,
        y: y as i64,
        width: (if ts <= vp.x + vp.width - x {
            ts
        } else {
            vp.x + vp.width - x
        }) as i64,
        height: (if ts <= vp.y + vp.height - y {
            ts
        } else {
            vp.y + vp.height - y
        }) as i64,
    }
}

/// Whether an element's border box overlaps a tile rectangle.
pub open spec fn spec_tile_pred(arena: Seq<LayoutElementNode>, trect: Rect) -> spec_fn(usize) -> bool {
    (|e: usize| arena[e as int].box_model.spec_border_box().spec_overlaps(trect))
}

/// What tiling guarantees: one tile per grid cell, each carrying exactly
/// the paint-ordered elements whose border box overlaps it.
pub open spec fn tiling_ok(
    tl: TileList,
    arena: Seq<LayoutElementNode>,
    root: int,
    vp: Rect,
    ts: i64,
) -> bool {
    &&& tl.viewport == vp
    &&& tl.tile_size == ts
    &&& tl.tiles@.len() == spec_num_tiles(vp, ts as int)
    &&& forall|k: int|
        0 <= k < tl.tiles@.len() ==> {
            &&& (#[trigger] tl.tiles@[k]).rect == spec_tile_rect(vp, ts as int, k)
            &&& tl.tiles@[k].elements@ == spec_preorder(arena, root).filter(
                spec_tile_pred(arena, spec_tile_rect(vp, ts as int, k)),
            )
        }
}

/// Filtering a one-longer prefix keeps the filtered prefix and appends
/// the new element exactly when it satisfies the predicate.
proof fn lemma_filter_take_step(s: Seq<usize>, m: int, pred: spec_fn(usize) -> bool)
    requires
        0 <= m < s.len(),
    ensures
        pred(s[m]) ==> s.take(m + 1).filter(pred) == s.take(m).filter(pred).push(s[m]),
        !pred(s[m]) ==> s.take(m + 1).filter(pred) == s.take(m).filter(pred),
{
    reveal(Seq::filter);
    let t = s.take(m + 1);
    assert(t.len() == m + 1);
    assert(t.drop_last() =~= s.take(m));
    assert(t.last() == s[m]);
}

/// Partition the viewport into a grid of tiles of the given size and
/// record, per tile, the elements of the layout tree whose border box
/// overlaps that tile, in document paint order. Tiling never fails; an
/// empty layout tree yields tiles with empty element lists.
pub fn tile(tree: &LayoutTree, viewport: Rect, tile_size: i64) -> (r: TileList)
    requires
        tree.wf(),
        viewport.wf(),
        1 <= tile_size <= COORD_LIMIT,
        spec_num_tiles(viewport, tile_size as int) <= usize::MAX,
    ensures
        tiling_ok(r, tree.arena@, tree.root_id as int, viewport, tile_size),
{
    let mut po: Vec<usize> = Vec::new();
    collect_paint_order(&tree.arena, tree.root_id, &mut po);
    proof {
        assert(po@ =~= spec_preorder(tree.arena@, tree.root_id as int));
        lemma_preorder_bounded(tree.arena@, tree.root_id as int);
        assert forall|q: int| 0 <= q < po@.len() implies (#[trigger] po@[q] as int)
            < tree.arena@.len() by {
            assert(po@[q] == spec_preorder(tree.arena@, tree.root_id as int)[q]);
        }
    }

    let w: u64 = viewport.width as u64;
    let h: u64 = viewport.height as u64;
    let ts: u64 = tile_size as u64;
    let nx: u64 = (w + ts - 1) / ts;
    let ny: u64 = (h + ts - 1) / ts;
    proof {
        assert(nx as int == spec_nx(viewport, tile_size as int));
        assert(ny as int == spec_ny(viewport, tile_size as int));
        assert((nx as int) * (ny as int) == spec_num_tiles(viewport, tile_size as int));
    }
    let n: u64 = nx * ny;

    let mut tiles: Vec<Tile> = Vec::new();
    let mut k: u64 = 0;
    while k < n
        invariant
            tree.wf(),
            viewport.wf(),
            1 <= tile_size <= COORD_LIMIT,
            po@ == spec_preorder(tree.arena@, tree.root_id as int),
            forall|q: int| 0 <= q < po@.len() ==> (#[trigger] po@[q] as int) < tree.arena@.len(),
            ts == tile_size as u64,
            nx as int == spec_nx(viewport, tile_size as int),
            ny as int == spec_ny(viewport, tile_size as int),
            n as int == spec_num_tiles(viewport, tile_size as int),
            n <= usize::MAX,
            nx >= 1 ==> n == nx * ny,
            k <= n,
            tiles@.len() == k,
            forall|q: int|
                0 <= q < k ==> {
                    &&& (#[trigger] tiles@[q]).rect == spec_tile_rect(
                        viewport,
                        tile_size as int,
                        q,
                    )
                    &&& tiles@[q].elements@ == spec_preorder(
                        tree.arena@,
                        tree.root_id as int,
                    ).filter(
                        spec_tile_pred(
                            tree.arena@,
                            spec_tile_rect(viewport, tile_size as int, q),
                        ),
                    )
                },
        decreases n - k,
    {
        proof {
            assert(nx >= 1) by {
                if nx == 0 {
                    assert(n as int == spec_nx(viewport, tile_size as int) * spec_ny(
                        viewport,
                        tile_size as int,
                    ));
                    assert(n == 0) by (nonlinear_arith)
                        requires
                            n as int == (nx as int) * (ny as int),
                            nx == 0,
                    ;
                }
            }
        }
        let i: u64 = k % nx;
        let j: u64 = k / nx;
        proof {
            lemma_grid_cell_bounds(viewport, tile_size as int, k as int);
        }
        let x: i64 = viewport.x + (i as i64) * tile_size;
        let y: i64 = viewport.y + (j as i64) * tile_size;
        let right: i64 = viewport.x + viewport.width;
        let bottom: i64 = viewport.y + viewport.height;
        let tw: i64 = if tile_size <= right - x {
            tile_size
        } else {
            right - x
        };
        let th: i64 = if tile_size <= bottom - y {
            tile_size
        } else {
            bottom - y
        };
        let trect = Rect { x, y, width: tw, height: th };
        proof {
            assert(trect == spec_tile_rect(viewport, tile_size as int, k as int));
            assert(trect.wf());
        }

        let mut elements: Vec<usize> = Vec::new();
        let ghost pred = spec_tile_pred(tree.arena@, trect);
        let mut m: usize = 0;
        proof {
            assert(po@.take(0) =~= Seq::<usize>::empty());
            assert(po@.take(0).filter(pred) =~= Seq::<usize>::empty());
        }
        while m < po.len()
            invariant
                tree.wf(),
                trect.wf(),
                m <= po@.len(),
                pred == spec_tile_pred(tree.arena@, trect),
                forall|q: int| 0 <= q < po@.len() ==> (#[trigger] po@[q] as int) < tree.arena@.len(),
                elements@ == po@.take(m as int).filter(pred),
            decreases po@.len() - m,
        {
            let e = po[m];
            proof {
                assert(el_wf(tree.arena@[e as int], e as int));
            }
            let bb = tree.arena[e].box_model.border_box();
            let ghost prev = elements@;
            if bb.overlaps(&trect) {
                elements.push(e);
            }
            proof {
                lemma_filter_take_step(po@, m as int, pred);
                assert(elements@ =~= po@.take(m as int + 1).filter(pred));
            }
            m = m + 1;
        }
        proof {
            assert(po@.take(po@.len() as int) =~= po@);
        }

        tiles.push(Tile { rect: trect, elements });
        k = k + 1;
    }
    TileList { viewport, tile_size, tiles }
}

/// Arithmetic facts about grid cell `k`: its row and column indices lie
/// in the grid, its origin lies within the viewport, and the clipped cell
/// has positive size.
pub proof fn lemma_grid_cell_bounds(vp: Rect, ts: int, k: int)
    requires
        vp.wf(),
        1 <= ts <= COORD_LIMIT,
        0 <= k < spec_num_tiles(vp, ts),
    ensures
        spec_nx(vp, ts) >= 1,
        0 <= k % spec_nx(vp, ts) < spec_nx(vp, ts),
        0 <= k / spec_nx(vp, ts) < spec_ny(vp, ts),
        (k % spec_nx(vp, ts)) * ts <= vp.width - 1,
        (k / spec_nx(vp, ts)) * ts <= vp.height - 1,
        vp.spec_contains_point(
            vp.x + (k % spec_nx(vp, ts)) * ts,
            vp.y + (k / spec_nx(vp, ts)) * ts,
        ),
        spec_tile_rect(vp, ts, k).wf(),
        spec_tile_rect(vp, ts, k).width >= 1,
        spec_tile_rect(vp, ts, k).height >= 1,
        vp.spec_contains_rect(spec_tile_rect(vp, ts, k)),
{
    let nx = spec_nx(vp, ts);
    let ny = spec_ny(vp, ts);
    vstd::arithmetic::div_mod::lemma_div_pos_is_pos(vp.width + ts - 1, ts);
    vstd::arithmetic::div_mod::lemma_div_pos_is_pos(vp.height + ts - 1, ts);
    assert(nx >= 1 && ny >= 1) by (nonlinear_arith)
        requires
            0 <= k < nx * ny,
            nx >= 0,
            ny >= 0,
    ;
    vstd::arithmetic::div_mod::lemma_fundamental_div_mod(k, nx);
    vstd::arithmetic::div_mod::lemma_mod_bound(k, nx);
    let i = k % nx;
    let j = k / nx;
    assert(j < ny) by (nonlinear_arith)
        requires
            k == j * nx + i,
            0 <= i < nx,
            0 <= k < nx * ny,
            nx >= 1,
    ;
    assert(j >= 0) by (nonlinear_arith)
        requires
            k == j * nx + i,
            0 <= i < nx,
            k >= 0,
            nx >= 1,
    ;
    // The last column still starts within the viewport.
    vstd::arithmetic::div_mod::lemma_fundamental_div_mod(vp.width + ts - 1, ts);
    vstd::arithmetic::div_mod::lemma_mod_bound(vp.width + ts - 1, ts);
    assert(i * ts <= vp.width - 1) by (nonlinear_arith)
        requires
            vp.width + ts - 1 == ts * nx + ((vp.width + ts - 1) % ts),
            0 <= (vp.width + ts - 1) % ts < ts,
            0 <= i < nx,
            ts >= 1,
    ;
    vstd::arithmetic::div_mod::lemma_fundamental_div_mod(vp.height + ts - 1, ts);
    vstd::arithmetic::div_mod::lemma_mod_bound(vp.height + ts - 1, ts);
    assert(j * ts <= vp.height - 1) by (nonlinear_arith)
        requires
            vp.height + ts - 1 == ts * ny + ((vp.height + ts - 1) % ts),
            0 <= (vp.height + ts - 1) % ts < ts,
            0 <= j < ny,
            ts >= 1,
    ;
    assert(i * ts >= 0) by (nonlinear_arith)
        requires
            i >= 0,
            ts >= 1,
    ;
    assert(j * ts >= 0) by (nonlinear_arith)
        requires
            j >= 0,
            ts >= 1,
    ;
}

/// The paint order of a built subtree reaches every arena index of its
/// segment: nothing the builder produced is lost by the walk.
pub proof fn lemma_preorder_covers(
    arena: Seq<LayoutElementNode>,
    node: RenderNode,
    layouts: Map<u64, NodeLayout>,
    ox: int,
    oy: int,
    base: int,
    r: int,
)
    requires
        built_ok(arena, node, layouts, ox, oy, base, r),
    ensures
        forall|x: usize| base <= x <= r ==> spec_preorder(arena, r).contains(x),
    decreases node, node.children@.len() + 1,
{
    let cox = ox + layouts[node.id].location_x + layouts[node.id].margin.left;
    let coy = oy + layouts[node.id].location_y + layouts[node.id].margin.top;
    lemma_children_cover(
        arena,
        node,
        0,
        layouts,
        cox,
        coy,
        base,
        r,
        arena[r].children@,
        0,
        r,
    );
    let po = spec_preorder(arena, r);
    let kids = spec_preorder_children(arena, r, 0);
    assert forall|x: usize| base <= x <= r implies po.contains(x) by {
        if x as int == r {
            assert(po[0] == r as usize);
        } else {
            assert(kids.contains(x));
            let q = choose|q: int| 0 <= q < kids.len() && kids[q] == x;
            assert(po[q + 1] == x);
        }
    }
}

/// The concatenated paint orders of the listed child roots reach every
/// index of the packed segment `[lo, hi)`.
pub proof fn lemma_children_cover(
    arena: Seq<LayoutElementNode>,
    node: RenderNode,
    ci: int,
    layouts: Map<u64, NodeLayout>,
    ox: int,
    oy: int,
    lo: int,
    hi: int,
    ids: Seq<usize>,
    ii: int,
    r: int,
)
    requires
        built_children_ok(arena, node, ci, layouts, ox, oy, lo, hi, ids, ii),
        ids == arena[r].children@,
        0 <= lo,
        hi <= r,
        0 <= ii,
    ensures
        forall|x: usize| lo <= x < hi ==> spec_preorder_children(arena, r, ii).contains(x),
    decreases node, node.children@.len() - ci,
{
    if ci < 0 || ci >= node.children@.len() {
    } else {
        let child = node.children@[ci];
        if layouts.contains_key(child.id) {
            let c = ids[ii] as int;
            lemma_preorder_covers(arena, child, layouts, ox, oy, lo, c);
            lemma_children_cover(
                arena,
                node,
                ci + 1,
                layouts,
                ox,
                oy,
                c + 1,
                hi,
                ids,
                ii + 1,
                r,
            );
            let whole = spec_preorder_children(arena, r, ii);
            let head = spec_preorder(arena, c);
            let tail = spec_preorder_children(arena, r, ii + 1);
            assert(0 <= c < r);
            assert(whole == head + tail);
            assert forall|x: usize| lo <= x < hi implies whole.contains(x) by {
                if x <= c {
                    assert(head.contains(x));
                    let q = choose|q: int| 0 <= q < head.len() && head[q] == x;
                    assert(whole[q] == x);
                } else {
                    assert(tail.contains(x));
                    let q = choose|q: int| 0 <= q < tail.len() && tail[q] == x;
                    assert(whole[head.len() + q] == x);
                }
            }
        } else {
            lemma_children_cover(arena, node, ci + 1, layouts, ox, oy, lo, hi, ids, ii, r);
        }
    }
}

/// Arithmetic facts about the grid cell a viewport point falls into.
proof fn lemma_point_tile(vp: Rect, ts: int, px: int, py: int)
    requires
        vp.wf(),
        1 <= ts <= COORD_LIMIT,
        vp.spec_contains_point(px, py),
    ensures
        ({
            let i = (px - vp.x) / ts;
            let j = (py - vp.y) / ts;
            let k = j * spec_nx(vp, ts) + i;
            &&& 0 <= k < spec_num_tiles(vp, ts)
            &&& spec_tile_rect(vp, ts, k).spec_contains_point(px, py)
        }),
{
    let nx = spec_nx(vp, ts);
    let ny = spec_ny(vp, ts);
    let dx = px - vp.x;
    let dy = py - vp.y;
    let i = dx / ts;
    let j = dy / ts;
    vstd::arithmetic::div_mod::lemma_div_pos_is_pos(dx, ts);
    vstd::arithmetic::div_mod::lemma_div_pos_is_pos(dy, ts);
    vstd::arithmetic::div_mod::lemma_fundamental_div_mod(dx, ts);
    vstd::arithmetic::div_mod::lemma_mod_bound(dx, ts);
    vstd::arithmetic::div_mod::lemma_fundamental_div_mod(dy, ts);
    vstd::arithmetic::div_mod::lemma_mod_bound(dy, ts);
    vstd::arithmetic::div_mod::lemma_fundamental_div_mod(vp.width + ts - 1, ts);
    vstd::arithmetic::div_mod::lemma_mod_bound(vp.width + ts - 1, ts);
    vstd::arithmetic::div_mod::lemma_fundamental_div_mod(vp.height + ts - 1, ts);
    vstd::arithmetic::div_mod::lemma_mod_bound(vp.height + ts - 1, ts);
    assert(i * ts <= dx && dx < i * ts + ts) by (nonlinear_arith)
        requires
            dx == ts * i + dx % ts,
            0 <= dx % ts < ts,
    ;
    assert(j * ts <= dy && dy < j * ts + ts) by (nonlinear_arith)
        requires
            dy == ts * j + dy % ts,
            0 <= dy % ts < ts,
    ;
    assert(nx * ts >= vp.width) by (nonlinear_arith)
        requires
            vp.width + ts - 1 == ts * nx + ((vp.width + ts - 1) % ts),
            0 <= (vp.width + ts - 1) % ts < ts,
    ;
    assert(ny * ts >= vp.height) by (nonlinear_arith)
        requires
            vp.height + ts - 1 == ts * ny + ((vp.height + ts - 1) % ts),
            0 <= (vp.height + ts - 1) % ts < ts,
    ;
    assert(i < nx) by (nonlinear_arith)
        requires
            i * ts <= dx,
            dx < vp.width,
            nx * ts >= vp.width,
            ts >= 1,
    ;
    assert(j < ny) by (nonlinear_arith)
        requires
            j * ts <= dy,
            dy < vp.height,
            ny * ts >= vp.height,
            ts >= 1,
    ;
    let k = j * nx + i;
    assert(0 <= k < nx * ny) by (nonlinear_arith)
        requires
            0 <= i < nx,
            0 <= j < ny,
            k == j * nx + i,
    ;
    vstd::arithmetic::div_mod::lemma_fundamental_div_mod_converse(k, nx, j, i);
    assert(k % nx == i && k / nx == j);
    let trect = spec_tile_rect(vp, ts, k);
    assert(trect.x == vp.x + i * ts);
    assert(trect.x <= px);
    assert(px < trect.x + trect.width) by {
        if ts <= vp.x + vp.width - (vp.x + i * ts) {
            assert(trect.width == ts);
            assert(px == vp.x + dx && dx < i * ts + ts);
        } else {
            assert(trect.width == vp.x + vp.width - (vp.x + i * ts));
            assert(px < vp.x + vp.width);
        }
    }
    assert(trect.y <= py);
    assert(py < trect.y + trect.height) by {
        if ts <= vp.y + vp.height - (vp.y + j * ts) {
            assert(py == vp.y + dy && dy < j * ts + ts);
        } else {
            assert(py < vp.y + vp.height);
        }
    }
}

/// Tiling is exhaustive and non-lossy. Every layout element of the built
/// tree whose border box overlaps a viewport of positive size appears in
/// the element list of at least one tile, provided its border box has
/// positive size (a degenerate box lying exactly on a grid line belongs
/// to no tile under the open overlap test); and an element whose border
/// box does not overlap the viewport appears in no tile at all.
pub proof fn lemma_tiling_exhaustive(
    tl: TileList,
    arena: Seq<LayoutElementNode>,
    node: RenderNode,
    layouts: Map<u64, NodeLayout>,
    vp: Rect,
    ts: i64,
    e: int,
)
    requires
        tiling_ok(tl, arena, arena.len() - 1, vp, ts),
        arena_wf(arena),
        built_ok(arena, node, layouts, 0, 0, 0, arena.len() - 1),
        vp.wf(),
        1 <= ts <= COORD_LIMIT,
        0 <= e < arena.len(),
    ensures
        arena[e].box_model.spec_border_box().spec_overlaps(vp) && arena[
            e
        ].box_model.spec_border_box().width > 0 && arena[e].box_model.spec_border_box().height > 0
            && vp.width > 0 && vp.height > 0 ==> exists|k: int|
            0 <= k < tl.tiles@.len() && (#[trigger] tl.tiles@[k]).elements@.contains(e as usize),
        !arena[e].box_model.spec_border_box().spec_overlaps(vp) ==> forall|k: int|
            0 <= k < tl.tiles@.len() ==> !(#[trigger] tl.tiles@[k]).elements@.contains(e as usize),
{
    let root = arena.len() - 1;
    let bb = arena[e].box_model.spec_border_box();
    let po = spec_preorder(arena, root);
    lemma_preorder_covers(arena, node, layouts, 0, 0, 0, root);
    assert(po.contains(e as usize));
    let pq = choose|pq: int| 0 <= pq < po.len() && po[pq] == e as usize;

    if bb.spec_overlaps(vp) && bb.width > 0 && bb.height > 0 && vp.width > 0 && vp.height > 0 {
        crate::geom::lemma_overlaps_iff_common_point(bb, vp);
        let (px, py) = choose|px: int, py: int|
            bb.spec_contains_point(px, py) && vp.spec_contains_point(px, py);
        lemma_point_tile(vp, ts as int, px, py);
        let i = (px - vp.x) / (ts as int);
        let j = (py - vp.y) / (ts as int);
        let k = j * spec_nx(vp, ts as int) + i;
        let trect = spec_tile_rect(vp, ts as int, k);
        assert(bb.spec_overlaps(trect));
        let pred = spec_tile_pred(arena, trect);
        assert(pred(po[pq]));
        po.lemma_filter_contains(pred, pq);
        assert(tl.tiles@[k].elements@.contains(e as usize));
    }
    if !bb.spec_overlaps(vp) {
        assert forall|k: int| 0 <= k < tl.tiles@.len() implies !(
        #[trigger] tl.tiles@[k]).elements@.contains(e as usize) by {
            let trect = spec_tile_rect(vp, ts as int, k);
            let pred = spec_tile_pred(arena, trect);
            lemma_grid_cell_bounds(vp, ts as int, k);
            if tl.tiles@[k].elements@.contains(e as usize) {
                let fq = choose|fq: int|
                    0 <= fq < po.filter(pred).len() && po.filter(pred)[fq] == e as usize;
                po.lemma_filter_pred(pred, fq);
                assert(pred(e as usize));
                crate::geom::lemma_overlap_in_larger(bb, trect, vp);
                assert(false);
            }
        }
    }
}

/// `d` lies in the subtree of the element at arena index `a`: it is `a`
/// itself or lies in the subtree of one of `a`'s children.
pub open spec fn in_subtree(arena: Seq<LayoutElementNode>, a: int, d: int) -> bool
    decreases a, arena[a].children@.len() + 1,
{
    a == d || in_subtree_children(arena, a, 0, d)
}

/// `d` lies in the subtree of one of the children of `a` from child
/// position `j` on.
pub open spec fn in_subtree_children(arena: Seq<LayoutElementNode>, a: int, j: int, d: int) -> bool
    decreases a, arena[a].children@.len() - j,
{
    if j < 0 || j >= arena[a].children@.len() {
        false
    } else {
        let c = arena[a].children@[j] as int;
        (0 <= c < a && in_subtree(arena, c, d)) || in_subtree_children(arena, a, j + 1, d)
    }
}

/// Descendants carry smaller arena indices than their ancestors.
pub proof fn lemma_in_subtree_le(arena: Seq<LayoutElementNode>, a: int, d: int)
    requires
        in_subtree(arena, a, d),
        0 <= a,
    ensures
        0 <= d <= a,
    decreases a, arena[a].children@.len() + 1,
{
    if a == d {
    } else {
        lemma_in_subtree_children_le(arena, a, 0, d);
    }
}

proof fn lemma_in_subtree_children_le(arena: Seq<LayoutElementNode>, a: int, j: int, d: int)
    requires
        in_subtree_children(arena, a, j, d),
        0 <= a,
    ensures
        0 <= d < a,
    decreases a, arena[a].children@.len() - j,
{
    let c = arena[a].children@[j] as int;
    if 0 <= c < a && in_subtree(arena, c, d) {
        lemma_in_subtree_le(arena, c, d);
    } else {
        lemma_in_subtree_children_le(arena, a, j + 1, d);
    }
}

/// The subtree relation is transitive.
pub proof fn lemma_in_subtree_trans(arena: Seq<LayoutElementNode>, a: int, b: int, c: int)
    requires
        in_subtree(arena, a, b),
        in_subtree(arena, b, c),
    ensures
        in_subtree(arena, a, c),
    decreases a, arena[a].children@.len() + 1,
{
    if a == b {
    } else {
        lemma_in_subtree_children_trans(arena, a, 0, b, c);
    }
}

proof fn lemma_in_subtree_children_trans(
    arena: Seq<LayoutElementNode>,
    a: int,
    j: int,
    b: int,
    c: int,
)
    requires
        in_subtree_children(arena, a, j, b),
        in_subtree(arena, b, c),
    ensures
        in_subtree_children(arena, a, j, c),
    decreases a, arena[a].children@.len() - j,
{
    let ch = arena[a].children@[j] as int;
    if 0 <= ch < a && in_subtree(arena, ch, b) {
        lemma_in_subtree_trans(arena, ch, b, c);
    } else {
        lemma_in_subtree_children_trans(arena, a, j + 1, b, c);
    }
}

/// Everything the paint-order walk of `r` visits lies in the subtree
/// of `r`.
pub proof fn lemma_preorder_in_subtree(arena: Seq<LayoutElementNode>, r: int)
    requires
        0 <= r < arena.len(),
        r <= usize::MAX,
    ensures
        forall|q: int|
            0 <= q < spec_preorder(arena, r).len() ==> in_subtree(
                arena,
                r,
                #[trigger] spec_preorder(arena, r)[q] as int,
            ),
    decreases r, arena[r].children@.len() + 1,
{
    lemma_preorder_children_in_subtree(arena, r, 0);
    let po = spec_preorder(arena, r);
    let kids = spec_preorder_children(arena, r, 0);
    assert forall|q: int| 0 <= q < po.len() implies in_subtree(
        arena,
        r,
        #[trigger] po[q] as int,
    ) by {
        if q == 0 {
            assert(po[0] == r as usize);
        } else {
            assert(po[q] == kids[q - 1]);
            assert(in_subtree_children(arena, r, 0, kids[q - 1] as int));
            assert(in_subtree_children(arena, r, 0, po[q] as int));
        }
    }
}

proof fn lemma_preorder_children_in_subtree(arena: Seq<LayoutElementNode>, r: int, j: int)
    requires
        0 <= r < arena.len(),
    ensures
        forall|q: int|
            0 <= q < spec_preorder_children(arena, r, j).len() ==> in_subtree_children(
                arena,
                r,
                j,
                #[trigger] spec_preorder_children(arena, r, j)[q] as int,
            ),
    decreases r, arena[r].children@.len() - j,
{
    if j < 0 || j >= arena[r].children@.len() {
    } else {
        let c = arena[r].children@[j] as int;
        let whole = spec_preorder_children(arena, r, j);
        let rest = spec_preorder_children(arena, r, j + 1);
        lemma_preorder_children_in_subtree(arena, r, j + 1);
        if 0 <= c < r {
            lemma_preorder_in_subtree(arena, c);
            let head = spec_preorder(arena, c);
            assert forall|q: int| 0 <= q < whole.len() implies in_subtree_children(
                arena,
                r,
                j,
                #[trigger] whole[q] as int,
            ) by {
                if q < head.len() {
                    assert(whole[q] == head[q]);
                    assert(in_subtree(arena, c, head[q] as int));
                } else {
                    assert(whole[q] == rest[q - head.len()]);
                }
            }
        } else {
            assert forall|q: int| 0 <= q < whole.len() implies in_subtree_children(
                arena,
                r,
                j,
                #[trigger] whole[q] as int,
            ) by {
                assert(whole[q] == rest[q]);
            }
        }
    }
}

/// The subtree of a built node stays within its arena segment.
pub proof fn lemma_subtree_within(
    arena: Seq<LayoutElementNode>,
    node: RenderNode,
    layouts: Map<u64, NodeLayout>,
    ox: int,
    oy: int,
    base: int,
    r: int,
    d: int,
)
    requires
        built_ok(arena, node, layouts, ox, oy, base, r),
        in_subtree(arena, r, d),
    ensures
        base <= d <= r,
    decreases node, node.children@.len() + 1,
{
    if d == r {
    } else {
        let cox = ox + layouts[node.id].location_x + layouts[node.id].margin.left;
        let coy = oy + layouts[node.id].location_y + layouts[node.id].margin.top;
        lemma_subtree_children_within(
            arena,
            node,
            0,
            layouts,
            cox,
            coy,
            base,
            r,
            arena[r].children@,
            0,
            r,
            d,
        );
    }
}

proof fn lemma_subtree_children_within(
    arena: Seq<LayoutElementNode>,
    node: RenderNode,
    ci: int,
    layouts: Map<u64, NodeLayout>,
    ox: int,
    oy: int,
    lo: int,
    hi: int,
    ids: Seq<usize>,
    ii: int,
    p: int,
    d: int,
)
    requires
        built_children_ok(arena, node, ci, layouts, ox, oy, lo, hi, ids, ii),
        ids == arena[p].children@,
        hi <= p,
        0 <= ii,
        in_subtree_children(arena, p, ii, d),
    ensures
        lo <= d < hi,
    decreases node, node.children@.len() - ci,
{
    if ci < 0 || ci >= node.children@.len() {
        assert(ii >= ids.len());
        assert(!in_subtree_children(arena, p, ii, d));
    } else {
        let child = node.children@[ci];
        if layouts.contains_key(child.id) {
            let c = ids[ii] as int;
            if 0 <= c < p && in_subtree(arena, c, d) {
                lemma_subtree_within(arena, child, layouts, ox, oy, lo, c, d);
            } else {
                lemma_subtree_children_within(
                    arena,
                    node,
                    ci + 1,
                    layouts,
                    ox,
                    oy,
                    c + 1,
                    hi,
                    ids,
                    ii + 1,
                    p,
                    d,
                );
            }
        } else {
            lemma_subtree_children_within(
                arena,
                node,
                ci + 1,
                layouts,
                ox,
                oy,
                lo,
                hi,
                ids,
                ii,
                p,
                d,
            );
        }
    }
}

/// Every element the children's walk visits is anchored at some child
/// root built over a sub-segment of `[lo, hi)`.
pub open spec fn subtree_anchor(
    arena: Seq<LayoutElementNode>,
    layouts: Map<u64, NodeLayout>,
    ox: int,
    oy: int,
    lo: int,
    hi: int,
    x: usize,
) -> bool {
    exists|cs: int, nd: RenderNode, b: int|
        lo <= b && #[trigger] built_ok(arena, nd, layouts, ox, oy, b, cs) && cs < hi && in_subtree(
            arena,
            cs,
            x as int,
        )
}

/// In the paint order of a built subtree an ancestor always precedes its
/// strict descendants: no element is preceded by an element of its own
/// subtree. Together with the tiling contract — each tile's element list
/// is the paint order filtered by overlap — this makes every tile's list
/// a valid pre-order linearization of the layout tree restricted to that
/// tile: ancestors before descendants, siblings in source order.
pub proof fn lemma_paint_order_ancestors_first(
    arena: Seq<LayoutElementNode>,
    node: RenderNode,
    layouts: Map<u64, NodeLayout>,
    ox: int,
    oy: int,
    base: int,
    r: int,
)
    requires
        arena_wf(arena),
        built_ok(arena, node, layouts, ox, oy, base, r),
    ensures
        forall|p: int, q: int|
            0 <= p < q < spec_preorder(arena, r).len() ==> !in_subtree(
                arena,
                #[trigger] spec_preorder(arena, r)[q] as int,
                #[trigger] spec_preorder(arena, r)[p] as int,
            ),
    decreases node, node.children@.len() + 1,
{
    let cox = ox + layouts[node.id].location_x + layouts[node.id].margin.left;
    let coy = oy + layouts[node.id].location_y + layouts[node.id].margin.top;
    lemma_children_order(arena, node, 0, layouts, cox, coy, base, r, arena[r].children@, 0, r);
    lemma_preorder_children_bounded(arena, r, 0);
    let po = spec_preorder(arena, r);
    let cat = spec_preorder_children(arena, r, 0);
    assert forall|p: int, q: int| 0 <= p < q < po.len() implies !in_subtree(
        arena,
        #[trigger] po[q] as int,
        #[trigger] po[p] as int,
    ) by {
        assert(po[q] == cat[q - 1]);
        if p == 0 {
            assert(po[0] == r as usize);
            assert((cat[q - 1] as int) < r);
            if in_subtree(arena, po[q] as int, r) {
                lemma_in_subtree_le(arena, po[q] as int, r);
                assert(false);
            }
        } else {
            assert(po[p] == cat[p - 1]);
        }
    }
}

proof fn lemma_children_order(
    arena: Seq<LayoutElementNode>,
    node: RenderNode,
    ci: int,
    layouts: Map<u64, NodeLayout>,
    ox: int,
    oy: int,
    lo: int,
    hi: int,
    ids: Seq<usize>,
    ii: int,
    pr: int,
)
    requires
        arena_wf(arena),
        built_children_ok(arena, node, ci, layouts, ox, oy, lo, hi, ids, ii),
        ids == arena[pr].children@,
        0 <= lo,
        hi <= pr,
        pr < arena.len(),
        0 <= ii,
    ensures
        forall|p: int, q: int|
            0 <= p < q < spec_preorder_children(arena, pr, ii).len() ==> !in_subtree(
                arena,
                #[trigger] spec_preorder_children(arena, pr, ii)[q] as int,
                #[trigger] spec_preorder_children(arena, pr, ii)[p] as int,
            ),
        forall|q: int|
            0 <= q < spec_preorder_children(arena, pr, ii).len() ==> subtree_anchor(
                arena,
                layouts,
                ox,
                oy,
                lo,
                hi,
                #[trigger] spec_preorder_children(arena, pr, ii)[q],
            ),
    decreases node, node.children@.len() - ci,
{
    if ci < 0 || ci >= node.children@.len() {
        assert(ii >= ids.len());
        assert(spec_preorder_children(arena, pr, ii).len() == 0);
    } else {
        let child = node.children@[ci];
        if layouts.contains_key(child.id) {
            let c = ids[ii] as int;
            assert(built_ok(arena, child, layouts, ox, oy, lo, c));
            lemma_paint_order_ancestors_first(arena, child, layouts, ox, oy, lo, c);
            lemma_children_order(
                arena,
                node,
                ci + 1,
                layouts,
                ox,
                oy,
                c + 1,
                hi,
                ids,
                ii + 1,
                pr,
            );
            lemma_preorder_in_subtree(arena, c);
            lemma_preorder_bounded(arena, c);
            let cat = spec_preorder_children(arena, pr, ii);
            let head = spec_preorder(arena, c);
            let tail = spec_preorder_children(arena, pr, ii + 1);
            assert(0 <= c < pr);
            assert(cat == head + tail);
            assert forall|q: int| 0 <= q < cat.len() implies subtree_anchor(
                arena,
                layouts,
                ox,
                oy,
                lo,
                hi,
                #[trigger] cat[q],
            ) by {
                if q < head.len() {
                    assert(cat[q] == head[q]);
                    assert(in_subtree(arena, c, head[q] as int));
                    assert(lo <= lo && built_ok(arena, child, layouts, ox, oy, lo, c) && c < hi
                        && in_subtree(arena, c, cat[q] as int));
                } else {
                    assert(cat[q] == tail[q - head.len()]);
                    assert(subtree_anchor(arena, layouts, ox, oy, c + 1, hi, tail[q - head.len()]));
                    let (cs, nd, b) = choose|cs: int, nd: RenderNode, b: int|
                        c + 1 <= b && #[trigger] built_ok(arena, nd, layouts, ox, oy, b, cs) && cs
                            < hi && in_subtree(arena, cs, tail[q - head.len()] as int);
                    assert(lo <= b && built_ok(arena, nd, layouts, ox, oy, b, cs) && cs < hi
                        && in_subtree(arena, cs, cat[q] as int));
                }
            }
            assert forall|p: int, q: int| 0 <= p < q < cat.len() implies !in_subtree(
                arena,
                #[trigger] cat[q] as int,
                #[trigger] cat[p] as int,
            ) by {
                if q < head.len() {
                    assert(cat[p] == head[p] && cat[q] == head[q]);
                } else if p >= head.len() {
                    assert(cat[p] == tail[p - head.len()] && cat[q] == tail[q - head.len()]);
                } else {
                    assert(cat[p] == head[p]);
                    assert(cat[q] == tail[q - head.len()]);
                    assert((head[p] as int) <= c);
                    assert(subtree_anchor(arena, layouts, ox, oy, c + 1, hi, tail[q - head.len()]));
                    let (cs, nd, b) = choose|cs: int, nd: RenderNode, b: int|
                        c + 1 <= b && #[trigger] built_ok(arena, nd, layouts, ox, oy, b, cs) && cs
                            < hi && in_subtree(arena, cs, tail[q - head.len()] as int);
                    if in_subtree(arena, cat[q] as int, cat[p] as int) {
                        lemma_in_subtree_trans(arena, cs, cat[q] as int, cat[p] as int);
                        lemma_subtree_within(
                            arena,
                            nd,
                            layouts,
                            ox,
                            oy,
                            b,
                            cs,
                            cat[p] as int,
                        );
                        assert(false);
                    }
                }
            }
        } else {
            lemma_children_order(arena, node, ci + 1, layouts, ox, oy, lo, hi, ids, ii, pr);
        }
    }
}

/// Every element of a filtered sequence occurs in the unfiltered one.
proof fn lemma_filter_members(s: Seq<usize>, pred: spec_fn(usize) -> bool)
    ensures
        forall|i: int|
            0 <= i < s.filter(pred).len() ==> exists|j: int|
                0 <= j < s.len() && s[j] == #[trigger] s.filter(pred)[i],
    decreases s.len(),
{
    reveal(Seq::filter);
    if s.len() == 0 {
    } else {
        lemma_filter_members(s.drop_last(), pred);
        let sub = s.drop_last().filter(pred);
        let out = s.filter(pred);
        assert forall|i: int| 0 <= i < out.len() implies exists|j: int|
            0 <= j < s.len() && s[j] == #[trigger] out[i] by {
            if pred(s.last()) && i == out.len() - 1 {
                assert(s[s.len() - 1] == out[i]);
            } else {
                assert(out[i] == sub[i]);
                let j = choose|j: int|
                    0 <= j < s.drop_last().len() && s.drop_last()[j] == sub[i];
                assert(s[j] == out[i]);
            }
        }
    }
}

/// Filtering preserves the ancestors-first property: if no element of
/// `s` is preceded by one of its descendants, the same holds of any
/// filtered subsequence of `s`.
proof fn lemma_filter_keeps_order(
    arena: Seq<LayoutElementNode>,
    s: Seq<usize>,
    pred: spec_fn(usize) -> bool,
)
    requires
        forall|p: int, q: int|
            0 <= p < q < s.len() ==> !in_subtree(arena, #[trigger] s[q] as int, #[trigger] s[p] as int),
    ensures
        forall|p: int, q: int|
            0 <= p < q < s.filter(pred).len() ==> !in_subtree(
                arena,
                #[trigger] s.filter(pred)[q] as int,
                #[trigger] s.filter(pred)[p] as int,
            ),
    decreases s.len(),
{
    reveal(Seq::filter);
    if s.len() == 0 {
    } else {
        let d = s.drop_last();
        assert forall|p: int, q: int| 0 <= p < q < d.len() implies !in_subtree(
            arena,
            #[trigger] d[q] as int,
            #[trigger] d[p] as int,
        ) by {
            assert(d[p] == s[p] && d[q] == s[q]);
        }
        lemma_filter_keeps_order(arena, d, pred);
        lemma_filter_members(d, pred);
        let sub = d.filter(pred);
        let out = s.filter(pred);
        assert forall|p: int, q: int| 0 <= p < q < out.len() implies !in_subtree(
            arena,
            #[trigger] out[q] as int,
            #[trigger] out[p] as int,
        ) by {
            if pred(s.last()) && q == out.len() - 1 {
                assert(out[q] == s.last());
                assert(out[p] == sub[p]);
                let j = choose|j: int| 0 <= j < d.len() && d[j] == sub[p];
                assert(s[j] == out[p] && j < s.len() - 1);
                assert(!in_subtree(arena, s[s.len() - 1] as int, s[j] as int));
            } else {
                assert(out[p] == sub[p] && out[q] == sub[q]);
            }
        }
    }
}

/// Paint order within a tile: each tile's element list — the paint order
/// of the built tree restricted to the elements overlapping the tile —
/// never lists an element after one of its own descendants. Ancestors
/// paint first; siblings keep their source order because filtering keeps
/// the order of the walk.
pub proof fn lemma_tile_paint_order(
    tl: TileList,
    arena: Seq<LayoutElementNode>,
    node: RenderNode,
    layouts: Map<u64, NodeLayout>,
    vp: Rect,
    ts: i64,
    k: int,
)
    requires
        tiling_ok(tl, arena, arena.len() - 1, vp, ts),
        arena_wf(arena),
        built_ok(arena, node, layouts, 0, 0, 0, arena.len() - 1),
        0 <= k < tl.tiles@.len(),
    ensures
        forall|p: int, q: int|
            0 <= p < q < tl.tiles@[k].elements@.len() ==> !in_subtree(
                arena,
                #[trigger] tl.tiles@[k].elements@[q] as int,
                #[trigger] tl.tiles@[k].elements@[p] as int,
            ),
{
    let root = arena.len() - 1;
    let po = spec_preorder(arena, root);
    let pred = spec_tile_pred(arena, spec_tile_rect(vp, ts as int, k));
    lemma_paint_order_ancestors_first(arena, node, layouts, 0, 0, 0, root);
    lemma_filter_keeps_order(arena, po, pred);
    assert(tl.tiles@[k].elements@ == po.filter(pred));
}

} // verus!
