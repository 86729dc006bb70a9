use std::collections::HashMap;

use rendercore::geom::{Edges, Rect, PX};
use rendercore::layout::{
    generate_tree, to_boxmodel, ElementData, NodeKind, NodeLayout, RenderNode, RenderTree,
    TextData,
};
use rendercore::painter::{Border, Brush, Color, PaintCommand, Painter, Rectangle};
use rendercore::texture_store::TextureStore;
use rendercore::tiler::tile;

fn px(n: i64) -> i64 {
    n * PX
}

fn plain_element(id: u64, children: Vec<RenderNode>) -> RenderNode {
    RenderNode {
        id,
        kind: NodeKind::Element(ElementData {
            styles: Vec::new(),
            background: None,
            border: Border::none(),
        }),
        children,
    }
}

fn layout(location: (i64, i64), size: (i64, i64), margin: i64) -> NodeLayout {
    NodeLayout {
        location_x: location.0,
        location_y: location.1,
        width: size.0,
        height: size.1,
        margin: Edges { top: margin, right: margin, bottom: margin, left: margin },
        border: Edges::zero(),
        padding: Edges::zero(),
    }
}

#[test]
fn single_element_with_margin_has_expected_boxes() {
    // One element, 100 by 100 pixels of content, margin 10 on all sides,
    // viewport 200 by 200: the margin box spans 120 pixels from the
    // origin, the other three boxes coincide at (10, 10).
    let root = plain_element(1, Vec::new());
    let mut layouts: HashMap<u64, NodeLayout> = HashMap::new();
    layouts.insert(1, layout((0, 0), (px(100), px(100)), px(10)));
    let tree = generate_tree(&RenderTree { root: Some(root) }, &layouts).unwrap();
    assert_eq!(tree.arena.len(), 1);
    let bm = &tree.arena[tree.root_id].box_model;
    assert_eq!(bm.margin_box(), Rect { x: 0, y: 0, width: px(120), height: px(120) });
    let expected = Rect { x: px(10), y: px(10), width: px(100), height: px(100) };
    assert_eq!(bm.border_box(), expected);
    assert_eq!(bm.padding_box(), expected);
    assert_eq!(bm.content_box(), expected);
}

#[test]
fn child_offsets_accumulate_through_parents() {
    let child = plain_element(2, Vec::new());
    let root = plain_element(1, vec![child]);
    let mut layouts: HashMap<u64, NodeLayout> = HashMap::new();
    layouts.insert(1, layout((px(5), px(7)), (px(100), px(100)), px(10)));
    layouts.insert(2, layout((px(3), px(4)), (px(20), px(20)), 0));
    let tree = generate_tree(&RenderTree { root: Some(root) }, &layouts).unwrap();
    assert_eq!(tree.arena.len(), 2);
    let root_el = &tree.arena[tree.root_id];
    // Parent margin box at offset + location.
    assert_eq!(root_el.box_model.margin_box().x, px(5));
    assert_eq!(root_el.box_model.margin_box().y, px(7));
    // Child offset = parent offset + parent location + parent left/top margin.
    let child_el = &tree.arena[root_el.children[0]];
    assert_eq!(child_el.box_model.margin_box().x, px(5) + px(10) + px(3));
    assert_eq!(child_el.box_model.margin_box().y, px(7) + px(10) + px(4));
}

#[test]
fn node_without_solver_geometry_is_dropped_with_its_subtree() {
    let grandchild = plain_element(4, Vec::new());
    let dropped = plain_element(3, vec![grandchild]);
    let kept = plain_element(2, Vec::new());
    let root = plain_element(1, vec![dropped, kept]);
    let mut layouts: HashMap<u64, NodeLayout> = HashMap::new();
    layouts.insert(1, layout((0, 0), (px(100), px(100)), 0));
    // No geometry for node 3: it and node 4 are omitted.
    layouts.insert(4, layout((0, 0), (px(10), px(10)), 0));
    layouts.insert(2, layout((0, 0), (px(10), px(10)), 0));
    let tree = generate_tree(&RenderTree { root: Some(root) }, &layouts).unwrap();
    assert_eq!(tree.arena.len(), 2);
    let root_el = &tree.arena[tree.root_id];
    assert_eq!(root_el.children.len(), 1);
    assert_eq!(tree.arena[root_el.children[0]].source_node_id, 2);
}

#[test]
fn zero_sized_element_is_retained() {
    // A zero box model is valid, not an error: the node stays in the tree.
    let child = plain_element(2, Vec::new());
    let root = plain_element(1, vec![child]);
    let mut layouts: HashMap<u64, NodeLayout> = HashMap::new();
    layouts.insert(1, layout((0, 0), (px(100), px(100)), 0));
    layouts.insert(2, layout((0, 0), (0, 0), 0));
    let tree = generate_tree(&RenderTree { root: Some(root) }, &layouts).unwrap();
    assert_eq!(tree.arena.len(), 2);
    let root_el = &tree.arena[tree.root_id];
    let child_el = &tree.arena[root_el.children[0]];
    assert_eq!(child_el.box_model.margin_box(), Rect { x: 0, y: 0, width: 0, height: 0 });
}

#[test]
fn missing_root_geometry_is_fatal() {
    let root = plain_element(1, Vec::new());
    let layouts: HashMap<u64, NodeLayout> = HashMap::new();
    assert!(generate_tree(&RenderTree { root: Some(root) }, &layouts).is_none());
    assert!(generate_tree(&RenderTree { root: None }, &layouts).is_none());
}

#[test]
fn to_boxmodel_adds_margins_to_reported_size() {
    let nl = NodeLayout {
        location_x: px(2),
        location_y: px(3),
        width: px(50),
        height: px(40),
        margin: Edges { top: px(1), right: px(2), bottom: px(3), left: px(4) },
        border: Edges::zero(),
        padding: Edges::zero(),
    };
    let bm = to_boxmodel(&nl, px(10), px(20));
    assert_eq!(bm.margin_box(), Rect {
        x: px(12),
        y: px(23),
        width: px(50) + px(6),
        height: px(40) + px(4),
    });
}

#[test]
fn element_spanning_two_tiles_appears_in_both() {
    // Two tiles of 100 by 100 pixels cover a 200 by 100 viewport; one
    // element spanning x 50..150 must appear in both tiles' lists.
    let root = plain_element(1, Vec::new());
    let mut layouts: HashMap<u64, NodeLayout> = HashMap::new();
    layouts.insert(1, layout((px(50), 0), (px(100), px(100)), 0));
    let tree = generate_tree(&RenderTree { root: Some(root) }, &layouts).unwrap();
    let viewport = Rect { x: 0, y: 0, width: px(200), height: px(100) };
    let tl = tile(&tree, viewport, px(100));
    assert_eq!(tl.tiles.len(), 2);
    assert_eq!(tl.tiles[0].rect, Rect { x: 0, y: 0, width: px(100), height: px(100) });
    assert_eq!(tl.tiles[1].rect, Rect { x: px(100), y: 0, width: px(100), height: px(100) });
    assert_eq!(tl.tiles[0].elements, vec![tree.root_id]);
    assert_eq!(tl.tiles[1].elements, vec![tree.root_id]);
}

#[test]
fn element_outside_viewport_is_in_no_tile() {
    let root = plain_element(1, Vec::new());
    let mut layouts: HashMap<u64, NodeLayout> = HashMap::new();
    layouts.insert(1, layout((px(500), px(500)), (px(10), px(10)), 0));
    let tree = generate_tree(&RenderTree { root: Some(root) }, &layouts).unwrap();
    let viewport = Rect { x: 0, y: 0, width: px(200), height: px(200) };
    let tl = tile(&tree, viewport, px(100));
    assert_eq!(tl.tiles.len(), 4);
    for t in &tl.tiles {
        assert!(t.elements.is_empty());
    }
}

#[test]
fn boundary_tile_is_clipped_to_viewport() {
    let root = plain_element(1, Vec::new());
    let mut layouts: HashMap<u64, NodeLayout> = HashMap::new();
    layouts.insert(1, layout((0, 0), (px(10), px(10)), 0));
    let tree = generate_tree(&RenderTree { root: Some(root) }, &layouts).unwrap();
    // 150 by 100 viewport with 100-pixel tiles: the second column is 50 wide.
    let viewport = Rect { x: 0, y: 0, width: px(150), height: px(100) };
    let tl = tile(&tree, viewport, px(100));
    assert_eq!(tl.tiles.len(), 2);
    assert_eq!(tl.tiles[1].rect, Rect { x: px(100), y: 0, width: px(50), height: px(100) });
}

#[test]
fn paint_order_lists_ancestors_before_descendants() {
    let grandchild = plain_element(3, Vec::new());
    let child_a = plain_element(2, vec![grandchild]);
    let child_b = plain_element(4, Vec::new());
    let root = plain_element(1, vec![child_a, child_b]);
    let mut layouts: HashMap<u64, NodeLayout> = HashMap::new();
    for id in [1u64, 2, 3, 4] {
        layouts.insert(id, layout((0, 0), (px(50), px(50)), 0));
    }
    let tree = generate_tree(&RenderTree { root: Some(root) }, &layouts).unwrap();
    let viewport = Rect { x: 0, y: 0, width: px(100), height: px(100) };
    let tl = tile(&tree, viewport, px(100));
    assert_eq!(tl.tiles.len(), 1);
    let order: Vec<u64> =
        tl.tiles[0].elements.iter().map(|&e| tree.arena[e].source_node_id).collect();
    // Pre-order: root, first child, its child, then the second child.
    assert_eq!(order, vec![1, 2, 3, 4]);
}

#[test]
fn painter_emits_one_command_per_element_in_tile_local_coordinates() {
    let root = RenderNode {
        id: 1,
        kind: NodeKind::Element(ElementData {
            styles: Vec::new(),
            background: Some(Brush::Solid(Color::black())),
            border: Border::none(),
        }),
        children: Vec::new(),
    };
    let mut layouts: HashMap<u64, NodeLayout> = HashMap::new();
    layouts.insert(1, layout((px(120), px(30)), (px(40), px(40)), 0));
    let tree = generate_tree(&RenderTree { root: Some(root) }, &layouts).unwrap();
    let viewport = Rect { x: 0, y: 0, width: px(200), height: px(100) };
    let tl = tile(&tree, viewport, px(100));
    let store = TextureStore::new();
    // The element lies in the second tile only.
    assert!(tl.tiles[0].elements.is_empty());
    let commands = Painter::paint(&tl.tiles[1], &tree, &store);
    assert_eq!(commands.len(), 1);
    match &commands[0] {
        PaintCommand::Rectangle(Rectangle { rect, background, .. }) => {
            // Tile origin (100, 0) subtracted once.
            assert_eq!(*rect, Rect { x: px(20), y: px(30), width: px(40), height: px(40) });
            assert_eq!(*background, Some(Brush::Solid(Color::black())));
        }
        _ => panic!("expected a rectangle command"),
    }
}

#[test]
fn painter_resolves_textures_and_skips_missing_ones() {
    let mut store = TextureStore::new();
    let tid = store.add(2, 1, vec![1, 2, 3, 4, 5, 6, 7, 8]);
    let make_root = |brush| RenderNode {
        id: 1,
        kind: NodeKind::Element(ElementData {
            styles: Vec::new(),
            background: Some(brush),
            border: Border::none(),
        }),
        children: Vec::new(),
    };
    let mut layouts: HashMap<u64, NodeLayout> = HashMap::new();
    layouts.insert(1, layout((0, 0), (px(40), px(40)), 0));
    let viewport = Rect { x: 0, y: 0, width: px(100), height: px(100) };

    // A brush referencing a stored texture resolves to an image command.
    let tree = generate_tree(
        &RenderTree { root: Some(make_root(Brush::Texture(tid))) },
        &layouts,
    )
    .unwrap();
    let tl = tile(&tree, viewport, px(100));
    let commands = Painter::paint(&tl.tiles[0], &tree, &store);
    match &commands[0] {
        PaintCommand::Image { width, height, data, .. } => {
            assert_eq!((*width, *height), (2, 1));
            assert_eq!(data, &vec![1, 2, 3, 4, 5, 6, 7, 8]);
        }
        _ => panic!("expected an image command"),
    }

    // After removal the same element paints without its image content.
    store.remove(tid);
    let commands = Painter::paint(&tl.tiles[0], &tree, &store);
    match &commands[0] {
        PaintCommand::Rectangle(Rectangle { background, .. }) => {
            assert_eq!(*background, None);
        }
        _ => panic!("expected a rectangle command"),
    }
}

#[test]
fn painter_emits_text_runs_for_text_nodes() {
    let root = RenderNode {
        id: 1,
        kind: NodeKind::Text(TextData {
            content: String::from("hello"),
            layout_handle: 42,
            color: Color::black(),
        }),
        children: Vec::new(),
    };
    let mut layouts: HashMap<u64, NodeLayout> = HashMap::new();
    layouts.insert(1, layout((0, 0), (px(40), px(12)), 0));
    let tree = generate_tree(&RenderTree { root: Some(root) }, &layouts).unwrap();
    let viewport = Rect { x: 0, y: 0, width: px(100), height: px(100) };
    let tl = tile(&tree, viewport, px(100));
    let store = TextureStore::new();
    let commands = Painter::paint(&tl.tiles[0], &tree, &store);
    match &commands[0] {
        PaintCommand::TextRun { layout_handle, .. } => assert_eq!(*layout_handle, 42),
        _ => panic!("expected a text command"),
    }
}

#[test]
fn get_node_by_id_bounds() {
    let root = plain_element(1, Vec::new());
    let mut layouts: HashMap<u64, NodeLayout> = HashMap::new();
    layouts.insert(1, layout((0, 0), (px(10), px(10)), 0));
    let tree = generate_tree(&RenderTree { root: Some(root) }, &layouts).unwrap();
    assert!(tree.get_node_by_id(0).is_some());
    assert!(tree.get_node_by_id(1).is_none());
}
