use rendercore::browser_state::init_browser_state;
use rendercore::geom::{Rect, PX};
use rendercore::painter::ColorBrush;
use rendercore::style::{
    derive_style, derive_text_style, get_style, has_margin, Dimension, LengthPercentage,
    LengthPercentageAuto, StyleEdgesAuto, StyleProp, StyleValue, Unit,
};
use rendercore::texture_store::{TextureId, TextureStore};

#[test]
fn store_get_after_add_returns_same_texture() {
    let mut store = TextureStore::new();
    let id = store.add(4, 2, vec![9, 8, 7]);
    assert!(store.has(id));
    let t = store.get(id).unwrap();
    assert_eq!(t.id, id);
    assert_eq!((t.width, t.height), (4, 2));
    assert_eq!(t.data, vec![9, 8, 7]);
}

#[test]
fn store_ids_are_monotonic_and_never_reused() {
    let mut store = TextureStore::new();
    let a = store.add(1, 1, vec![0]);
    let b = store.add(1, 1, vec![1]);
    assert_ne!(a, b);
    store.remove(a);
    assert!(!store.has(a));
    assert!(store.get(a).is_none());
    let c = store.add(1, 1, vec![2]);
    // A released identifier is never assigned again.
    assert_ne!(c, a);
    assert_ne!(c, b);
    assert_eq!(a, TextureId(0));
    assert_eq!(b, TextureId(1));
    assert_eq!(c, TextureId(2));
}

#[test]
fn store_remove_leaves_other_textures_alone() {
    let mut store = TextureStore::new();
    let a = store.add(1, 1, vec![0]);
    let b = store.add(1, 1, vec![1]);
    store.remove(a);
    assert!(store.has(b));
    assert_eq!(store.get(b).unwrap().data, vec![1]);
}

#[test]
fn browser_state_starts_clean_and_mutates() {
    let viewport = Rect { x: 0, y: 0, width: 200 * PX, height: 200 * PX };
    let mut state = init_browser_state(viewport);
    assert_eq!(state.viewport, viewport);
    assert!(!state.wireframed);
    assert!(!state.debug_hover);
    assert!(!state.show_tilegrid);
    assert_eq!(state.current_hovered_element, None);
    assert_eq!(state.visible_layer_list, vec![true]);
    assert!(state.tile_list.tiles.is_empty());
    state.set_hovered_element(Some(3));
    assert_eq!(state.current_hovered_element, Some(3));
    state.set_hovered_element(None);
    assert_eq!(state.current_hovered_element, None);
}

#[test]
fn color_brush_default_is_opaque_black() {
    assert_eq!(ColorBrush::default(), ColorBrush::new(0, 0, 0, 255));
}

#[test]
fn style_lookup_finds_first_match() {
    let styles = vec![
        (StyleProp::Width, StyleValue::Unit(100 * PX, Unit::Px)),
        (StyleProp::Width, StyleValue::Unit(50 * PX, Unit::Px)),
    ];
    assert_eq!(get_style(&styles, StyleProp::Width), Some(StyleValue::Unit(100 * PX, Unit::Px)));
    assert_eq!(get_style(&styles, StyleProp::Height), None);
}

#[test]
fn derive_style_takes_pixel_and_percent_values() {
    let styles = vec![
        (StyleProp::Width, StyleValue::Unit(100 * PX, Unit::Px)),
        (StyleProp::Height, StyleValue::Unit(50, Unit::Percent)),
        (StyleProp::MarginTop, StyleValue::Unit(10 * PX, Unit::Px)),
        (StyleProp::PaddingLeft, StyleValue::Unit(5, Unit::Percent)),
        (StyleProp::BorderTopWidth, StyleValue::Unit(3 * PX, Unit::Px)),
    ];
    let s = derive_style(&styles);
    assert_eq!(s.width, Dimension::Length(100 * PX));
    assert_eq!(s.height, Dimension::Percent(50));
    assert_eq!(s.margin.top, LengthPercentageAuto::Length(10 * PX));
    assert_eq!(s.margin.bottom, LengthPercentageAuto::Length(0));
    assert_eq!(s.padding.left, LengthPercentage::Percent(5));
    assert_eq!(s.border.top, LengthPercentage::Length(3 * PX));
}

#[test]
fn derive_style_ignores_unrecognised_units() {
    // An em-valued width is ignored: the field keeps its default.
    let styles = vec![(StyleProp::Width, StyleValue::Unit(2, Unit::Em))];
    let s = derive_style(&styles);
    assert_eq!(s.width, Dimension::Auto);
    // A keyword value is ignored as well.
    let styles = vec![(StyleProp::MarginLeft, StyleValue::Keyword)];
    let s = derive_style(&styles);
    assert_eq!(s.margin.left, LengthPercentageAuto::Length(0));
}

#[test]
fn derive_style_defaults_when_nothing_is_set() {
    let s = derive_style(&Vec::new());
    assert_eq!(s.width, Dimension::Auto);
    assert_eq!(s.height, Dimension::Auto);
    assert_eq!(s.margin.top, LengthPercentageAuto::Length(0));
    assert_eq!(s.padding.right, LengthPercentage::Length(0));
    assert_eq!(s.border.bottom, LengthPercentage::Length(0));
}

#[test]
fn derive_text_style_fixes_the_measured_height() {
    let s = derive_text_style(36 * PX);
    assert_eq!(s.height, Dimension::Length(36 * PX));
    assert_eq!(s.width, Dimension::Auto);
}

#[test]
fn has_margin_detects_any_nonzero_edge() {
    let zero = StyleEdgesAuto {
        top: LengthPercentageAuto::Length(0),
        right: LengthPercentageAuto::Percent(0),
        bottom: LengthPercentageAuto::Length(0),
        left: LengthPercentageAuto::Length(0),
    };
    assert!(!has_margin(&zero));
    let with_margin = StyleEdgesAuto { top: LengthPercentageAuto::Length(10 * PX), ..zero };
    assert!(has_margin(&with_margin));
    let auto_margin = StyleEdgesAuto { left: LengthPercentageAuto::Auto, ..zero };
    assert!(has_margin(&auto_margin));
}
