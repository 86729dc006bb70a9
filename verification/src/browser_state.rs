//! The viewer state: which layers are visible, the debug toggles, the
//! current viewport and the tile list produced by the last tiling pass.
//! It is constructed once at startup and handed to whichever subsystems
//! need it; the caller layers a reader/writer lock on top of it.

use vstd::prelude::*;
use crate::geom::Rect;
use crate::tiler::TileList;

verus! {

/// Everything that can change in the viewer while a document is shown:
/// render-mode toggles controlled by the user, the element currently
/// hovered, the viewport, and the tile list being rendered.
#[derive(Debug)]
pub struct BrowserState {
    /// Layers set to true are visible.
    pub visible_layer_list: Vec<bool>,
    /// Draw wireframes instead of complete elements.
    pub wireframed: bool,
    /// Show only the hovered node, in wireframe.
    pub debug_hover: bool,
    /// Show the tile grid.
    pub show_tilegrid: bool,
    /// The element currently hovered upon, if any.
    pub current_hovered_element: Option<usize>,
    /// The tile list currently being rendered.
    pub tile_list: TileList,
    /// Current viewport offset plus size.
    pub viewport: Rect,
}

/// The initial viewer state for a viewport: every toggle off, nothing
/// hovered, one visible layer, and an empty tile list until the first
/// pipeline pass publishes one.
pub fn init_browser_state(viewport: Rect) -> (s: BrowserState)
    ensures
        s.visible_layer_list@ =~= seq![true],
        !s.wireframed,
        !s.debug_hover,
        !s.show_tilegrid,
        s.current_hovered_element is None,
        s.tile_list.tiles@.len() == 0,
        s.viewport == viewport,
{
    let mut layers: Vec<bool> = Vec::new();
    layers.push(true);
    BrowserState {
        visible_layer_list: layers,
        wireframed: false,
        debug_hover: false,
        show_tilegrid: false,
        current_hovered_element: None,
        tile_list: TileList::empty(),
        viewport,
    }
}

impl BrowserState {
    /// Record which element is hovered, or clear it.
    pub fn set_hovered_element(&mut self, element: Option<usize>)
        ensures
            final(self).current_hovered_element == element,
            final(self).visible_layer_list == old(self).visible_layer_list,
            final(self).wireframed == old(self).wireframed,
            final(self).debug_hover == old(self).debug_hover,
            final(self).show_tilegrid == old(self).show_tilegrid,
            final(self).tile_list == old(self).tile_list,
            final(self).viewport == old(self).viewport,
    {
        self.current_hovered_element = element;
    }

    /// Publish the tile list of a completed pipeline pass, replacing the
    /// previous generation atomically.
    pub fn publish_tile_list(&mut self, tile_list: TileList)
        ensures
            final(self).tile_list == tile_list,
            final(self).visible_layer_list == old(self).visible_layer_list,
            final(self).wireframed == old(self).wireframed,
            final(self).debug_hover == old(self).debug_hover,
            final(self).show_tilegrid == old(self).show_tilegrid,
            final(self).current_hovered_element == old(self).current_hovered_element,
            final(self).viewport == old(self).viewport,
    {
        self.tile_list = tile_list;
    }
}

} // verus!
