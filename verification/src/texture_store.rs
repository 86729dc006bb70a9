//! The store of cached binary assets (decoded images): stable identifiers,
//! shared lookups, identifier freshness across removals.

use vstd::prelude::*;
use std::collections::HashMap;

verus! {

broadcast use vstd::std_specs::hash::group_hash_axioms;

/// Stable identifier of a texture. Identifiers are assigned
/// monotonically and never reused within one store's lifetime.
#[derive(Clone, Copy, Debug, PartialEq, Eq, Structural, Hash)]
pub struct TextureId(pub u64);

/// A decoded pixel buffer with its dimensions.
#[derive(Clone, Debug)]
pub struct Texture {
    pub id: TextureId,
    pub width: usize,
    pub height: usize,
    pub data: Vec<u8>,
}

/// The texture store: owns all cached textures and hands out stable
/// identifiers. Concurrent sharing is layered on top of it by the caller.
pub struct TextureStore {
    textures: HashMap<u64, Texture>,
    next_id: u64,
}

impl TextureStore {
    /// The stored textures, keyed by identifier value.
    pub closed spec fn view(self) -> Map<u64, Texture> {
        self.textures@
    }

    /// The identifier the next added texture will receive.
    pub closed spec fn spec_next_id(self) -> u64 {
        self.next_id
    }

    /// Every identifier in the store was assigned before `next_id`; this
    /// is what keeps released identifiers from ever being reassigned.
    pub closed spec fn wf(self) -> bool {
        forall|k: u64| self.textures@.contains_key(k) ==> k < self.next_id
    }

    /// An empty store; the first texture gets identifier 0.
    pub fn new() -> (r: TextureStore)
        ensures
            r@ == Map::<u64, Texture>::empty(),
            r.spec_next_id() == 0,
            r.wf(),
    {
        TextureStore { textures: HashMap::new(), next_id: 0 }
    }

    /// Store a texture and return its freshly assigned identifier.
    pub fn add(&mut self, width: usize, height: usize, data: Vec<u8>) -> (id: TextureId)
        requires
            old(self).wf(),
            old(self).spec_next_id() < u64::MAX,
        ensures
            id.0 == old(self).spec_next_id(),
            final(self).spec_next_id() == old(self).spec_next_id() + 1,
            final(self).wf(),
            !old(self)@.contains_key(id.0),
            final(self)@.contains_key(id.0),
            final(self)@[id.0].id == id,
            final(self)@[id.0].width == width,
            final(self)@[id.0].height == height,
            final(self)@[id.0].data@ == data@,
            forall|k: u64| k != id.0 ==> final(self)@.contains_key(k) == old(
                self,
            )@.contains_key(k),
            forall|k: u64|
                k != id.0 && old(self)@.contains_key(k) ==> final(self)@[k] == old(self)@[k],
    {
        let id = self.next_id();
        let texture = Texture { id, width, height, data };
        self.textures.insert(id.0, texture);
        id
    }

    /// Whether a texture with this identifier is currently stored.
    pub fn has(&self, texture_id: TextureId) -> (r: bool)
        ensures
            r == self@.contains_key(texture_id.0),
    {
        self.textures.contains_key(&texture_id.0)
    }

    /// Look up a texture. A miss is a normal outcome; callers skip the
    /// content that referenced the texture.
    pub fn get(&self, texture_id: TextureId) -> (r: Option<&Texture>)
        ensures
            match r {
                Some(t) => self@.contains_key(texture_id.0) && *t == self@[texture_id.0],
                None => !self@.contains_key(texture_id.0),
            },
    {
        self.textures.get(&texture_id.0)
    }

    /// Remove a texture. Its identifier is never handed out again.
    pub fn remove(&mut self, texture_id: TextureId)
        ensures
            final(self)@ == old(self)@.remove(texture_id.0),
            final(self).spec_next_id() == old(self).spec_next_id(),
            old(self).wf() ==> final(self).wf(),
    {
        self.textures.remove(&texture_id.0);
    }

    /// Claim the next identifier.
    fn next_id(&mut self) -> (id: TextureId)
        requires
            old(self).spec_next_id() < u64::MAX,
        ensures
            id.0 == old(self).spec_next_id(),
            final(self).spec_next_id() == old(self).spec_next_id() + 1,
            final(self)@ == old(self)@,
    {
        let id = TextureId(self.next_id);
        self.next_id = self.next_id + 1;
        id
    }
}

/// Identifiers are never reused: whatever identifier `add` once returned
/// (necessarily below the store's current `next_id`, even if the texture
/// was removed since), the next `add` returns a different one.
pub proof fn lemma_ids_never_reused(store: TextureStore, past_id: TextureId)
    requires
        store.wf(),
        past_id.0 < store.spec_next_id(),
    ensures
        store.spec_next_id() != past_id.0,
{
}

} // verus!
