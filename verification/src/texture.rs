//! Texture registration: the scene references textures by small opaque
//! identifiers, assigned in registration order starting at zero.  Turning the
//! registered bytes into GPU resources is the rendering back end's business.

use vstd::prelude::*;
use std::collections::HashMap;

verus! {

broadcast use vstd::std_specs::hash::group_hash_axioms;

pub type TextureId = u16;

/// The raw encoded bytes of one registered texture.
pub struct TextureInfo<'a> {
    pub data: &'a [u8],
}

/// The mathematical value of the registry: the registered bytes by
/// identifier, and the next identifier to hand out.
pub struct TextureInfoView {
    pub infos: Map<TextureId, Seq<u8>>,
    pub next_id: TextureId,
}

/// Registry of texture data: maps each handed-out identifier to the encoded
/// image bytes supplied at registration.
pub struct TextureInfoManager<'a> {
    last_id: TextureId,
    texture_infos: HashMap<TextureId, TextureInfo<'a>>,
}

/// The registered bytes, viewed entry by entry.
pub open spec fn info_map_view<'a>(m: Map<TextureId, TextureInfo<'a>>) -> Map<TextureId, Seq<u8>> {
    Map::new(|id: TextureId| m.dom().contains(id), |id: TextureId| m[id].data@)
}

impl<'a> View for TextureInfoManager<'a> {
    type V = TextureInfoView;

    closed spec fn view(&self) -> TextureInfoView {
        TextureInfoView { infos: info_map_view(self.texture_infos@), next_id: self.last_id }
    }
}

impl<'a> Default for TextureInfoManager<'a> {
    fn default() -> (m: TextureInfoManager<'a>)
        ensures
            m@.infos == Map::<TextureId, Seq<u8>>::empty(),
            m@.next_id == 0,
    {
        TextureInfoManager { last_id: 0, texture_infos: HashMap::new() }
    }
}

impl<'a> TextureInfoManager<'a> {
    /// Registers encoded image bytes and returns the fresh identifier that
    /// texture nodes may reference from now on.
    pub fn add_texture_info(&mut self, data: &'a [u8]) -> (id: TextureId)
        requires
            old(self)@.next_id < TextureId::MAX,
        ensures
            id == old(self)@.next_id,
            final(self)@.next_id == id + 1,
            final(self)@.infos == old(self)@.infos.insert(id, data@),
    {
        let id = self.last_id;
        let texture_info = TextureInfo { data };
        self.last_id = self.last_id + 1;
        self.texture_infos.insert(id, texture_info);
        proof {
            assert(info_map_view(self.texture_infos@) =~= info_map_view(
                old(self).texture_infos@,
            ).insert(id, data@));
        }
        id
    }

    /// The bytes registered under an identifier, if any.
    pub fn get(&self, id: TextureId) -> (r: Option<&'a [u8]>)
        ensures
            match r {
                Some(data) => self@.infos.contains_key(id) && data@ == self@.infos[id],
                None => !self@.infos.contains_key(id),
            },
    {
        match self.texture_infos.get(&id) {
            Some(info) => Some(info.data),
            None => None,
        }
    }
}

} // verus!
