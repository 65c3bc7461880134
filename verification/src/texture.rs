//! The texture cache: decoded pixel buffers by identifier, kept from frame
//! to frame and changed only by texture deltas.

use std::collections::HashMap;
use vstd::prelude::*;

use crate::error::{RenderError, TextureId};
use crate::image::{
    data_to_pixmap, drawn_over, flattened, is_patched, lemma_patch_is_a_copy, sized, Image,
    ImageData, ImageModel,
};

verus! {

broadcast use vstd::std_specs::hash::group_hash_axioms;

/// One upload: the whole texture where `pos` is absent, a patch of an
/// existing texture at `pos` where it is present.
#[derive(Clone, Debug, PartialEq, Eq)]
pub struct TextureSet {
    pub id: TextureId,
    pub pos: Option<(u32, u32)>,
    pub image: ImageData,
}

/// The texture operations of one frame. Every upload is applied before any
/// texture is freed.
#[derive(Clone, Debug, PartialEq, Eq)]
pub struct TexturesDelta {
    pub set: Vec<TextureSet>,
    pub free: Vec<TextureId>,
}

/// The cache as a map from identifier to pixels.
pub type CacheModel = Map<TextureId, ImageModel>;

/// The buffer that an upload decodes to.
pub open spec fn decoded(data: ImageData) -> ImageModel {
    ImageModel { width: data.width, height: data.height, bytes: flattened(data.pixels@) }
}

/// The upload can be decoded: its sides are those of a texture and it has
/// one colour for each pixel.
pub open spec fn decodable(data: ImageData) -> bool {
    sized(data.width, data.height, 4 * data.pixels@.len() as int)
}

/// The error of an upload, if it has one: a patch of a texture that is not
/// there, else an image that cannot be sized.
pub open spec fn set_error(cache: CacheModel, set: TextureSet) -> Option<RenderError> {
    if set.pos is Some && !cache.contains_key(set.id) {
        Some(RenderError::MissingTexture(set.id))
    } else if !decodable(set.image) {
        Some(RenderError::Allocation { width: set.image.width, height: set.image.height })
    } else {
        None
    }
}

/// The cache after an upload. An upload in error leaves it as it was.
pub open spec fn after_set(cache: CacheModel, set: TextureSet) -> CacheModel {
    if set_error(cache, set) is Some {
        cache
    } else {
        match set.pos {
            None => cache.insert(set.id, decoded(set.image)),
            Some((x, y)) => cache.insert(
                set.id,
                drawn_over(cache[set.id], decoded(set.image), x, y),
            ),
        }
    }
}

/// The cache after a texture was freed.
pub open spec fn after_free(cache: CacheModel, id: TextureId) -> CacheModel {
    cache.remove(id)
}

/// The first error among `sets`, applied in order from `cache`.
pub open spec fn sets_error(cache: CacheModel, sets: Seq<TextureSet>) -> Option<RenderError>
    decreases sets.len(),
{
    if sets.len() == 0 {
        None
    } else if set_error(cache, sets[0]) is Some {
        set_error(cache, sets[0])
    } else {
        sets_error(after_set(cache, sets[0]), sets.drop_first())
    }
}

/// The cache after `sets` were applied in order, up to the first one in
/// error.
pub open spec fn after_sets(cache: CacheModel, sets: Seq<TextureSet>) -> CacheModel
    decreases sets.len(),
{
    if sets.len() == 0 || set_error(cache, sets[0]) is Some {
        cache
    } else {
        after_sets(after_set(cache, sets[0]), sets.drop_first())
    }
}

/// The cache after every texture of `ids` was freed.
pub open spec fn after_frees(cache: CacheModel, ids: Seq<TextureId>) -> CacheModel
    decreases ids.len(),
{
    if ids.len() == 0 {
        cache
    } else {
        after_frees(after_free(cache, ids[0]), ids.drop_first())
    }
}

/// The textures of the renderer. Managed and user textures are numbered
/// apart, so each kind has its own table.
pub struct TextureCache {
    managed: HashMap<u64, Image>,
    user: HashMap<u64, Image>,
}

impl View for TextureCache {
    type V = CacheModel;

    closed spec fn view(&self) -> CacheModel {
        Map::new(
            |id: TextureId|
                match id {
                    TextureId::Managed(k) => self.managed@.contains_key(k),
                    TextureId::User(k) => self.user@.contains_key(k),
                },
            |id: TextureId|
                match id {
                    TextureId::Managed(k) => self.managed@[k]@,
                    TextureId::User(k) => self.user@[k]@,
                },
        )
    }
}

impl TextureCache {
    /// Every buffer in the cache is a well-formed texture.
    pub closed spec fn wf(&self) -> bool {
        &&& forall|k: u64| self.managed@.contains_key(k) ==> (#[trigger] self.managed@[k]).wf()
        &&& forall|k: u64| self.user@.contains_key(k) ==> (#[trigger] self.user@[k]).wf()
    }

    /// An empty cache.
    pub fn new() -> (cache: TextureCache)
        ensures
            cache@ == CacheModel::empty(),
            cache.wf(),
    {
        let cache = TextureCache { managed: HashMap::new(), user: HashMap::new() };
        assert(cache@ =~= CacheModel::empty());
        cache
    }

    /// The buffer of `id`, if the cache has one.
    pub fn get(&self, id: TextureId) -> (out: Option<&Image>)
        requires
            self.wf(),
        ensures
            out is Some <==> self@.contains_key(id),
            out matches Some(image) ==> image@ == self@[id] && image.wf(),
    {
        match id {
            TextureId::Managed(k) => self.managed.get(&k),
            TextureId::User(k) => self.user.get(&k),
        }
    }

    /// Whether the cache has a buffer for `id`.
    pub fn contains(&self, id: TextureId) -> (out: bool)
        ensures
            out == self@.contains_key(id),
    {
        match id {
            TextureId::Managed(k) => self.managed.contains_key(&k),
            TextureId::User(k) => self.user.contains_key(&k),
        }
    }

    fn insert(&mut self, id: TextureId, image: Image)
        requires
            old(self).wf(),
            image.wf(),
        ensures
            final(self)@ == old(self)@.insert(id, image@),
            final(self).wf(),
    {
        match id {
            TextureId::Managed(k) => {
                self.managed.insert(k, image);
            },
            TextureId::User(k) => {
                self.user.insert(k, image);
            },
        }
        assert(self@ =~= old(self)@.insert(id, image@));
    }

    fn take(&mut self, id: TextureId) -> (out: Option<Image>)
        requires
            old(self).wf(),
        ensures
            final(self)@ == old(self)@.remove(id),
            final(self).wf(),
            out is Some <==> old(self)@.contains_key(id),
            out matches Some(image) ==> image@ == old(self)@[id] && image.wf(),
    {
        let out = match id {
            TextureId::Managed(k) => self.managed.remove(&k),
            TextureId::User(k) => self.user.remove(&k),
        };
        assert(self@ =~= old(self)@.remove(id));
        out
    }

    /// Applies one upload. Without an offset the decoded image becomes the
    /// texture of `set.id`, replacing what was there. With an offset the
    /// image is drawn into the texture in place; that fails where the
    /// cache has no such texture. An upload in error changes nothing.
    pub fn set(&mut self, set: &TextureSet) -> (out: Result<(), RenderError>)
        requires
            old(self).wf(),
        ensures
            final(self).wf(),
            final(self)@ == after_set(old(self)@, *set),
            out is Err <==> set_error(old(self)@, *set) is Some,
            out matches Err(e) ==> set_error(old(self)@, *set) == Some(e),
            out is Err ==> final(self)@ == old(self)@,
            out is Ok && set.pos is None ==> final(self)@ == old(self)@.insert(
                set.id,
                decoded(set.image),
            ),
            out is Ok ==> (set.pos matches Some((x, y)) ==> final(self)@.dom() == old(self)@.dom()
                && is_patched(
                old(self)@[set.id],
                final(self)@[set.id],
                decoded(set.image),
                x,
                y,
            )),
            forall|id: TextureId|
                id != set.id && old(self)@.contains_key(id) ==> final(self)@.contains_key(id)
                    && #[trigger] final(self)@[id] == old(self)@[id],
    {
        proof {
            match set.pos {
                Some((x, y)) => {
                    lemma_patch_is_a_copy(old(self)@[set.id], decoded(set.image), x, y);
                    if old(self)@.contains_key(set.id) {
                        assert(old(self)@.insert(
                            set.id,
                            drawn_over(old(self)@[set.id], decoded(set.image), x, y),
                        ).dom() =~= old(self)@.dom());
                    }
                },
                None => {},
            }
        }
        match set.pos {
            None => {
                match data_to_pixmap(&set.image) {
                    Ok(image) => {
                        self.insert(set.id, image);
                        Ok(())
                    },
                    Err(e) => Err(e),
                }
            },
            Some((x, y)) => {
                if !self.contains(set.id) {
                    return Err(RenderError::MissingTexture(set.id));
                }
                match data_to_pixmap(&set.image) {
                    Ok(patch) => {
                        match self.take(set.id) {
                            Some(mut texture) => {
                                texture.draw_over(&patch, x, y);
                                self.insert(set.id, texture);
                                assert(self@ =~= after_set(old(self)@, *set));
                            },
                            None => {},
                        }
                        Ok(())
                    },
                    Err(e) => Err(e),
                }
            },
        }
    }

    /// Removes and releases the texture of `id`. Freeing a texture that is
    /// not there does nothing.
    pub fn free(&mut self, id: TextureId)
        requires
            old(self).wf(),
        ensures
            final(self).wf(),
            final(self)@ == after_free(old(self)@, id),
    {
        let _ = self.take(id);
    }

    /// Applies the uploads of a frame in order and stops at the first one in
    /// error, which leaves the earlier ones applied.
    pub fn apply_sets(&mut self, sets: &Vec<TextureSet>) -> (out: Result<(), RenderError>)
        requires
            old(self).wf(),
        ensures
            final(self).wf(),
            final(self)@ == after_sets(old(self)@, sets@),
            out is Err <==> sets_error(old(self)@, sets@) is Some,
            out matches Err(e) ==> sets_error(old(self)@, sets@) == Some(e),
    {
        let mut i: usize = 0;
        assert(sets@.skip(0) =~= sets@);
        while i < sets.len()
            invariant
                i <= sets.len(),
                self.wf(),
                after_sets(self@, sets@.skip(i as int)) == after_sets(old(self)@, sets@),
                sets_error(self@, sets@.skip(i as int)) == sets_error(old(self)@, sets@),
            decreases sets.len() - i,
        {
            let ghost rest = sets@.skip(i as int);
            assert(rest[0] == sets@[i as int]);
            assert(rest.drop_first() =~= sets@.skip(i + 1));
            match self.set(&sets[i]) {
                Ok(()) => {},
                Err(e) => {
                    return Err(e);
                },
            }
            i += 1;
        }
        assert(sets@.skip(i as int).len() == 0);
        Ok(())
    }

    /// Frees the textures of `ids` in order.
    pub fn apply_frees(&mut self, ids: &Vec<TextureId>)
        requires
            old(self).wf(),
        ensures
            final(self).wf(),
            final(self)@ == after_frees(old(self)@, ids@),
    {
        let mut i: usize = 0;
        assert(ids@.skip(0) =~= ids@);
        while i < ids.len()
            invariant
                i <= ids.len(),
                self.wf(),
                after_frees(self@, ids@.skip(i as int)) == after_frees(old(self)@, ids@),
            decreases ids.len() - i,
        {
            let ghost rest = ids@.skip(i as int);
            assert(rest[0] == ids@[i as int]);
            assert(rest.drop_first() =~= ids@.skip(i + 1));
            self.free(ids[i]);
            i += 1;
        }
        assert(ids@.skip(i as int).len() == 0);
    }
}

/// Uploading a whole texture for `id` and freeing `id` right after leaves a
/// cache with no entry for `id`.
pub proof fn lemma_set_then_free(cache: CacheModel, set: TextureSet)
    requires
        set.pos is None,
    ensures
        !after_free(after_set(cache, set), set.id).contains_key(set.id),
        decodable(set.image) ==> set_error(cache, set) is None,
{
}

/// A patch for an identifier that the cache does not hold is an error, and
/// the cache stays as it was.
pub proof fn lemma_patch_of_missing_texture(cache: CacheModel, set: TextureSet)
    requires
        set.pos is Some,
        !cache.contains_key(set.id),
    ensures
        set_error(cache, set) == Some(RenderError::MissingTexture(set.id)),
        after_set(cache, set) == cache,
{
}

/// After textures were freed the cache holds exactly the textures that it
/// held and that were not among them, each as it was.
pub proof fn lemma_frees_remove(cache: CacheModel, ids: Seq<TextureId>, id: TextureId)
    ensures
        after_frees(cache, ids).contains_key(id) <==> cache.contains_key(id) && !ids.contains(id),
        after_frees(cache, ids).contains_key(id) ==> after_frees(cache, ids)[id] == cache[id],
    decreases ids.len(),
{
    if ids.len() > 0 {
        let head = ids[0];
        let tail = ids.drop_first();
        lemma_frees_remove(cache.remove(head), tail, id);
        if tail.contains(id) {
            let i = choose|i: int| 0 <= i < tail.len() && tail[i] == id;
            assert(ids[i + 1] == id);
        }
        if ids.contains(id) && id != head {
            let i = choose|i: int| 0 <= i < ids.len() && ids[i] == id;
            assert(tail[i - 1] == id);
        }
    }
}

/// A frame's single upload is applied as that upload alone.
pub proof fn lemma_single_set(cache: CacheModel, sets: Seq<TextureSet>)
    requires
        sets.len() == 1,
    ensures
        after_sets(cache, sets) == after_set(cache, sets[0]),
        sets_error(cache, sets) == set_error(cache, sets[0]),
{
    reveal_with_fuel(after_sets, 2);
    reveal_with_fuel(sets_error, 2);
}

} // verus!
