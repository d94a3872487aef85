//! The bookkeeping of the ui's textures from frame to frame: which texture
//! ids exist, what a texture change of the ui does to them, and the bytes a
//! colour image is uploaded as.

use vstd::prelude::*;

verus! {

/// The id the ui gives a texture: one it manages itself, or one the user
/// registered.
#[derive(Debug, Clone, Copy, PartialEq, Eq, Structural)]
pub enum UiTextureId {
    Managed(u64),
    User(u64),
}

/// The textures the ui renderer holds, by id; each id occurs once.
pub struct UiTextures {
    pub ids: Vec<UiTextureId>,
}

/// What is done with the backend texture for a texture change.
#[derive(Debug, Clone, Copy, PartialEq, Eq, Structural)]
pub enum TextureOp {
    /// a new texture is loaded from the whole image
    Create,
    /// a region of the existing texture is overwritten
    Update,
}

pub open spec fn no_duplicates(s: Seq<UiTextureId>) -> bool {
    forall|i: int, j: int| 0 <= i < j < s.len() ==> s[i] != s[j]
}

impl UiTextures {
    pub open spec fn wf(&self) -> bool {
        no_duplicates(self.ids@)
    }

    /// The ids of the textures held.
    pub open spec fn id_set(&self) -> Set<UiTextureId> {
        self.ids@.to_set()
    }

    pub fn new() -> (r: Self)
        ensures
            r.wf(),
            r.id_set() == Set::<UiTextureId>::empty(),
    {
        let r = UiTextures { ids: Vec::new() };
        assert(r.ids@.to_set() =~= Set::<UiTextureId>::empty());
        r
    }

    /// Whether a texture with this id is held.
    pub fn contains(&self, id: UiTextureId) -> (r: bool)
        ensures
            r == self.id_set().contains(id),
    {
        let mut i: usize = 0;
        while i < self.ids.len()
            invariant
                i <= self.ids@.len(),
                forall|k: int| 0 <= k < i ==> self.ids@[k] != id,
            decreases self.ids.len() - i,
        {
            if self.ids[i] == id {
                assert(self.ids@.contains(id));
                return true;
            }
            i = i + 1;
        }
        assert(!self.ids@.contains(id));
        false
    }

    /// Forgets the texture with this id, if one is held.
    pub fn remove(&mut self, id: UiTextureId)
        requires
            old(self).wf(),
        ensures
            final(self).wf(),
            final(self).id_set() == old(self).id_set().remove(id),
    {
        let mut i: usize = 0;
        while i < self.ids.len()
            invariant
                i <= self.ids@.len(),
                self.ids@ == old(self).ids@,
                no_duplicates(self.ids@),
                forall|k: int| 0 <= k < i ==> self.ids@[k] != id,
            decreases self.ids.len() - i,
        {
            if self.ids[i] == id {
                let ghost before = self.ids@;
                self.ids.remove(i);
                proof {
                    assert(self.ids@ =~= before.remove(i as int));
                    assert forall|a: UiTextureId| #[trigger] self.ids@.to_set().contains(a)
                        == before.to_set().remove(id).contains(a) by {
                        if self.ids@.contains(a) {
                            let k = choose|k: int| 0 <= k < self.ids@.len() && self.ids@[k] == a;
                            if k < i {
                                assert(before[k] == a);
                            } else {
                                assert(before[k + 1] == a);
                            }
                        }
                        if before.contains(a) && a != id {
                            let k = choose|k: int| 0 <= k < before.len() && before[k] == a;
                            if k < i {
                                assert(self.ids@[k] == a);
                            } else {
                                assert(k != i);
                                assert(self.ids@[k - 1] == a);
                            }
                        }
                    }
                    assert(self.ids@.to_set() =~= before.to_set().remove(id));
                }
                return;
            }
            i = i + 1;
        }
        proof {
            assert(!self.ids@.contains(id));
            assert(self.ids@.to_set() =~= old(self).ids@.to_set().remove(id));
        }
    }

    /// A texture change of the ui. A change that gives the whole image
    /// (`replace`) drops the texture of that id, if any, and creates it anew;
    /// any other change overwrites a region of the texture, which must exist.
    pub fn apply_set(&mut self, id: UiTextureId, replace: bool) -> (r: TextureOp)
        requires
            old(self).wf(),
            !replace ==> old(self).id_set().contains(id),
        ensures
            final(self).wf(),
            r == (if replace {
                TextureOp::Create
            } else {
                TextureOp::Update
            }),
            final(self).id_set() == old(self).id_set().insert(id),
    {
        if replace {
            self.remove(id);
            let ghost before = self.ids@;
            proof {
                assert(!before.contains(id)) by {
                    assert(!before.to_set().contains(id));
                }
            }
            self.ids.push(id);
            proof {
                assert(self.ids@ == before.push(id));
                assert forall|i: int, j: int| 0 <= i < j < self.ids@.len() implies self.ids@[i]
                    != self.ids@[j] by {
                    if j == before.len() {
                        assert(before.contains(before[i]));
                    } else {
                        assert(before[i] == self.ids@[i] && before[j] == self.ids@[j]);
                    }
                }
                before.lemma_push_to_set_commute(id);
                assert(old(self).id_set().remove(id).insert(id) =~= old(self).id_set().insert(id));
            }
            TextureOp::Create
        } else {
            proof {
                assert(old(self).id_set().insert(id) =~= old(self).id_set());
            }
            TextureOp::Update
        }
    }
}

/// The bytes of an image with four bytes per pixel, pixel after pixel.
pub open spec fn spec_rgba_bytes(pixels: Seq<[u8; 4]>) -> Seq<u8> {
    Seq::new(4 * pixels.len(), |i: int| pixels[i / 4][i % 4])
}

/// Lays out an image's pixels as bytes, four per pixel, for upload.
pub fn rgba_bytes(pixels: &Vec<[u8; 4]>) -> (r: Vec<u8>)
    requires
        4 * pixels.len() <= usize::MAX,
    ensures
        r@ == spec_rgba_bytes(pixels@),
{
    let mut r: Vec<u8> = Vec::new();
    let mut p: usize = 0;
    while p < pixels.len()
        invariant
            p <= pixels@.len(),
            4 * pixels.len() <= usize::MAX,
            r@.len() == 4 * p,
            forall|i: int| 0 <= i < 4 * p ==> r@[i] == #[trigger] pixels@[i / 4][i % 4],
        decreases pixels.len() - p,
    {
        let px = pixels[p];
        let mut c: usize = 0;
        while c < 4
            invariant
                p < pixels@.len(),
                px == pixels@[p as int],
                c <= 4,
                r@.len() == 4 * p + c,
                forall|i: int| 0 <= i < 4 * p + c ==> r@[i] == #[trigger] pixels@[i / 4][i % 4],
            decreases 4 - c,
        {
            r.push(px[c]);
            proof {
                let n = 4 * p + c;
                assert(n / 4 == p as int && n % 4 == c as int);
            }
            c = c + 1;
        }
        p = p + 1;
    }
    assert(r@ =~= spec_rgba_bytes(pixels@));
    r
}

} // verus!
