//! Hands out the ids of sound scene objects.

use vstd::prelude::*;

verus! {

/// A scene object made by a [`SoundSceneHandle`].
pub struct SceneObject<P, B> {
    pub id: u128,
    pub props: P,
    pub backend_handle: B,
}

/// allocates new scene objects
#[derive(Debug)]
pub struct SoundSceneHandle<B> {
    backend_handle: B,
    id_gen: u128,
    off_air_id_gen: u128,
}

impl<B: Clone> SoundSceneHandle<B> {
    /// The id the next scene object gets.
    pub closed spec fn spec_next_id(&self) -> u128 {
        self.id_gen
    }

    /// The handle of the sound backend that scene objects share.
    pub closed spec fn spec_backend_handle(&self) -> B {
        self.backend_handle
    }

    /// The next off-air id.
    pub closed spec fn spec_next_offair_id(&self) -> u128 {
        self.off_air_id_gen
    }

    pub fn new(backend_handle: B) -> (r: Self)
        ensures
            r.spec_next_id() == 0,
            r.spec_next_offair_id() == 0,
            r.spec_backend_handle() == backend_handle,
    {
        Self { backend_handle, id_gen: 0, off_air_id_gen: 0 }
    }

    pub fn next_offair_id(&mut self) -> (r: u128)
        requires
            old(self).spec_next_offair_id() < u128::MAX,
        ensures
            r == old(self).spec_next_offair_id(),
            final(self).spec_next_offair_id() == r + 1,
            final(self).spec_next_id() == old(self).spec_next_id(),
            final(self).spec_backend_handle() == old(self).spec_backend_handle(),
    {
        let id = self.off_air_id_gen;
        self.off_air_id_gen = self.off_air_id_gen + 1;
        id
    }

    pub fn create<P>(&mut self, props: P) -> (r: SceneObject<P, B>)
        requires
            old(self).spec_next_id() < u128::MAX,
        ensures
            r.id == old(self).spec_next_id(),
            r.props == props,
            cloned(old(self).spec_backend_handle(), r.backend_handle),
            final(self).spec_next_id() == r.id + 1,
            final(self).spec_next_offair_id() == old(self).spec_next_offair_id(),
            final(self).spec_backend_handle() == old(self).spec_backend_handle(),
    {
        let id = self.id_gen;
        self.id_gen = self.id_gen + 1;
        SceneObject { id, props, backend_handle: self.backend_handle.clone() }
    }
}

/// Ids are handed out in increasing order, so no two scene objects made by
/// one handle share an id: an id handed out earlier is below every later one.
pub proof fn lemma_ids_increase(first: u128, next_after_first: u128, second: u128)
    requires
        next_after_first == first + 1,
        second >= next_after_first,
    ensures
        first < second,
{
}

/// A call on a scene handle.
pub enum SceneOp {
    /// [`SoundSceneHandle::create`]
    Create,
    /// [`SoundSceneHandle::next_offair_id`]
    OffAir,
}

/// The ids that the `create` calls among `ops` hand out, from a handle
/// whose next id is `next_id` (each `create` takes the next id, an off-air
/// id leaves it alone).
pub open spec fn created_ids(next_id: int, ops: Seq<SceneOp>) -> Seq<int>
    decreases ops.len(),
{
    if ops.len() == 0 {
        Seq::empty()
    } else {
        match ops[0] {
            SceneOp::Create => seq![next_id] + created_ids(next_id + 1, ops.drop_first()),
            SceneOp::OffAir => created_ids(next_id, ops.drop_first()),
        }
    }
}

/// The scene objects made by one handle get the ids `next_id`,
/// `next_id + 1`, ... in the order of the `create` calls, whatever off-air
/// ids are taken in between; so no two share an id.
pub proof fn lemma_created_ids(next_id: int, ops: Seq<SceneOp>)
    ensures
        forall|i: int| 0 <= i < created_ids(next_id, ops).len() ==> #[trigger] created_ids(next_id, ops)[i] == next_id + i,
        forall|i: int, j: int|
            0 <= i < j < created_ids(next_id, ops).len() ==> created_ids(next_id, ops)[i] != created_ids(
                next_id,
                ops,
            )[j],
    decreases ops.len(),
{
    if ops.len() > 0 {
        match ops[0] {
            SceneOp::Create => {
                lemma_created_ids(next_id + 1, ops.drop_first());
                let rest = created_ids(next_id + 1, ops.drop_first());
                assert(created_ids(next_id, ops) == seq![next_id] + rest);
                assert forall|i: int| 0 <= i < created_ids(next_id, ops).len() implies #[trigger] created_ids(
                    next_id,
                    ops,
                )[i] == next_id + i by {
                    if i > 0 {
                        assert(created_ids(next_id, ops)[i] == rest[i - 1]);
                    }
                }
            },
            SceneOp::OffAir => {
                lemma_created_ids(next_id, ops.drop_first());
                assert(created_ids(next_id, ops) == created_ids(next_id, ops.drop_first()));
            },
        }
    }
    let ids = created_ids(next_id, ops);
    assert forall|i: int, j: int| 0 <= i < j < ids.len() implies ids[i] != ids[j] by {
        assert(ids[i] == next_id + i);
        assert(ids[j] == next_id + j);
    }
}

} // verus!
