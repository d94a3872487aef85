//! The store behind the sound backend's memory allocator: sound data that was
//! flushed for an allocation id, and decoded sound data shared by the hash of
//! its bytes, held as long as something refers to it. The decoded data is of
//! the caller's type `D`; this store only keeps, counts and hands out copies.

use vstd::prelude::*;

use std::collections::HashMap;

verus! {

broadcast use {vstd::std_specs::hash::group_hash_axioms, vstd::array::group_array_axioms};

/// The hash of a sound's bytes.
pub type SoundHash = [u8; 32];

/// Whether two hashes are the same.
pub fn hash_eq(a: &SoundHash, b: &SoundHash) -> (r: bool)
    ensures
        r == (*a == *b),
{
    let mut i: usize = 0;
    while i < 32
        invariant
            i <= 32,
            forall|j: int| 0 <= j < i ==> a@[j] == b@[j],
        decreases 32 - i,
    {
        if a[i] != b[i] {
            return false;
        }
        i = i + 1;
    }
    assert(*a =~= *b);
    true
}

/// The shared sounds of a list of entries (hash, holders, data); the first
/// entry of a hash counts.
pub closed spec fn hashed_view<D>(e: Seq<(SoundHash, u64, D)>) -> Map<SoundHash, (u64, D)>
    decreases e.len(),
{
    if e.len() == 0 {
        Map::empty()
    } else {
        hashed_view(e.drop_first()).insert(e[0].0, (e[0].1, e[0].2))
    }
}

/// No hash has two entries.
pub open spec fn unique_hashes<D>(e: Seq<(SoundHash, u64, D)>) -> bool {
    forall|i: int, j: int| 0 <= i < j < e.len() ==> e[i].0 != e[j].0
}

proof fn lemma_hashed_lookup<D>(e: Seq<(SoundHash, u64, D)>, i: int)
    requires
        unique_hashes(e),
        0 <= i < e.len(),
    ensures
        hashed_view(e).contains_key(e[i].0),
        hashed_view(e)[e[i].0] == (e[i].1, e[i].2),
    decreases e.len(),
{
    if i > 0 {
        assert(e.drop_first()[i - 1] == e[i]);
        lemma_hashed_lookup(e.drop_first(), i - 1);
        assert(e[0].0 != e[i].0);
    }
}

proof fn lemma_hashed_absent<D>(e: Seq<(SoundHash, u64, D)>, h: SoundHash)
    requires
        forall|j: int| 0 <= j < e.len() ==> e[j].0 != h,
    ensures
        !hashed_view(e).contains_key(h),
    decreases e.len(),
{
    if e.len() > 0 {
        assert forall|j: int| 0 <= j < e.drop_first().len() implies e.drop_first()[j].0 != h by {
            assert(e.drop_first()[j] == e[j + 1]);
        }
        lemma_hashed_absent(e.drop_first(), h);
    }
}

proof fn lemma_hashed_update<D>(e: Seq<(SoundHash, u64, D)>, i: int, n: u64)
    requires
        unique_hashes(e),
        0 <= i < e.len(),
    ensures
        hashed_view(e.update(i, (e[i].0, n, e[i].2))) == hashed_view(e).insert(
            e[i].0,
            (n, e[i].2),
        ),
    decreases e.len(),
{
    let u = e.update(i, (e[i].0, n, e[i].2));
    if i == 0 {
        assert(u.drop_first() =~= e.drop_first());
        assert(hashed_view(u) =~= hashed_view(e).insert(e[i].0, (n, e[i].2)));
    } else {
        assert(e.drop_first()[i - 1] == e[i]);
        assert(u.drop_first() =~= e.drop_first().update(i - 1, (e[i].0, n, e[i].2)));
        lemma_hashed_update(e.drop_first(), i - 1, n);
        assert(e[0].0 != e[i].0);
        assert(hashed_view(u) =~= hashed_view(e).insert(e[i].0, (n, e[i].2)));
    }
}

proof fn lemma_hashed_remove<D>(e: Seq<(SoundHash, u64, D)>, i: int)
    requires
        unique_hashes(e),
        0 <= i < e.len(),
    ensures
        hashed_view(e.remove(i)) == hashed_view(e).remove(e[i].0),
    decreases e.len(),
{
    let r = e.remove(i);
    if i == 0 {
        assert(r =~= e.drop_first());
        assert forall|j: int| 0 <= j < e.drop_first().len() implies e.drop_first()[j].0
            != e[0].0 by {
            assert(e.drop_first()[j] == e[j + 1]);
        }
        lemma_hashed_absent(e.drop_first(), e[0].0);
        assert(hashed_view(r) =~= hashed_view(e).remove(e[0].0));
    } else {
        assert(e.drop_first()[i - 1] == e[i]);
        assert(r.drop_first() =~= e.drop_first().remove(i - 1));
        lemma_hashed_remove(e.drop_first(), i - 1);
        assert(e[0].0 != e[i].0);
        assert(hashed_view(r) =~= hashed_view(e).remove(e[i].0));
    }
}

proof fn lemma_hashed_push<D>(e: Seq<(SoundHash, u64, D)>, h: SoundHash, n: u64, d: D)
    requires
        forall|j: int| 0 <= j < e.len() ==> e[j].0 != h,
    ensures
        hashed_view(e.push((h, n, d))) == hashed_view(e).insert(h, (n, d)),
    decreases e.len(),
{
    let p = e.push((h, n, d));
    if e.len() == 0 {
        assert(p.drop_first() =~= e);
        assert(hashed_view(e) =~= Map::<SoundHash, (u64, D)>::empty());
        assert(hashed_view(p) =~= hashed_view(e).insert(h, (n, d)));
    } else {
        assert forall|j: int| 0 <= j < e.drop_first().len() implies e.drop_first()[j].0 != h by {
            assert(e.drop_first()[j] == e[j + 1]);
        }
        assert(p.drop_first() =~= e.drop_first().push((h, n, d)));
        lemma_hashed_push(e.drop_first(), h, n, d);
        assert(hashed_view(p) =~= hashed_view(e).insert(h, (n, d)));
    }
}

/// The shared sounds after one more holder of `h` (whose data is `d` if it
/// was not held yet).
pub open spec fn add_holder<D>(m: Map<SoundHash, (u64, D)>, h: SoundHash, d: D) -> Map<SoundHash, (u64, D)> {
    if m.contains_key(h) {
        m.insert(h, ((m[h].0 + 1) as u64, m[h].1))
    } else {
        m.insert(h, (1, d))
    }
}

/// The shared sounds after one holder of `h` let go: the last one drops
/// the data.
pub open spec fn drop_holder<D>(m: Map<SoundHash, (u64, D)>, h: SoundHash) -> Map<SoundHash, (u64, D)> {
    if m.contains_key(h) {
        if m[h].0 <= 1 {
            m.remove(h)
        } else {
            m.insert(h, ((m[h].0 - 1) as u64, m[h].1))
        }
    } else {
        m
    }
}

/// The sound of `h`, if it is shared, can be held once more.
pub open spec fn can_hold_more<D>(m: Map<SoundHash, (u64, D)>, h: SoundHash) -> bool {
    m.contains_key(h) ==> m[h].0 < u64::MAX
}

/// Holding a sound once more and letting go of it again leaves the shared
/// sounds as they were.
pub proof fn lemma_add_then_drop<D>(m: Map<SoundHash, (u64, D)>, h: SoundHash, d: D)
    requires
        m.contains_key(h) ==> 1 <= m[h].0,
        can_hold_more(m, h),
    ensures
        drop_holder(add_holder(m, h, d), h) == m,
{
    if m.contains_key(h) {
        assert(drop_holder(add_holder(m, h, d), h) =~= m);
    } else {
        assert(drop_holder(add_holder(m, h, d), h) =~= m);
    }
}

/// The shared sounds after one more holder of `h` for each data of `ds`, in
/// order.
pub open spec fn add_holders<D>(m: Map<SoundHash, (u64, D)>, h: SoundHash, ds: Seq<D>) -> Map<SoundHash, (u64, D)>
    decreases ds.len(),
{
    if ds.len() == 0 {
        m
    } else {
        add_holder(add_holders(m, h, ds.drop_last()), h, ds.last())
    }
}

/// The shared sounds after `j` holders of `h` let go.
pub open spec fn drop_holders<D>(m: Map<SoundHash, (u64, D)>, h: SoundHash, j: nat) -> Map<SoundHash, (u64, D)>
    decreases j,
{
    if j == 0 {
        m
    } else {
        drop_holder(drop_holders(m, h, (j - 1) as nat), h)
    }
}

proof fn lemma_add_holders<D>(m: Map<SoundHash, (u64, D)>, h: SoundHash, ds: Seq<D>)
    requires
        !m.contains_key(h),
        0 < ds.len() < u64::MAX,
    ensures
        add_holders(m, h, ds).contains_key(h),
        add_holders(m, h, ds)[h] == (ds.len() as u64, ds[0]),
        add_holders(m, h, ds).remove(h) == m,
    decreases ds.len(),
{
    if ds.len() == 1 {
        assert(ds.drop_last().len() == 0);
        assert(add_holders(m, h, ds.drop_last()) == m);
        assert(m.insert(h, (1u64, ds.last())).remove(h) =~= m);
    } else {
        lemma_add_holders(m, h, ds.drop_last());
        let prev = add_holders(m, h, ds.drop_last());
        assert(ds.drop_last()[0] == ds[0]);
        assert(prev.insert(h, ((prev[h].0 + 1) as u64, prev[h].1)).remove(h) =~= prev.remove(h));
    }
}

proof fn lemma_drop_holders<D>(m: Map<SoundHash, (u64, D)>, h: SoundHash, k: u64, d: D, j: nat)
    requires
        m.contains_key(h),
        m[h] == (k, d),
        1 <= k,
        j <= k,
    ensures
        drop_holders(m, h, j).contains_key(h) <==> j < k,
        j < k ==> drop_holders(m, h, j)[h] == ((k - j) as u64, d),
        drop_holders(m, h, j).remove(h) == m.remove(h),
    decreases j,
{
    if j > 0 {
        lemma_drop_holders(m, h, k, d, (j - 1) as nat);
        let prev = drop_holders(m, h, (j - 1) as nat);
        if prev[h].0 <= 1 {
            assert(prev.remove(h).remove(h) =~= prev.remove(h));
        } else {
            assert(prev.insert(h, ((prev[h].0 - 1) as u64, prev[h].1)).remove(h) =~= prev.remove(h));
        }
    }
}

/// Holding a sound `k` times and letting go `j <= k` times: the sound is
/// still kept exactly when `j < k`, then held `k - j` times with the data
/// of the first holder; the other sounds stay as they were.
pub proof fn lemma_holders_over_calls<D>(m: Map<SoundHash, (u64, D)>, h: SoundHash, ds: Seq<D>, j: nat)
    requires
        !m.contains_key(h),
        ds.len() < u64::MAX,
        j <= ds.len(),
    ensures
        drop_holders(add_holders(m, h, ds), h, j).contains_key(h) <==> j < ds.len(),
        j < ds.len() ==> drop_holders(add_holders(m, h, ds), h, j)[h] == (
            (ds.len() - j) as u64,
            ds[0],
        ),
        drop_holders(add_holders(m, h, ds), h, j).remove(h) == m,
{
    if ds.len() == 0 {
        assert(drop_holders(m, h, j) == m);
        assert(m.remove(h) =~= m);
    } else {
        lemma_add_holders(m, h, ds);
        lemma_drop_holders(add_holders(m, h, ds), h, ds.len() as u64, ds[0], j);
    }
}

/// The sound memory of the allocator.
pub struct MemoryAllocatorInner<D> {
    id_gen: u128,
    flushed_sound_memory: HashMap<u128, D>,
    hashed_sound_memory: Vec<(SoundHash, u64, D)>,
}

impl<D> MemoryAllocatorInner<D> {
    /// The next allocation id to hand out.
    pub closed spec fn spec_id_gen(&self) -> u128 {
        self.id_gen
    }

    /// The flushed sound data by allocation id.
    pub closed spec fn spec_flushed(&self) -> Map<u128, D> {
        self.flushed_sound_memory@
    }

    /// The shared sound data by hash, with how often it is held.
    pub closed spec fn spec_hashed(&self) -> Map<SoundHash, (u64, D)> {
        hashed_view(self.hashed_sound_memory@)
    }

    pub closed spec fn wf(&self) -> bool {
        &&& unique_hashes(self.hashed_sound_memory@)
        &&& forall|i: int|
            0 <= i < self.hashed_sound_memory@.len() ==> 1 <= #[trigger] self.hashed_sound_memory@[i].1
    }

    pub fn new() -> (r: Self)
        ensures
            r.wf(),
            r.spec_id_gen() == 0,
            r.spec_flushed() == Map::<u128, D>::empty(),
            r.spec_hashed() == Map::<SoundHash, (u64, D)>::empty(),
    {
        let r = MemoryAllocatorInner {
            id_gen: 0,
            flushed_sound_memory: HashMap::new(),
            hashed_sound_memory: Vec::new(),
        };
        assert(hashed_view(r.hashed_sound_memory@) =~= Map::<SoundHash, (u64, D)>::empty());
        r
    }

    /// Every shared sound is held at least once.
    pub proof fn lemma_held(&self)
        requires
            self.wf(),
        ensures
            forall|h: SoundHash| #[trigger] self.spec_hashed().contains_key(h) ==> 1 <= self.spec_hashed()[h].0,
    {
        assert forall|h: SoundHash| #[trigger] self.spec_hashed().contains_key(h) implies 1
            <= self.spec_hashed()[h].0 by {
            let i = self.find_index(h);
            lemma_hashed_lookup(self.hashed_sound_memory@, i);
        }
    }

    proof fn find_index(&self, h: SoundHash) -> (i: int)
        requires
            self.wf(),
            self.spec_hashed().contains_key(h),
        ensures
            0 <= i < self.hashed_sound_memory@.len(),
            self.hashed_sound_memory@[i].0 == h,
    {
        if forall|j: int| 0 <= j < self.hashed_sound_memory@.len() ==> self.hashed_sound_memory@[j].0 != h {
            lemma_hashed_absent(self.hashed_sound_memory@, h);
        }
        choose|i: int| 0 <= i < self.hashed_sound_memory@.len() && self.hashed_sound_memory@[i].0 == h
    }

    /// The id that `next_id` hands out next.
    pub fn id_gen(&self) -> (r: u128)
        ensures
            r == self.spec_id_gen(),
    {
        self.id_gen
    }

    /// Hands out a new allocation id.
    pub fn next_id(&mut self) -> (r: u128)
        requires
            old(self).spec_id_gen() < u128::MAX,
        ensures
            r == old(self).spec_id_gen(),
            final(self).spec_id_gen() == old(self).spec_id_gen() + 1,
            final(self).spec_flushed() == old(self).spec_flushed(),
            final(self).spec_hashed() == old(self).spec_hashed(),
            final(self).wf() == old(self).wf(),
    {
        let id = self.id_gen;
        self.id_gen = self.id_gen + 1;
        id
    }

    /// Keeps the flushed data of allocation `id`.
    pub fn add(&mut self, id: u128, data: D)
        ensures
            final(self).spec_flushed() == old(self).spec_flushed().insert(id, data),
            final(self).spec_id_gen() == old(self).spec_id_gen(),
            final(self).spec_hashed() == old(self).spec_hashed(),
            final(self).wf() == old(self).wf(),
    {
        self.flushed_sound_memory.insert(id, data);
    }

    /// Takes the flushed data of allocation `id` out, if there is any.
    pub fn remove(&mut self, id: &u128) -> (r: Option<D>)
        ensures
            r == old(self).spec_flushed().get(*id),
            final(self).spec_flushed() == old(self).spec_flushed().remove(*id),
            final(self).spec_id_gen() == old(self).spec_id_gen(),
            final(self).spec_hashed() == old(self).spec_hashed(),
            final(self).wf() == old(self).wf(),
    {
        self.flushed_sound_memory.remove(id)
    }

    /// Whether allocation `id` has flushed data.
    pub fn contains(&mut self, id: &u128) -> (r: bool)
        ensures
            r == old(self).spec_flushed().contains_key(*id),
            *final(self) == *old(self),
    {
        self.flushed_sound_memory.contains_key(id)
    }

    fn find_hashed(&self, hash: &SoundHash) -> (r: Option<usize>)
        requires
            self.wf(),
        ensures
            match r {
                Some(i) => i < self.hashed_sound_memory@.len() && self.hashed_sound_memory@[i as int].0
                    == *hash,
                None => !self.spec_hashed().contains_key(*hash),
            },
    {
        let mut i: usize = 0;
        while i < self.hashed_sound_memory.len()
            invariant
                i <= self.hashed_sound_memory@.len(),
                forall|j: int| 0 <= j < i ==> self.hashed_sound_memory@[j].0 != *hash,
            decreases self.hashed_sound_memory.len() - i,
        {
            if hash_eq(&self.hashed_sound_memory[i].0, hash) {
                return Some(i);
            }
            i = i + 1;
        }
        proof {
            lemma_hashed_absent(self.hashed_sound_memory@, *hash);
        }
        None
    }

    /// How often the sound of `hash` is held (zero if it is not shared).
    pub fn holder_count(&self, hash: &SoundHash) -> (r: u64)
        requires
            self.wf(),
        ensures
            r == if self.spec_hashed().contains_key(*hash) {
                self.spec_hashed()[*hash].0
            } else {
                0
            },
    {
        match self.find_hashed(hash) {
            Some(i) => {
                proof {
                    lemma_hashed_lookup(self.hashed_sound_memory@, i as int);
                }
                self.hashed_sound_memory[i].1
            },
            None => 0,
        }
    }

    /// One more holder of the sound of `hash`; `data` is kept only if the
    /// sound was not held yet.
    pub fn add_hashed(&mut self, hash: SoundHash, data: D)
        requires
            old(self).wf(),
            can_hold_more(old(self).spec_hashed(), hash),
        ensures
            final(self).wf(),
            final(self).spec_hashed() == add_holder(old(self).spec_hashed(), hash, data),
            final(self).spec_flushed() == old(self).spec_flushed(),
            final(self).spec_id_gen() == old(self).spec_id_gen(),
    {
        match self.find_hashed(&hash) {
            Some(i) => {
                let ghost before = self.hashed_sound_memory@;
                proof {
                    lemma_hashed_lookup(before, i as int);
                }
                let (h, n, d) = self.hashed_sound_memory.remove(i);
                self.hashed_sound_memory.insert(i, (h, n + 1, d));
                proof {
                    assert(self.hashed_sound_memory@ =~= before.update(
                        i as int,
                        (before[i as int].0, (n + 1) as u64, before[i as int].2),
                    ));
                    lemma_hashed_update(before, i as int, (n + 1) as u64);
                    assert(unique_hashes(self.hashed_sound_memory@)) by {
                        assert forall|a: int, b: int|
                            0 <= a < b < self.hashed_sound_memory@.len() implies self.hashed_sound_memory@[a].0
                            != self.hashed_sound_memory@[b].0 by {
                            assert(before[a].0 != before[b].0);
                        }
                    }
                }
            },
            None => {
                proof {
                    assert forall|j: int| 0 <= j < self.hashed_sound_memory@.len() implies self.hashed_sound_memory@[j].0
                        != hash by {
                        if self.hashed_sound_memory@[j].0 == hash {
                            lemma_hashed_lookup(self.hashed_sound_memory@, j);
                        }
                    }
                    lemma_hashed_push(self.hashed_sound_memory@, hash, 1, data);
                }
                self.hashed_sound_memory.push((hash, 1, data));
            },
        }
    }

    /// One holder of the sound of `hash` lets go; the last one drops it.
    pub fn remove_hashed(&mut self, hash: &SoundHash)
        requires
            old(self).wf(),
        ensures
            final(self).wf(),
            final(self).spec_hashed() == drop_holder(old(self).spec_hashed(), *hash),
            final(self).spec_flushed() == old(self).spec_flushed(),
            final(self).spec_id_gen() == old(self).spec_id_gen(),
    {
        match self.find_hashed(hash) {
            Some(i) => {
                let ghost before = self.hashed_sound_memory@;
                proof {
                    lemma_hashed_lookup(before, i as int);
                }
                let (h, n, d) = self.hashed_sound_memory.remove(i);
                if n > 1 {
                    self.hashed_sound_memory.insert(i, (h, n - 1, d));
                    proof {
                        assert(self.hashed_sound_memory@ =~= before.update(
                            i as int,
                            (before[i as int].0, (n - 1) as u64, before[i as int].2),
                        ));
                        lemma_hashed_update(before, i as int, (n - 1) as u64);
                        assert(unique_hashes(self.hashed_sound_memory@)) by {
                            assert forall|a: int, b: int|
                                0 <= a < b < self.hashed_sound_memory@.len() implies self.hashed_sound_memory@[a].0
                                != self.hashed_sound_memory@[b].0 by {
                                assert(before[a].0 != before[b].0);
                            }
                        }
                    }
                } else {
                    proof {
                        lemma_hashed_remove(before, i as int);
                        assert(unique_hashes(self.hashed_sound_memory@)) by {
                            assert forall|a: int, b: int|
                                0 <= a < b < self.hashed_sound_memory@.len() implies self.hashed_sound_memory@[a].0
                                != self.hashed_sound_memory@[b].0 by {
                                let a2 = if a < i { a } else { a + 1 };
                                let b2 = if b < i { b } else { b + 1 };
                                assert(self.hashed_sound_memory@[a] == before[a2]);
                                assert(self.hashed_sound_memory@[b] == before[b2]);
                            }
                        }
                        assert forall|j: int| 0 <= j < self.hashed_sound_memory@.len() implies 1
                            <= #[trigger] self.hashed_sound_memory@[j].1 by {
                            let j2 = if j < i { j } else { j + 1 };
                            assert(self.hashed_sound_memory@[j] == before[j2]);
                        }
                    }
                }
            },
            None => {},
        }
    }
}

impl<D: Clone> MemoryAllocatorInner<D> {
    /// The shared sound of `hash`, held once more: a copy of what is kept if
    /// the sound is held already; otherwise what `decode` gives, of which a
    /// copy is then kept. An error of `decode` changes nothing.
    pub fn get_or_add<E, F: FnOnce() -> Result<D, E>>(&mut self, hash: SoundHash, decode: F) -> (r:
        Result<D, E>)
        requires
            old(self).wf(),
            can_hold_more(old(self).spec_hashed(), hash),
            !old(self).spec_hashed().contains_key(hash) ==> decode.requires(()),
        ensures
            final(self).wf(),
            final(self).spec_flushed() == old(self).spec_flushed(),
            final(self).spec_id_gen() == old(self).spec_id_gen(),
            old(self).spec_hashed().contains_key(hash) ==> (r matches Ok(d) && cloned(
                old(self).spec_hashed()[hash].1,
                d,
            ) && final(self).spec_hashed() == add_holder(old(self).spec_hashed(), hash, d)),
            !old(self).spec_hashed().contains_key(hash) ==> decode.ensures((), r),
            !old(self).spec_hashed().contains_key(hash) ==> match r {
                Ok(d) => final(self).spec_hashed().dom() == old(self).spec_hashed().dom().insert(hash)
                    && final(self).spec_hashed()[hash].0 == 1 && cloned(
                    d,
                    final(self).spec_hashed()[hash].1,
                ) && forall|h: SoundHash|
                    h != hash ==> #[trigger] final(self).spec_hashed().get(h) == old(
                        self,
                    ).spec_hashed().get(h),
                Err(_) => final(self).spec_hashed() == old(self).spec_hashed(),
            },
    {
        let sound_data = match self.find_hashed(&hash) {
            Some(i) => {
                proof {
                    lemma_hashed_lookup(self.hashed_sound_memory@, i as int);
                }
                self.hashed_sound_memory[i].2.clone()
            },
            None => match decode() {
                Ok(d) => d,
                Err(e) => {
                    return Err(e);
                },
            },
        };
        let kept = sound_data.clone();
        self.add_hashed(hash, kept);
        proof {
            if !old(self).spec_hashed().contains_key(hash) {
                assert forall|h: SoundHash| h != hash implies #[trigger] self.spec_hashed().get(h) == old(
                    self,
                ).spec_hashed().get(h) by {}
            }
        }
        Ok(sound_data)
    }
}

} // verus!
