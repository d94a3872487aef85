//! Key binds: actions bound to chains of keys that are pressed together.
//! Keys are numbered by the caller so that the numbers keep the order of
//! the keys; actions are numbered by the caller too.

use vstd::prelude::*;

verus! {

/// A key, by a number that keeps the order of the keys.
pub type BindKey = u64;

/// An action, by its number.
pub type BindAction = u64;

/// What a key leads to: further keys, actions, or both.
pub enum BindTarget {
    Scancode(KeyTarget),
    Actions(Vec<BindAction>),
    ScancodeAndActions(KeyTarget, Vec<BindAction>),
}

/// The binds that start at one point: keys with what they lead to (the
/// first entry of a key counts).
pub struct KeyTarget {
    entries: Vec<(BindKey, BindTarget)>,
}

/// The view of what a key leads to.
pub enum BindTargetView {
    Scancode(Map<BindKey, BindTargetView>),
    Actions(Seq<BindAction>),
    ScancodeAndActions(Map<BindKey, BindTargetView>, Seq<BindAction>),
}

/// The view of a list of key entries (the first entry of a key counts).
pub closed spec fn entries_view(entries: Seq<(BindKey, BindTarget)>) -> Map<
    BindKey,
    BindTargetView,
>
    decreases entries, 0int,
{
    if entries.len() == 0 {
        Map::empty()
    } else {
        entries_view(entries.drop_first()).insert(entries[0].0, target_view(entries[0].1))
    }
}

/// The view of what a key leads to.
pub closed spec fn target_view(t: BindTarget) -> BindTargetView
    decreases t, 0int,
{
    match t {
        BindTarget::Scancode(k) => BindTargetView::Scancode(entries_view(k.entries@)),
        BindTarget::Actions(a) => BindTargetView::Actions(a@),
        BindTarget::ScancodeAndActions(k, a) => BindTargetView::ScancodeAndActions(
            entries_view(k.entries@),
            a@,
        ),
    }
}

impl View for KeyTarget {
    type V = Map<BindKey, BindTargetView>;

    closed spec fn view(&self) -> Map<BindKey, BindTargetView> {
        entries_view(self.entries@)
    }
}

/// The first entry of key `k` is at `i`.
pub open spec fn first_at(e: Seq<(BindKey, BindTarget)>, k: BindKey, i: int) -> bool {
    0 <= i < e.len() && e[i].0 == k && forall|j: int| 0 <= j < i ==> e[j].0 != k
}

proof fn lemma_lookup(e: Seq<(BindKey, BindTarget)>, k: BindKey, i: int)
    requires
        first_at(e, k, i),
    ensures
        entries_view(e).contains_key(k),
        entries_view(e)[k] == target_view(e[i].1),
    decreases e.len(),
{
    if i > 0 {
        assert(first_at(e.drop_first(), k, i - 1)) by {
            assert forall|j: int| 0 <= j < i - 1 implies e.drop_first()[j].0 != k by {
                assert(e.drop_first()[j] == e[j + 1]);
            }
        }
        lemma_lookup(e.drop_first(), k, i - 1);
        assert(e[0].0 != k);
    }
}

proof fn lemma_absent(e: Seq<(BindKey, BindTarget)>, k: BindKey)
    requires
        forall|j: int| 0 <= j < e.len() ==> e[j].0 != k,
    ensures
        !entries_view(e).contains_key(k),
    decreases e.len(),
{
    if e.len() > 0 {
        assert forall|j: int| 0 <= j < e.drop_first().len() implies e.drop_first()[j].0 != k by {
            assert(e.drop_first()[j] == e[j + 1]);
        }
        lemma_absent(e.drop_first(), k);
        assert(e[0].0 != k);
    }
}

impl KeyTarget {
    pub fn new() -> (r: Self)
        ensures
            r@ == Map::<BindKey, BindTargetView>::empty(),
    {
        let r = KeyTarget { entries: Vec::new() };
        assert(entries_view(r.entries@) =~= Map::<BindKey, BindTargetView>::empty());
        r
    }

    /// Where the entry of key `k` is, if there is one.
    fn find(&self, k: BindKey) -> (r: Option<usize>)
        ensures
            match r {
                Some(i) => first_at(self.entries@, k, i as int) && self@.contains_key(k)
                    && self@[k] == target_view(self.entries@[i as int].1),
                None => (forall|j: int| 0 <= j < self.entries@.len() ==> self.entries@[j].0 != k)
                    && !self@.contains_key(k),
            },
    {
        let mut i: usize = 0;
        while i < self.entries.len()
            invariant
                i <= self.entries@.len(),
                forall|j: int| 0 <= j < i ==> self.entries@[j].0 != k,
            decreases self.entries.len() - i,
        {
            if self.entries[i].0 == k {
                proof {
                    lemma_lookup(self.entries@, k, i as int);
                }
                return Some(i);
            }
            i = i + 1;
        }
        proof {
            lemma_absent(self.entries@, k);
        }
        None
    }
}

/// Replacing the first entry of a key replaces what the key leads to.
proof fn lemma_entries_update(
    e: Seq<(BindKey, BindTarget)>,
    k: BindKey,
    i: int,
    t: BindTarget,
)
    requires
        first_at(e, k, i),
    ensures
        entries_view(e.update(i, (k, t))) == entries_view(e).insert(k, target_view(t)),
    decreases e.len(),
{
    let u = e.update(i, (k, t));
    if i == 0 {
        assert(u.drop_first() =~= e.drop_first());
        assert(entries_view(u) =~= entries_view(e).insert(k, target_view(t)));
    } else {
        assert(first_at(e.drop_first(), k, i - 1)) by {
            assert forall|j: int| 0 <= j < i - 1 implies e.drop_first()[j].0 != k by {
                assert(e.drop_first()[j] == e[j + 1]);
            }
        }
        assert(u.drop_first() =~= e.drop_first().update(i - 1, (k, t)));
        lemma_entries_update(e.drop_first(), k, i - 1, t);
        assert(e[0].0 != k);
        assert(entries_view(u) =~= entries_view(e).insert(k, target_view(t)));
    }
}

/// Appending an entry of a key that has none adds the key.
proof fn lemma_entries_push(e: Seq<(BindKey, BindTarget)>, k: BindKey, t: BindTarget)
    requires
        forall|j: int| 0 <= j < e.len() ==> e[j].0 != k,
    ensures
        entries_view(e.push((k, t))) == entries_view(e).insert(k, target_view(t)),
    decreases e.len(),
{
    let p = e.push((k, t));
    if e.len() == 0 {
        assert(p.drop_first() =~= e);
        assert(entries_view(e) =~= Map::<BindKey, BindTargetView>::empty());
        assert(entries_view(p) =~= entries_view(e).insert(k, target_view(t)));
    } else {
        assert forall|j: int| 0 <= j < e.drop_first().len() implies e.drop_first()[j].0 != k by {
            assert(e.drop_first()[j] == e[j + 1]);
        }
        assert(p.drop_first() =~= e.drop_first().push((k, t)));
        lemma_entries_push(e.drop_first(), k, t);
        assert(e[0].0 != k);
        assert(entries_view(p) =~= entries_view(e).insert(k, target_view(t)));
    }
}

/// The binds after binding `action` to the chain of keys `keys` (in key
/// order): the last key gets the action, the keys before it lead on to the
/// next key.
pub open spec fn insert_bind(
    m: Map<BindKey, BindTargetView>,
    keys: Seq<BindKey>,
    action: BindAction,
) -> Map<BindKey, BindTargetView>
    decreases keys.len(),
{
    if keys.len() == 0 {
        m
    } else {
        let k = keys[0];
        if keys.len() == 1 {
            if m.contains_key(k) {
                match m[k] {
                    BindTargetView::Scancode(sub) => m.insert(
                        k,
                        BindTargetView::ScancodeAndActions(sub, seq![action]),
                    ),
                    BindTargetView::Actions(a) => m.insert(k, BindTargetView::Actions(a.push(action))),
                    BindTargetView::ScancodeAndActions(sub, a) => m.insert(
                        k,
                        BindTargetView::ScancodeAndActions(sub, a.push(action)),
                    ),
                }
            } else {
                m.insert(k, BindTargetView::Actions(seq![action]))
            }
        } else {
            let rest = keys.drop_first();
            if m.contains_key(k) {
                match m[k] {
                    BindTargetView::Scancode(sub) => m.insert(
                        k,
                        BindTargetView::Scancode(insert_bind(sub, rest, action)),
                    ),
                    BindTargetView::Actions(a) => m.insert(
                        k,
                        BindTargetView::ScancodeAndActions(insert_bind(Map::empty(), rest, action), a),
                    ),
                    BindTargetView::ScancodeAndActions(sub, a) => m.insert(
                        k,
                        BindTargetView::ScancodeAndActions(insert_bind(sub, rest, action), a),
                    ),
                }
            } else {
                m.insert(k, BindTargetView::Scancode(insert_bind(Map::empty(), rest, action)))
            }
        }
    }
}

fn insert_into_keys(keys: &Vec<BindKey>, start: usize, target: &mut KeyTarget, action: BindAction)
    requires
        start <= keys@.len(),
    ensures
        final(target)@ == insert_bind(old(target)@, keys@.skip(start as int), action),
    decreases keys@.len() - start,
{
    let ghost rest = keys@.skip(start as int);
    if start >= keys.len() {
        return;
    }
    let k = keys[start];
    assert(rest[0] == k);
    assert(rest.drop_first() =~= keys@.skip(start + 1));
    let last = start + 1 == keys.len();
    match target.find(k) {
        Some(i) => {
            let ghost before = target.entries@;
            let (k0, t) = target.entries.remove(i);
            let new_t = if last {
                match t {
                    BindTarget::Scancode(sub) => {
                        let mut a: Vec<BindAction> = Vec::new();
                        a.push(action);
                        assert(a@ =~= seq![action]);
                        BindTarget::ScancodeAndActions(sub, a)
                    },
                    BindTarget::Actions(mut a) => {
                        a.push(action);
                        BindTarget::Actions(a)
                    },
                    BindTarget::ScancodeAndActions(sub, mut a) => {
                        a.push(action);
                        BindTarget::ScancodeAndActions(sub, a)
                    },
                }
            } else {
                match t {
                    BindTarget::Scancode(mut sub) => {
                        insert_into_keys(keys, start + 1, &mut sub, action);
                        BindTarget::Scancode(sub)
                    },
                    BindTarget::Actions(a) => {
                        let mut sub = KeyTarget::new();
                        insert_into_keys(keys, start + 1, &mut sub, action);
                        BindTarget::ScancodeAndActions(sub, a)
                    },
                    BindTarget::ScancodeAndActions(mut sub, a) => {
                        insert_into_keys(keys, start + 1, &mut sub, action);
                        BindTarget::ScancodeAndActions(sub, a)
                    },
                }
            };
            target.entries.insert(i, (k0, new_t));
            proof {
                assert(target.entries@ =~= before.update(i as int, (k, new_t)));
                lemma_entries_update(before, k, i as int, new_t);
            }
        },
        None => {
            let new_t = if last {
                let mut a: Vec<BindAction> = Vec::new();
                a.push(action);
                assert(a@ =~= seq![action]);
                BindTarget::Actions(a)
            } else {
                let mut sub = KeyTarget::new();
                insert_into_keys(keys, start + 1, &mut sub, action);
                BindTarget::Scancode(sub)
            };
            proof {
                lemma_entries_push(target.entries@, k, new_t);
            }
            target.entries.push((k, new_t));
        },
    }
}

/// The bind reached by the longest chain of the keys `keys` (in order),
/// starting at `m`; when `can_ignore` the first keys may be skipped if no
/// bind starts with them. Gives the actions and how many keys it used.
pub open spec fn find_chain(keys: Seq<BindKey>, m: Map<BindKey, BindTargetView>, can_ignore: bool) -> Option<
    (Seq<BindAction>, int),
>
    decreases keys.len(),
{
    if keys.len() == 0 {
        None
    } else {
        let k = keys[0];
        if m.contains_key(k) {
            match m[k] {
                BindTargetView::Scancode(sub) => match find_chain(keys.drop_first(), sub, false) {
                    Some((a, c)) => Some((a, c + 1)),
                    None => None,
                },
                BindTargetView::Actions(a) => Some((a, 1)),
                BindTargetView::ScancodeAndActions(sub, a) => match find_chain(
                    keys.drop_first(),
                    sub,
                    false,
                ) {
                    Some((a2, c)) => Some((a2, c + 1)),
                    None => Some((a, 1)),
                },
            }
        } else if can_ignore {
            match find_chain(keys.drop_first(), m, true) {
                Some((a, c)) => Some((a, c + 1)),
                None => None,
            }
        } else {
            None
        }
    }
}

/// A found chain uses at least one and at most all of the keys.
pub proof fn lemma_find_chain_len(keys: Seq<BindKey>, m: Map<BindKey, BindTargetView>, can_ignore: bool)
    ensures
        find_chain(keys, m, can_ignore) matches Some((a, c)) ==> 1 <= c <= keys.len(),
    decreases keys.len(),
{
    if keys.len() > 0 {
        let k = keys[0];
        if m.contains_key(k) {
            match m[k] {
                BindTargetView::Scancode(sub) => lemma_find_chain_len(keys.drop_first(), sub, false),
                BindTargetView::Actions(a) => {},
                BindTargetView::ScancodeAndActions(sub, a) => lemma_find_chain_len(
                    keys.drop_first(),
                    sub,
                    false,
                ),
            }
        } else {
            lemma_find_chain_len(keys.drop_first(), m, true);
        }
    }
}

fn find_longest_chain_action<'a>(
    keys: &Vec<BindKey>,
    start: usize,
    target: &'a KeyTarget,
    can_ignore_keys: bool,
) -> (r: Option<(&'a Vec<BindAction>, usize)>)
    requires
        start <= keys@.len(),
    ensures
        match find_chain(keys@.skip(start as int), target@, can_ignore_keys) {
            None => r is None,
            Some((a, c)) => r matches Some((a2, next)) && a2@ == a && next == start + c,
        },
    decreases keys@.len() - start,
{
    let ghost rest = keys@.skip(start as int);
    if start >= keys.len() {
        return None;
    }
    let k = keys[start];
    assert(rest[0] == k);
    assert(rest.drop_first() =~= keys@.skip(start + 1));
    match target.find(k) {
        Some(i) => {
            let entry = &target.entries[i];
            match &entry.1 {
                BindTarget::Scancode(sub) => {
                    find_longest_chain_action(keys, start + 1, sub, false)
                },
                BindTarget::Actions(actions) => Some((actions, start + 1)),
                BindTarget::ScancodeAndActions(sub, actions) => {
                    let res = find_longest_chain_action(keys, start + 1, sub, false);
                    if res.is_some() {
                        res
                    } else {
                        Some((actions, start + 1))
                    }
                },
            }
        },
        None => {
            if can_ignore_keys {
                find_longest_chain_action(keys, start + 1, target, true)
            } else {
                None
            }
        },
    }
}

/// Adds the items to an insertion-ordered set, in order, skipping those
/// already in it.
pub open spec fn insert_all(set: Seq<BindAction>, items: Seq<BindAction>) -> Seq<BindAction>
    decreases items.len(),
{
    if items.len() == 0 {
        set
    } else {
        let t = insert_all(set, items.drop_last());
        if t.contains(items.last()) {
            t
        } else {
            t.push(items.last())
        }
    }
}

/// Adding items to a list without repeats keeps it without repeats, and it
/// then holds the old items and the added ones.
pub proof fn lemma_insert_all_set(set: Seq<BindAction>, items: Seq<BindAction>)
    requires
        set.no_duplicates(),
    ensures
        insert_all(set, items).no_duplicates(),
        insert_all(set, items).to_set() == set.to_set().union(items.to_set()),
    decreases items.len(),
{
    if items.len() == 0 {
        assert(items.to_set() =~= Set::<BindAction>::empty());
        assert(set.to_set().union(items.to_set()) =~= set.to_set());
    } else {
        let t = insert_all(set, items.drop_last());
        lemma_insert_all_set(set, items.drop_last());
        assert(items.drop_last().push(items.last()) =~= items);
        lemma_push_to_set(items.drop_last(), items.last());
        if t.contains(items.last()) {
            assert(t.to_set().contains(items.last()));
            assert(set.to_set().union(items.to_set()) =~= t.to_set());
        } else {
            assert(t.push(items.last()).no_duplicates()) by {
                assert forall|i: int, j: int|
                    0 <= i < t.push(items.last()).len() && 0 <= j < t.push(items.last()).len()
                        && i != j implies t.push(items.last())[i] != t.push(items.last())[j] by {
                    if i < t.len() && j < t.len() {
                        assert(t[i] != t[j]);
                    } else if i < t.len() {
                        assert(t.contains(t[i]));
                    } else if j < t.len() {
                        assert(t.contains(t[j]));
                    }
                }
            }
            lemma_push_to_set(t, items.last());
            assert(set.to_set().union(items.to_set()) =~= t.push(items.last()).to_set());
        }
    }
}

/// The items of `a` (in order) that are not in `b`.
pub open spec fn without(a: Seq<BindAction>, b: Seq<BindAction>) -> Seq<BindAction>
    decreases a.len(),
{
    if a.len() == 0 {
        a
    } else if b.contains(a.last()) {
        without(a.drop_last(), b)
    } else {
        without(a.drop_last(), b).push(a.last())
    }
}

/// The actions of all binds the pressed keys reach, chain after chain. (A
/// found chain always uses between one and all of the keys, see
/// [`lemma_find_chain_len`]; the bound only shows that this ends.)
pub open spec fn collect_actions(
    acc: Seq<BindAction>,
    keys: Seq<BindKey>,
    m: Map<BindKey, BindTargetView>,
) -> Seq<BindAction>
    decreases keys.len(),
{
    match find_chain(keys, m, true) {
        Some((a, c)) => if 1 <= c <= keys.len() {
            collect_actions(insert_all(acc, a), keys.skip(c), m)
        } else {
            acc
        },
        None => acc,
    }
}

/// The actions that are active while the keys `pressed` (in key order) are
/// held.
pub open spec fn spec_cur_actions(pressed: Seq<BindKey>, m: Map<BindKey, BindTargetView>) -> Seq<
    BindAction,
> {
    collect_actions(Seq::empty(), pressed, m)
}

/// Keys in strictly increasing order.
pub open spec fn strictly_sorted(s: Seq<BindKey>) -> bool {
    forall|i: int, j: int| 0 <= i < j < s.len() ==> s[i] < s[j]
}

/// The keys of `s` without repeats, in key order.
pub open spec fn key_chain(s: Seq<BindKey>) -> Seq<BindKey> {
    choose|t: Seq<BindKey>| strictly_sorted(t) && t.to_set() == s.to_set()
}

/// Two lists of keys in strictly increasing order that hold the same keys
/// are the same list.
pub proof fn lemma_sorted_unique(a: Seq<BindKey>, b: Seq<BindKey>)
    requires
        strictly_sorted(a),
        strictly_sorted(b),
        a.to_set() == b.to_set(),
    ensures
        a == b,
    decreases a.len(),
{
    if a.len() == 0 {
        if b.len() > 0 {
            assert(b.to_set().contains(b[0]));
        }
        assert(a =~= b);
    } else {
        assert(a.to_set().contains(a[0]));
        assert(b.len() > 0);
        assert(b.to_set().contains(b[0]));
        let j = choose|j: int| 0 <= j < b.len() && b[j] == a[0];
        let i = choose|i: int| 0 <= i < a.len() && a[i] == b[0];
        assert(b[0] <= b[j]) by {
            if j > 0 {
                assert(b[0] < b[j]);
            }
        }
        assert(a[0] <= a[i]) by {
            if i > 0 {
                assert(a[0] < a[i]);
            }
        }
        assert(a[0] == b[0]);
        let da = a.drop_first();
        let db = b.drop_first();
        assert forall|x: BindKey| da.to_set().contains(x) implies db.to_set().contains(x) by {
            let p = choose|p: int| 0 <= p < da.len() && da[p] == x;
            assert(a[p + 1] == x);
            assert(a[0] < a[p + 1]);
            assert(b.to_set().contains(x));
            let q = choose|q: int| 0 <= q < b.len() && b[q] == x;
            assert(q != 0);
            assert(db[q - 1] == x);
        }
        assert forall|x: BindKey| db.to_set().contains(x) implies da.to_set().contains(x) by {
            let p = choose|p: int| 0 <= p < db.len() && db[p] == x;
            assert(b[p + 1] == x);
            assert(b[0] < b[p + 1]);
            assert(a.to_set().contains(x));
            let q = choose|q: int| 0 <= q < a.len() && a[q] == x;
            assert(q != 0);
            assert(da[q - 1] == x);
        }
        assert(da.to_set() =~= db.to_set());
        lemma_sorted_unique(da, db);
        assert(da =~= db);
        assert(da.len() == db.len());
        assert(a.len() == b.len());
        assert(a =~= b) by {
            assert forall|n: int| 0 <= n < a.len() implies a[n] == b[n] by {
                if n > 0 {
                    assert(a[n] == da[n - 1]);
                    assert(b[n] == db[n - 1]);
                }
            }
        }
    }
}

proof fn lemma_push_to_set(s: Seq<BindKey>, x: BindKey)
    ensures
        s.push(x).to_set() == s.to_set().insert(x),
{
    assert forall|y: BindKey| s.push(x).to_set().contains(y) <==> s.to_set().insert(x).contains(
        y,
    ) by {
        if s.push(x).to_set().contains(y) {
            let p = choose|p: int| 0 <= p < s.push(x).len() && s.push(x)[p] == y;
            if p < s.len() {
                assert(s[p] == y);
            }
        }
        if s.to_set().contains(y) {
            let p = choose|p: int| 0 <= p < s.len() && s[p] == y;
            assert(s.push(x)[p] == y);
        }
        if y == x {
            assert(s.push(x)[s.len() as int] == x);
        }
    }
    assert(s.push(x).to_set() =~= s.to_set().insert(x));
}

/// The keys of a list, without repeats and in key order.
fn sort_keys(keys: &[BindKey]) -> (r: Vec<BindKey>)
    ensures
        strictly_sorted(r@),
        r@.to_set() == keys@.to_set(),
        r@ == key_chain(keys@),
{
    let mut r: Vec<BindKey> = Vec::new();
    let mut i: usize = 0;
    assert(r@.to_set() =~= keys@.take(0).to_set());
    while i < keys.len()
        invariant
            i <= keys@.len(),
            strictly_sorted(r@),
            r@.to_set() == keys@.take(i as int).to_set(),
        decreases keys.len() - i,
    {
        let ghost before = r@;
        insert_sorted(&mut r, keys[i]);
        proof {
            assert(keys@.take(i + 1) =~= keys@.take(i as int).push(keys@[i as int]));
            lemma_push_to_set(keys@.take(i as int), keys@[i as int]);
        }
        i = i + 1;
    }
    proof {
        assert(keys@.take(keys@.len() as int) =~= keys@);
        let t = key_chain(keys@);
        assert(strictly_sorted(t) && t.to_set() == keys@.to_set());
        lemma_sorted_unique(r@, t);
    }
    r
}

fn contains_action(v: &Vec<BindAction>, x: BindAction) -> (r: bool)
    ensures
        r == v@.contains(x),
{
    let mut i: usize = 0;
    while i < v.len()
        invariant
            i <= v@.len(),
            forall|j: int| 0 <= j < i ==> v@[j] != x,
        decreases v.len() - i,
    {
        if v[i] == x {
            return true;
        }
        i = i + 1;
    }
    false
}

fn insert_all_into(set: &mut Vec<BindAction>, items: &Vec<BindAction>)
    ensures
        final(set)@ == insert_all(old(set)@, items@),
{
    let mut j: usize = 0;
    while j < items.len()
        invariant
            j <= items@.len(),
            set@ == insert_all(old(set)@, items@.take(j as int)),
        decreases items.len() - j,
    {
        let x = items[j];
        assert(items@.take(j + 1).drop_last() =~= items@.take(j as int));
        assert(items@.take(j + 1).last() == x);
        if !contains_action(set, x) {
            set.push(x);
        }
        j = j + 1;
    }
    assert(items@.take(items@.len() as int) =~= items@);
}

fn without_into(a: &Vec<BindAction>, b: &Vec<BindAction>) -> (r: Vec<BindAction>)
    ensures
        r@ == without(a@, b@),
{
    let mut r: Vec<BindAction> = Vec::new();
    let mut j: usize = 0;
    assert(a@.take(0) =~= Seq::<BindAction>::empty());
    while j < a.len()
        invariant
            j <= a@.len(),
            r@ == without(a@.take(j as int), b@),
        decreases a.len() - j,
    {
        let x = a[j];
        assert(a@.take(j + 1).drop_last() =~= a@.take(j as int));
        assert(a@.take(j + 1).last() == x);
        if !contains_action(b, x) {
            r.push(x);
        }
        j = j + 1;
    }
    assert(a@.take(a@.len() as int) =~= a@);
    r
}

/// The actions of the binds that the pressed keys reach.
fn current_actions(keys: &KeyTarget, pressed: &Vec<BindKey>) -> (r: Vec<BindAction>)
    ensures
        r@ == spec_cur_actions(pressed@, keys@),
{
    let mut cur: Vec<BindAction> = Vec::new();
    let mut start: usize = 0;
    assert(pressed@.skip(0) =~= pressed@);
    loop
        invariant
            start <= pressed@.len(),
            spec_cur_actions(pressed@, keys@) == collect_actions(
                cur@,
                pressed@.skip(start as int),
                keys@,
            ),
        decreases pressed@.len() - start,
    {
        proof {
            lemma_find_chain_len(pressed@.skip(start as int), keys@, true);
        }
        match find_longest_chain_action(pressed, start, keys, true) {
            Some((actions, next)) => {
                assert(pressed@.skip(start as int).skip(next - start) =~= pressed@.skip(
                    next as int,
                ));
                insert_all_into(&mut cur, actions);
                start = next;
            },
            None => {
                return cur;
            },
        }
    }
}

/// Adds a key to a strictly sorted list of keys, unless it is there.
fn insert_sorted(v: &mut Vec<BindKey>, k: BindKey)
    requires
        strictly_sorted(old(v)@),
    ensures
        strictly_sorted(final(v)@),
        final(v)@.to_set() == old(v)@.to_set().insert(k),
{
    let mut i: usize = 0;
    while i < v.len() && v[i] < k
        invariant
            i <= v@.len(),
            forall|j: int| 0 <= j < i ==> v@[j] < k,
        decreases v.len() - i,
    {
        i = i + 1;
    }
    if i < v.len() && v[i] == k {
        assert(old(v)@.to_set().insert(k) =~= old(v)@.to_set());
        return;
    }
    v.insert(i, k);
    assert forall|a: int, b: int| 0 <= a < b < v@.len() implies v@[a] < v@[b] by {
        if a < i && b > i {
            assert(v@[b] == old(v)@[b - 1]);
            if i < old(v)@.len() {
                assert(old(v)@[i as int] > k);
            }
        } else if b > i {
            assert(v@[b] == old(v)@[b - 1]);
            if a > i {
                assert(v@[a] == old(v)@[a - 1]);
            } else {
                assert(old(v)@[i as int] > k);
                assert(old(v)@[i as int] <= old(v)@[b - 1]);
            }
        }
    }
    assert forall|x: BindKey| v@.to_set().contains(x) <==> old(v)@.to_set().insert(k).contains(x) by {
        if v@.to_set().contains(x) {
            let a = choose|a: int| 0 <= a < v@.len() && v@[a] == x;
            if a < i {
                assert(old(v)@[a] == x);
            } else if a > i {
                assert(old(v)@[a - 1] == x);
            }
        }
        if old(v)@.to_set().contains(x) {
            let a = choose|a: int| 0 <= a < old(v)@.len() && old(v)@[a] == x;
            if a < i {
                assert(v@[a] == x);
            } else {
                assert(v@[a + 1] == x);
            }
        }
        if x == k {
            assert(v@[i as int] == k);
        }
    }
    assert(v@.to_set() =~= old(v)@.to_set().insert(k));
}

/// Removes a key from a strictly sorted list of keys.
fn remove_sorted(v: &mut Vec<BindKey>, k: BindKey)
    requires
        strictly_sorted(old(v)@),
    ensures
        strictly_sorted(final(v)@),
        final(v)@.to_set() == old(v)@.to_set().remove(k),
{
    let mut i: usize = 0;
    while i < v.len() && v[i] != k
        invariant
            i <= v@.len(),
            forall|j: int| 0 <= j < i ==> v@[j] != k,
        decreases v.len() - i,
    {
        i = i + 1;
    }
    if i == v.len() {
        assert(old(v)@.to_set().remove(k) =~= old(v)@.to_set());
        return;
    }
    v.remove(i);
    assert forall|a: int, b: int| 0 <= a < b < v@.len() implies v@[a] < v@[b] by {
        let a2 = if a < i { a } else { a + 1 };
        let b2 = if b < i { b } else { b + 1 };
        assert(v@[a] == old(v)@[a2]);
        assert(v@[b] == old(v)@[b2]);
    }
    assert forall|x: BindKey| v@.to_set().contains(x) <==> old(v)@.to_set().remove(k).contains(x) by {
        if v@.to_set().contains(x) {
            let a = choose|a: int| 0 <= a < v@.len() && v@[a] == x;
            let a2 = if a < i { a } else { a + 1 };
            assert(old(v)@[a2] == x);
            if x == k {
                assert(old(v)@[i as int] == k);
                assert(a2 != i);
            }
        }
        if old(v)@.to_set().remove(k).contains(x) {
            let a = choose|a: int| 0 <= a < old(v)@.len() && old(v)@[a] == x;
            assert(a != i);
            if a < i {
                assert(v@[a] == x);
            } else {
                assert(v@[a - 1] == x);
            }
        }
    }
    assert(v@.to_set() =~= old(v)@.to_set().remove(k));
}

/// The actions caused since the last [`Binds::process`], and the actions
/// that are active now.
pub struct BindsProcessResult {
    pub click_actions: Vec<BindAction>,
    pub press_actions: Vec<BindAction>,
    pub cur_actions: Vec<BindAction>,
}

/// The binds and which keys are held.
pub struct Binds {
    keys: KeyTarget,
    cur_keys_pressed_is_order: Vec<BindKey>,
    /// actions caused by a press + release of a key
    click_actions: Vec<BindAction>,
    press_actions: Vec<BindAction>,
}

impl Binds {
    /// The registered binds.
    pub closed spec fn spec_binds(&self) -> Map<BindKey, BindTargetView> {
        self.keys@
    }

    /// The held keys, in key order.
    pub closed spec fn spec_pressed(&self) -> Seq<BindKey> {
        self.cur_keys_pressed_is_order@
    }

    /// The actions whose key was let go since the last `process`.
    pub closed spec fn spec_click_actions(&self) -> Seq<BindAction> {
        self.click_actions@
    }

    /// The actions that became active since the last `process`.
    pub closed spec fn spec_press_actions(&self) -> Seq<BindAction> {
        self.press_actions@
    }

    pub closed spec fn wf(&self) -> bool {
        &&& strictly_sorted(self.cur_keys_pressed_is_order@)
        &&& self.click_actions@.no_duplicates()
        &&& self.press_actions@.no_duplicates()
    }

    pub fn new() -> (r: Self)
        ensures
            r.wf(),
            strictly_sorted(r.spec_pressed()),
            r.spec_binds() == Map::<BindKey, BindTargetView>::empty(),
            r.spec_pressed() == Seq::<BindKey>::empty(),
            r.spec_click_actions() == Seq::<BindAction>::empty(),
            r.spec_press_actions() == Seq::<BindAction>::empty(),
    {
        Binds {
            keys: KeyTarget::new(),
            cur_keys_pressed_is_order: Vec::new(),
            click_actions: Vec::new(),
            press_actions: Vec::new(),
        }
    }

    /// Binds `action` to the chain of keys `bind_keys` (taken in key order,
    /// each once): the action becomes active while all of them are held.
    pub fn register_bind(&mut self, bind_keys: &[BindKey], action: BindAction)
        requires
            old(self).wf(),
        ensures
            final(self).wf(),
            strictly_sorted(final(self).spec_pressed()),
            final(self).spec_binds() == insert_bind(
                old(self).spec_binds(),
                key_chain(bind_keys@),
                action,
            ),
            key_chain(bind_keys@).len() >= 1 ==> forall|c: Seq<BindKey>| #[trigger]
                actions_at(final(self).spec_binds(), c) == (if c == key_chain(bind_keys@) {
                    actions_at(old(self).spec_binds(), c).push(action)
                } else {
                    actions_at(old(self).spec_binds(), c)
                }),
            final(self).spec_pressed() == old(self).spec_pressed(),
            final(self).spec_click_actions() == old(self).spec_click_actions(),
            final(self).spec_press_actions() == old(self).spec_press_actions(),
    {
        let keys_in_order = sort_keys(bind_keys);
        assert(keys_in_order@.skip(0) =~= keys_in_order@);
        insert_into_keys(&keys_in_order, 0, &mut self.keys, action);
        proof {
            if key_chain(bind_keys@).len() >= 1 {
                assert forall|c: Seq<BindKey>| #[trigger]
                    actions_at(self.spec_binds(), c) == (if c == key_chain(bind_keys@) {
                        actions_at(old(self).spec_binds(), c).push(action)
                    } else {
                        actions_at(old(self).spec_binds(), c)
                    }) by {
                    lemma_insert_bind_keeps_other_binds(
                        old(self).spec_binds(),
                        key_chain(bind_keys@),
                        action,
                        c,
                    );
                }
            }
        }
    }

    /// A key went down: the actions that it makes active count as pressed.
    pub fn handle_key_down(&mut self, code: BindKey)
        requires
            old(self).wf(),
        ensures
            final(self).wf(),
            strictly_sorted(final(self).spec_pressed()),
            final(self).spec_pressed().to_set() == old(self).spec_pressed().to_set().insert(code),
            final(self).spec_press_actions() == insert_all(
                old(self).spec_press_actions(),
                without(
                    spec_cur_actions(final(self).spec_pressed(), old(self).spec_binds()),
                    spec_cur_actions(old(self).spec_pressed(), old(self).spec_binds()),
                ),
            ),
            final(self).spec_click_actions() == old(self).spec_click_actions(),
            final(self).spec_binds() == old(self).spec_binds(),
    {
        let cur_actions = current_actions(&self.keys, &self.cur_keys_pressed_is_order);
        insert_sorted(&mut self.cur_keys_pressed_is_order, code);
        let new_actions = current_actions(&self.keys, &self.cur_keys_pressed_is_order);
        let diff = without_into(&new_actions, &cur_actions);
        proof {
            lemma_insert_all_set(self.press_actions@, diff@);
        }
        insert_all_into(&mut self.press_actions, &diff);
    }

    /// A key went up: the actions that it ends count as clicked.
    pub fn handle_key_up(&mut self, code: BindKey)
        requires
            old(self).wf(),
        ensures
            final(self).wf(),
            strictly_sorted(final(self).spec_pressed()),
            final(self).spec_pressed().to_set() == old(self).spec_pressed().to_set().remove(code),
            final(self).spec_click_actions() == insert_all(
                old(self).spec_click_actions(),
                without(
                    spec_cur_actions(old(self).spec_pressed(), old(self).spec_binds()),
                    spec_cur_actions(final(self).spec_pressed(), old(self).spec_binds()),
                ),
            ),
            final(self).spec_press_actions() == old(self).spec_press_actions(),
            final(self).spec_binds() == old(self).spec_binds(),
    {
        let cur_actions = current_actions(&self.keys, &self.cur_keys_pressed_is_order);
        remove_sorted(&mut self.cur_keys_pressed_is_order, code);
        let new_actions = current_actions(&self.keys, &self.cur_keys_pressed_is_order);
        let diff = without_into(&cur_actions, &new_actions);
        proof {
            lemma_insert_all_set(self.click_actions@, diff@);
        }
        insert_all_into(&mut self.click_actions, &diff);
    }

    /// Hands out the clicked and pressed actions since the last call (and
    /// forgets them) together with the actions active now.
    pub fn process(&mut self) -> (r: BindsProcessResult)
        ensures
            r.click_actions@ == old(self).spec_click_actions(),
            r.press_actions@ == old(self).spec_press_actions(),
            r.cur_actions@ == spec_cur_actions(old(self).spec_pressed(), old(self).spec_binds()),
            final(self).spec_click_actions() == Seq::<BindAction>::empty(),
            final(self).spec_press_actions() == Seq::<BindAction>::empty(),
            final(self).spec_pressed() == old(self).spec_pressed(),
            final(self).spec_binds() == old(self).spec_binds(),
            old(self).wf() ==> final(self).wf(),
            old(self).wf() ==> strictly_sorted(final(self).spec_pressed()),
    {
        let cur_actions = current_actions(&self.keys, &self.cur_keys_pressed_is_order);
        let mut click_actions = Vec::new();
        std::mem::swap(&mut click_actions, &mut self.click_actions);
        let mut press_actions = Vec::new();
        std::mem::swap(&mut press_actions, &mut self.press_actions);
        BindsProcessResult { click_actions, press_actions, cur_actions }
    }
}

} // verus!

verus! {

proof fn lemma_insert_one(a: BindAction)
    ensures
        insert_all(Seq::empty(), seq![a]) == seq![a],
{
    assert(seq![a].drop_last() =~= Seq::<BindAction>::empty());
    assert(insert_all(Seq::empty(), Seq::<BindAction>::empty()) == Seq::<BindAction>::empty());
    assert(!Seq::<BindAction>::empty().contains(a));
    assert(Seq::<BindAction>::empty().push(a) =~= seq![a]);
}

/// With no key held, no action is active.
pub proof fn lemma_no_key_no_action(m: Map<BindKey, BindTargetView>)
    ensures
        spec_cur_actions(Seq::empty(), m) == Seq::<BindAction>::empty(),
{
}

/// A key bound alone to an action makes exactly that action active while
/// it alone is held, and pressing (or letting go) it changes exactly that
/// action.
pub proof fn lemma_single_key_bind(k: BindKey, a: BindAction)
    ensures
        spec_cur_actions(seq![k], insert_bind(Map::empty(), seq![k], a)) == seq![a],
        without(
            spec_cur_actions(seq![k], insert_bind(Map::empty(), seq![k], a)),
            spec_cur_actions(Seq::empty(), insert_bind(Map::empty(), seq![k], a)),
        ) == seq![a],
{
    let m = insert_bind(Map::empty(), seq![k], a);
    assert(m.contains_key(k));
    assert(m[k] == BindTargetView::Actions(seq![a]));
    assert(seq![k].drop_first() =~= Seq::<BindKey>::empty());
    assert(find_chain(seq![k], m, true) == Some((seq![a], 1int)));
    assert(seq![k].skip(1) =~= Seq::<BindKey>::empty());
    lemma_insert_one(a);
    assert(collect_actions(seq![a], Seq::empty(), m) == seq![a]);
    assert(spec_cur_actions(seq![k], m) == seq![a]);
    assert(without(seq![a], Seq::empty()) =~= seq![a]) by {
        assert(seq![a].drop_last() =~= Seq::<BindAction>::empty());
        assert(without(Seq::<BindAction>::empty(), Seq::empty()) == Seq::<BindAction>::empty());
        assert(!Seq::<BindAction>::empty().contains(a));
    }
}

/// Of two binds that the held keys reach, the one with the longer chain of
/// keys wins: with `a` bound to `k1` and `b` to `k1` then `k2`, holding both
/// keys makes only `b` active, holding `k1` alone makes only `a` active.
pub proof fn lemma_longest_chain_wins(k1: BindKey, k2: BindKey, a: BindAction, b: BindAction)
    requires
        k1 < k2,
    ensures
        spec_cur_actions(
            seq![k1, k2],
            insert_bind(insert_bind(Map::empty(), seq![k1], a), seq![k1, k2], b),
        ) == seq![b],
        spec_cur_actions(
            seq![k1],
            insert_bind(insert_bind(Map::empty(), seq![k1], a), seq![k1, k2], b),
        ) == seq![a],
{
    let m1 = insert_bind(Map::empty(), seq![k1], a);
    assert(m1[k1] == BindTargetView::Actions(seq![a]));
    assert(seq![k1, k2].drop_first() =~= seq![k2]);
    assert(seq![k2].drop_first() =~= Seq::<BindKey>::empty());
    let sub = insert_bind(Map::empty(), seq![k2], b);
    assert(sub.contains_key(k2));
    assert(sub[k2] == BindTargetView::Actions(seq![b]));
    let m = insert_bind(m1, seq![k1, k2], b);
    assert(m[k1] == BindTargetView::ScancodeAndActions(sub, seq![a]));
    assert(find_chain(seq![k2], sub, false) == Some((seq![b], 1int)));
    assert(find_chain(seq![k1, k2], m, true) == Some((seq![b], 2int)));
    assert(seq![k1, k2].skip(2) =~= Seq::<BindKey>::empty());
    lemma_insert_one(b);
    assert(collect_actions(seq![b], Seq::empty(), m) == seq![b]);
    assert(seq![k1].drop_first() =~= Seq::<BindKey>::empty());
    assert(find_chain(Seq::empty(), sub, false) is None);
    assert(find_chain(seq![k1], m, true) == Some((seq![a], 1int)));
    assert(seq![k1].skip(1) =~= Seq::<BindKey>::empty());
    lemma_insert_one(a);
    assert(collect_actions(seq![a], Seq::empty(), m) == seq![a]);
}

/// The actions bound to exactly the chain of keys `c` (in order) in `m`:
/// the chain is followed key by key, and the actions of its last key are
/// taken (none where the chain leads nowhere or ends on a key that only
/// leads on).
pub open spec fn actions_at(m: Map<BindKey, BindTargetView>, c: Seq<BindKey>) -> Seq<BindAction>
    decreases c.len(),
{
    if c.len() == 0 || !m.contains_key(c[0]) {
        Seq::empty()
    } else if c.len() == 1 {
        match m[c[0]] {
            BindTargetView::Scancode(_) => Seq::empty(),
            BindTargetView::Actions(a) => a,
            BindTargetView::ScancodeAndActions(_, a) => a,
        }
    } else {
        match m[c[0]] {
            BindTargetView::Scancode(sub) => actions_at(sub, c.drop_first()),
            BindTargetView::Actions(_) => Seq::empty(),
            BindTargetView::ScancodeAndActions(sub, _) => actions_at(sub, c.drop_first()),
        }
    }
}

/// Binding an action to a (non-empty) chain of keys adds it after the
/// actions already bound to that chain and leaves the actions of every
/// other chain as they were: registering a bind never removes or changes
/// another bind, also not one that shares its first keys.
pub proof fn lemma_insert_bind_keeps_other_binds(
    m: Map<BindKey, BindTargetView>,
    keys: Seq<BindKey>,
    b: BindAction,
    c: Seq<BindKey>,
)
    requires
        keys.len() >= 1,
    ensures
        actions_at(insert_bind(m, keys, b), c) == (if c == keys {
            actions_at(m, c).push(b)
        } else {
            actions_at(m, c)
        }),
    decreases keys.len(),
{
    let m2 = insert_bind(m, keys, b);
    let k = keys[0];
    if c.len() == 0 {
        assert(c != keys);
    } else if c[0] != k {
        assert(c != keys);
        assert(m2.contains_key(c[0]) == m.contains_key(c[0]));
        if m.contains_key(c[0]) {
            assert(m2[c[0]] == m[c[0]]);
        }
    } else if keys.len() == 1 {
        if c.len() == 1 {
            assert(c =~= keys);
            assert(Seq::<BindAction>::empty().push(b) =~= seq![b]);
        } else {
            assert(c != keys);
        }
    } else {
        let rest = keys.drop_first();
        if c.len() == 1 {
            assert(c != keys);
        } else {
            let c2 = c.drop_first();
            assert(c == keys <==> c2 == rest) by {
                if c2 == rest {
                    assert(c2.len() == c.len() - 1);
                    assert(rest.len() == keys.len() - 1);
                    assert(c2.len() == rest.len());
                    assert(c.len() == keys.len());
                    assert(c =~= keys) by {
                        assert forall|i: int| 0 <= i < c.len() implies c[i] == keys[i] by {
                            if i > 0 {
                                assert(c[i] == c2[i - 1]);
                                assert(keys[i] == rest[i - 1]);
                            }
                        }
                    }
                }
                if c == keys {
                    assert(c2 =~= rest);
                }
            }
            lemma_insert_bind_keeps_other_binds(Map::empty(), rest, b, c2);
            if m.contains_key(k) {
                match m[k] {
                    BindTargetView::Scancode(sub) => {
                        lemma_insert_bind_keeps_other_binds(sub, rest, b, c2);
                    },
                    BindTargetView::Actions(_) => {},
                    BindTargetView::ScancodeAndActions(sub, _) => {
                        lemma_insert_bind_keeps_other_binds(sub, rest, b, c2);
                    },
                }
            }
        }
    }
}

} // verus!
