//! Maps and sets keyed by path text. A path occurs at most once; lookups
//! compare the characters of the path.
use crate::text::str_eq;
use vstd::prelude::*;

verus! {

/// The characters of each string.
pub open spec fn views(ks: Seq<String>) -> Seq<Seq<char>> {
    ks.map_values(|k: String| k@)
}

/// Index of `k` in `ks`, or `None`.
fn position(keys: &Vec<String>, k: &str) -> (r: Option<usize>)
    ensures
        r matches Some(i) ==> i < keys.len() && keys@[i as int]@ == k@,
        r is None ==> !views(keys@).contains(k@),
{
    let mut i: usize = 0;
    while i < keys.len()
        invariant
            i <= keys.len(),
            forall|j: int| 0 <= j < i ==> keys@[j]@ != k@,
        decreases keys.len() - i,
    {
        if str_eq(keys[i].as_str(), k) {
            return Some(i);
        }
        i += 1;
    }
    proof {
        if views(keys@).contains(k@) {
            let j = choose|j: int| 0 <= j < views(keys@).len() && views(keys@)[j] == k@;
            assert(keys@[j]@ == k@);
        }
    }
    None
}

/// A map from paths to values.
pub struct PathMap<V> {
    keys: Vec<String>,
    vals: Vec<V>,
}

impl<V> PathMap<V> {
    /// The paths, in insertion order.
    pub closed spec fn key_views(&self) -> Seq<Seq<char>> {
        views(self.keys@)
    }

    #[verifier::type_invariant]
    spec fn well_formed(&self) -> bool {
        &&& self.keys.len() == self.vals.len()
        &&& self.key_views().no_duplicates()
    }

    /// Paths to values.
    pub closed spec fn map(&self) -> Map<Seq<char>, V> {
        Map::new(
            |k: Seq<char>| self.key_views().contains(k),
            |k: Seq<char>| self.vals@[self.key_views().index_of(k)],
        )
    }

    proof fn lemma_lookup(&self, i: int)
        requires
            self.well_formed(),
            0 <= i < self.keys.len(),
        ensures
            self.map().contains_key(self.keys@[i]@),
            self.map()[self.keys@[i]@] == self.vals@[i],
    {
        let k = self.keys@[i]@;
        assert(self.key_views()[i] == k);
        assert(self.key_views().contains(k));
        let j = self.key_views().index_of(k);
        assert(self.key_views()[j] == k);
    }

    /// An empty map.
    pub fn new() -> (m: Self)
        ensures
            m.map() == Map::<Seq<char>, V>::empty(),
    {
        let m = PathMap { keys: Vec::new(), vals: Vec::new() };
        assert(m.key_views() =~= Seq::<Seq<char>>::empty());
        assert(m.map() =~= Map::<Seq<char>, V>::empty());
        m
    }

    /// Number of paths.
    pub fn len(&self) -> (n: usize)
        ensures
            n == self.map().len(),
    {
        proof {
            use_type_invariant(self);
            self.key_views().unique_seq_to_set();
            assert(self.map().dom() =~= self.key_views().to_set());
        }
        self.keys.len()
    }

    /// Whether `k` has a value.
    pub fn contains_key(&self, k: &str) -> (r: bool)
        ensures
            r == self.map().contains_key(k@),
    {
        proof {
            use_type_invariant(self);
        }
        match position(&self.keys, k) {
            Some(i) => {
                proof {
                    self.lemma_lookup(i as int);
                }
                true
            },
            None => false,
        }
    }

    /// The value of `k`, if any.
    pub fn get(&self, k: &str) -> (r: Option<&V>)
        ensures
            r matches Some(v) ==> self.map().contains_key(k@) && *v == self.map()[k@],
            r is None ==> !self.map().contains_key(k@),
    {
        proof {
            use_type_invariant(self);
        }
        match position(&self.keys, k) {
            Some(i) => {
                proof {
                    self.lemma_lookup(i as int);
                }
                Some(&self.vals[i])
            },
            None => None,
        }
    }

    /// Sets the value of `k`, replacing an earlier one.
    pub fn insert(&mut self, k: String, v: V)
        ensures
            final(self).map() == old(self).map().insert(k@, v),
    {
        proof {
            use_type_invariant(&*self);
        }
        let ghost old_map = self.map();
        match position(&self.keys, k.as_str()) {
            Some(i) => {
                let mut taken = PathMap { keys: Vec::new(), vals: Vec::new() };
                proof {
                    assert(taken.key_views() =~= Seq::<Seq<char>>::empty());
                }
                std::mem::swap(self, &mut taken);
                let PathMap { keys, mut vals } = taken;
                vals.set(i, v);
                *self = PathMap { keys, vals };
                proof {
                    assert(self.key_views() == old(self).key_views());
                    assert forall|x: Seq<char>| #[trigger] self.map().contains_key(x)
                        == old_map.insert(k@, v).contains_key(x) by {
                        if x == k@ {
                            assert(self.key_views()[i as int] == x);
                        }
                    }
                    assert forall|x: Seq<char>| self.map().contains_key(x) implies
                        #[trigger] self.map()[x] == old_map.insert(k@, v)[x] by {
                        let j = self.key_views().index_of(x);
                        if x == k@ {
                            assert(self.key_views()[i as int] == k@);
                            assert(j == i) by {
                                assert(self.key_views()[j] == x);
                            }
                        } else {
                            assert(self.key_views()[j] == x);
                            assert(j != i);
                        }
                    }
                    assert(self.map() =~= old_map.insert(k@, v));
                }
            },
            None => {
                let ghost kv = k@;
                let mut taken = PathMap { keys: Vec::new(), vals: Vec::new() };
                proof {
                    assert(taken.key_views() =~= Seq::<Seq<char>>::empty());
                }
                std::mem::swap(self, &mut taken);
                let PathMap { mut keys, mut vals } = taken;
                keys.push(k);
                vals.push(v);
                proof {
                    let ks = views(keys@);
                    assert(ks =~= old(self).key_views().push(kv));
                    assert forall|a: int, b: int|
                        0 <= a < ks.len() && 0 <= b < ks.len() && a != b implies ks[a]
                        != ks[b] by {
                        if a == ks.len() - 1 {
                            assert(old(self).key_views()[b] == ks[b]);
                            assert(old(self).key_views().contains(ks[b]));
                        } else if b == ks.len() - 1 {
                            assert(old(self).key_views()[a] == ks[a]);
                            assert(old(self).key_views().contains(ks[a]));
                        }
                    }
                }
                *self = PathMap { keys, vals };
                proof {
                    let ks = self.key_views();
                    assert(ks =~= old(self).key_views().push(kv));
                    assert(ks.no_duplicates()) by {
                        assert forall|a: int, b: int|
                            0 <= a < ks.len() && 0 <= b < ks.len() && a != b implies ks[a]
                            != ks[b] by {
                            if a == ks.len() - 1 {
                                assert(old(self).key_views()[b] == ks[b]);
                                assert(old(self).key_views().contains(ks[b]));
                            } else if b == ks.len() - 1 {
                                assert(old(self).key_views()[a] == ks[a]);
                                assert(old(self).key_views().contains(ks[a]));
                            }
                        }
                    }
                    assert forall|x: Seq<char>| #[trigger] self.map().contains_key(x)
                        == old_map.insert(kv, v).contains_key(x) by {
                        if x != kv && ks.contains(x) {
                            let j = choose|j: int| 0 <= j < ks.len() && ks[j] == x;
                            assert(old(self).key_views()[j] == x);
                        }
                        if x != kv && old(self).key_views().contains(x) {
                            let j = choose|j: int|
                                0 <= j < old(self).key_views().len() && old(self).key_views()[j]
                                    == x;
                            assert(ks[j] == x);
                        }
                        if x == kv {
                            assert(ks[ks.len() - 1] == x);
                        }
                    }
                    assert forall|x: Seq<char>| self.map().contains_key(x) implies
                        #[trigger] self.map()[x] == old_map.insert(kv, v)[x] by {
                        let j = ks.index_of(x);
                        assert(ks[j] == x);
                        if x == kv {
                            assert(ks[ks.len() - 1] == x);
                            assert(j == ks.len() - 1);
                        } else {
                            assert(j < ks.len() - 1);
                            assert(old(self).key_views()[j] == x);
                            let oj = old(self).key_views().index_of(x);
                            assert(old(self).key_views()[oj] == x);
                            assert(oj == j);
                        }
                    }
                    assert(self.map() =~= old_map.insert(kv, v));
                }
            },
        }
    }

    /// Drops the value of `k`, if any.
    pub fn remove(&mut self, k: &str)
        ensures
            final(self).map() == old(self).map().remove(k@),
    {
        proof {
            use_type_invariant(&*self);
        }
        let ghost old_map = self.map();
        match position(&self.keys, k) {
            Some(i) => {
                let mut taken = PathMap { keys: Vec::new(), vals: Vec::new() };
                proof {
                    assert(taken.key_views() =~= Seq::<Seq<char>>::empty());
                }
                std::mem::swap(self, &mut taken);
                let PathMap { mut keys, mut vals } = taken;
                keys.remove(i);
                vals.remove(i);
                proof {
                    let oks = old(self).key_views();
                    let ks = views(keys@);
                    assert(ks =~= oks.remove(i as int));
                    assert forall|a: int, b: int|
                        0 <= a < ks.len() && 0 <= b < ks.len() && a != b implies ks[a]
                        != ks[b] by {
                        let oa = if a < i { a } else { a + 1 };
                        let ob = if b < i { b } else { b + 1 };
                        assert(ks[a] == oks[oa]);
                        assert(ks[b] == oks[ob]);
                    }
                }
                *self = PathMap { keys, vals };
                proof {
                    let oks = old(self).key_views();
                    let ks = self.key_views();
                    assert(ks =~= oks.remove(i as int));
                    assert(ks.no_duplicates()) by {
                        assert forall|a: int, b: int|
                            0 <= a < ks.len() && 0 <= b < ks.len() && a != b implies ks[a]
                            != ks[b] by {
                            let oa = if a < i { a } else { a + 1 };
                            let ob = if b < i { b } else { b + 1 };
                            assert(ks[a] == oks[oa]);
                            assert(ks[b] == oks[ob]);
                        }
                    }
                    assert forall|x: Seq<char>| #[trigger] self.map().contains_key(x)
                        == old_map.remove(k@).contains_key(x) by {
                        if ks.contains(x) {
                            let j = choose|j: int| 0 <= j < ks.len() && ks[j] == x;
                            let oj = if j < i { j } else { j + 1 };
                            assert(oks[oj] == x);
                            assert(oks[i as int] == k@);
                        }
                        if x != k@ && oks.contains(x) {
                            let oj = choose|j: int| 0 <= j < oks.len() && oks[j] == x;
                            assert(oj != i);
                            let j = if oj < i { oj } else { oj - 1 };
                            assert(ks[j] == x);
                        }
                    }
                    assert forall|x: Seq<char>| self.map().contains_key(x) implies
                        #[trigger] self.map()[x] == old_map.remove(k@)[x] by {
                        let j = ks.index_of(x);
                        assert(ks[j] == x);
                        let oj = if j < i { j } else { j + 1 };
                        assert(oks[oj] == x);
                        let oi = oks.index_of(x);
                        assert(oks[oi] == x);
                        assert(oi == oj);
                    }
                    assert(self.map() =~= old_map.remove(k@));
                }
            },
            None => {
                proof {
                    assert(self.map() =~= old_map.remove(k@));
                }
            },
        }
    }

    /// The paths, in insertion order.
    pub fn keys(&self) -> (r: &Vec<String>)
        ensures
            views(r@).to_set() == self.map().dom(),
            views(r@).no_duplicates(),
    {
        proof {
            use_type_invariant(self);
            assert(self.map().dom() =~= self.key_views().to_set());
        }
        &self.keys
    }
}

impl<V> View for PathMap<V> {
    type V = Map<Seq<char>, V>;

    open spec fn view(&self) -> Map<Seq<char>, V> {
        self.map()
    }
}

/// A set of paths.
pub struct PathSet {
    keys: Vec<String>,
}

impl PathSet {
    /// The paths, in insertion order.
    pub closed spec fn key_views(&self) -> Seq<Seq<char>> {
        views(self.keys@)
    }

    #[verifier::type_invariant]
    spec fn well_formed(&self) -> bool {
        self.key_views().no_duplicates()
    }

    /// The set of paths.
    pub closed spec fn set(&self) -> Set<Seq<char>> {
        self.key_views().to_set()
    }

    /// An empty set.
    pub fn new() -> (s: Self)
        ensures
            s.set() == Set::<Seq<char>>::empty(),
    {
        let s = PathSet { keys: Vec::new() };
        assert(s.key_views() =~= Seq::<Seq<char>>::empty());
        assert(s.set() =~= Set::<Seq<char>>::empty());
        s
    }

    /// Number of paths.
    pub fn len(&self) -> (n: usize)
        ensures
            n == self.set().len(),
    {
        proof {
            use_type_invariant(self);
            self.key_views().unique_seq_to_set();
        }
        self.keys.len()
    }

    /// Whether `k` is in the set.
    pub fn contains(&self, k: &str) -> (r: bool)
        ensures
            r == self.set().contains(k@),
    {
        match position(&self.keys, k) {
            Some(i) => {
                assert(self.key_views()[i as int] == k@);
                true
            },
            None => false,
        }
    }

    /// Adds `k`; `true` when it was not there before (`HashSet::insert`).
    pub fn insert(&mut self, k: String) -> (r: bool)
        ensures
            final(self).set() == old(self).set().insert(k@),
            r == !old(self).set().contains(k@),
            !r ==> *final(self) == *old(self),
    {
        proof {
            use_type_invariant(&*self);
        }
        match position(&self.keys, k.as_str()) {
            Some(i) => {
                assert(self.key_views()[i as int] == k@);
                assert(self.set() =~= old(self).set().insert(k@));
                false
            },
            None => {
                let ghost kv = k@;
                let mut taken = PathSet { keys: Vec::new() };
                proof {
                    assert(taken.key_views() =~= Seq::<Seq<char>>::empty());
                }
                std::mem::swap(self, &mut taken);
                let PathSet { mut keys } = taken;
                keys.push(k);
                proof {
                    let ks = views(keys@);
                    assert(ks =~= old(self).key_views().push(kv));
                    assert forall|a: int, b: int|
                        0 <= a < ks.len() && 0 <= b < ks.len() && a != b implies ks[a]
                        != ks[b] by {
                        if a == ks.len() - 1 {
                            assert(old(self).key_views()[b] == ks[b]);
                            assert(old(self).key_views().contains(ks[b]));
                        } else if b == ks.len() - 1 {
                            assert(old(self).key_views()[a] == ks[a]);
                            assert(old(self).key_views().contains(ks[a]));
                        }
                    }
                }
                *self = PathSet { keys };
                proof {
                    let ks = self.key_views();
                    assert(ks =~= old(self).key_views().push(kv));
                    assert(ks.no_duplicates()) by {
                        assert forall|a: int, b: int|
                            0 <= a < ks.len() && 0 <= b < ks.len() && a != b implies ks[a]
                            != ks[b] by {
                            if a == ks.len() - 1 {
                                assert(old(self).key_views()[b] == ks[b]);
                                assert(old(self).key_views().contains(ks[b]));
                            } else if b == ks.len() - 1 {
                                assert(old(self).key_views()[a] == ks[a]);
                                assert(old(self).key_views().contains(ks[a]));
                            }
                        }
                    }
                    assert forall|x: Seq<char>| #[trigger] self.set().contains(x) == old(
                        self,
                    ).set().insert(kv).contains(x) by {
                        if x != kv && ks.contains(x) {
                            let j = choose|j: int| 0 <= j < ks.len() && ks[j] == x;
                            assert(old(self).key_views()[j] == x);
                        }
                        if x != kv && old(self).key_views().contains(x) {
                            let j = choose|j: int|
                                0 <= j < old(self).key_views().len() && old(self).key_views()[j]
                                    == x;
                            assert(ks[j] == x);
                        }
                        if x == kv {
                            assert(ks[ks.len() - 1] == x);
                        }
                    }
                    assert(self.set() =~= old(self).set().insert(kv));
                }
                true
            },
        }
    }

    /// Drops `k`, if present.
    pub fn remove(&mut self, k: &str)
        ensures
            final(self).set() == old(self).set().remove(k@),
    {
        proof {
            use_type_invariant(&*self);
        }
        match position(&self.keys, k) {
            Some(i) => {
                let mut taken = PathSet { keys: Vec::new() };
                proof {
                    assert(taken.key_views() =~= Seq::<Seq<char>>::empty());
                }
                std::mem::swap(self, &mut taken);
                let PathSet { mut keys } = taken;
                keys.remove(i);
                proof {
                    let oks = old(self).key_views();
                    let ks = views(keys@);
                    assert(ks =~= oks.remove(i as int));
                    assert forall|a: int, b: int|
                        0 <= a < ks.len() && 0 <= b < ks.len() && a != b implies ks[a]
                        != ks[b] by {
                        let oa = if a < i { a } else { a + 1 };
                        let ob = if b < i { b } else { b + 1 };
                        assert(ks[a] == oks[oa]);
                        assert(ks[b] == oks[ob]);
                    }
                }
                *self = PathSet { keys };
                proof {
                    let oks = old(self).key_views();
                    let ks = self.key_views();
                    assert(ks =~= oks.remove(i as int));
                    assert(ks.no_duplicates()) by {
                        assert forall|a: int, b: int|
                            0 <= a < ks.len() && 0 <= b < ks.len() && a != b implies ks[a]
                            != ks[b] by {
                            let oa = if a < i { a } else { a + 1 };
                            let ob = if b < i { b } else { b + 1 };
                            assert(ks[a] == oks[oa]);
                            assert(ks[b] == oks[ob]);
                        }
                    }
                    assert forall|x: Seq<char>| #[trigger] self.set().contains(x) == old(
                        self,
                    ).set().remove(k@).contains(x) by {
                        if ks.contains(x) {
                            let j = choose|j: int| 0 <= j < ks.len() && ks[j] == x;
                            let oj = if j < i { j } else { j + 1 };
                            assert(oks[oj] == x);
                            assert(oks[i as int] == k@);
                        }
                        if x != k@ && oks.contains(x) {
                            let oj = choose|j: int| 0 <= j < oks.len() && oks[j] == x;
                            assert(oj != i);
                            let j = if oj < i { oj } else { oj - 1 };
                            assert(ks[j] == x);
                        }
                    }
                    assert(self.set() =~= old(self).set().remove(k@));
                }
            },
            None => {
                assert(self.set() =~= old(self).set().remove(k@));
            },
        }
    }

    /// The paths, in insertion order.
    pub fn keys(&self) -> (r: &Vec<String>)
        ensures
            views(r@).to_set() == self.set(),
            views(r@).no_duplicates(),
    {
        proof {
            use_type_invariant(self);
        }
        &self.keys
    }
}

impl View for PathSet {
    type V = Set<Seq<char>>;

    open spec fn view(&self) -> Set<Seq<char>> {
        self.set()
    }
}

} // verus!
