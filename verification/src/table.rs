//! Keyed tables and ordered account sets that the contract state is made of.
//!
//! A `LookupTable` maps keys to values and is viewed as a `Map` from the keys'
//! deep views to the values' deep views.  An `AccountSet` is a set of account
//! ids that remembers the order in which its members arrived.
use vstd::prelude::*;

verus! {

/// A key of a `LookupTable`: two keys are the same key when their deep views agree.
pub trait TableKey: DeepView + Sized {
    fn same_key(&self, other: &Self) -> (same: bool)
        ensures
            same == (self.deep_view() == other.deep_view()),
    ;
}

/// A value that can be duplicated without changing what it denotes.
pub trait Duplicate: DeepView + Sized {
    fn duplicate(&self) -> (copy: Self)
        ensures
            copy.deep_view() == self.deep_view(),
    ;
}

impl TableKey for String {
    fn same_key(&self, other: &Self) -> (same: bool) {
        *self == *other
    }
}

impl TableKey for u128 {
    fn same_key(&self, other: &Self) -> (same: bool) {
        *self == *other
    }
}

impl Duplicate for String {
    fn duplicate(&self) -> (copy: Self) {
        self.clone()
    }
}

impl<T: Duplicate> Duplicate for Vec<T> {
    fn duplicate(&self) -> (copy: Self) {
        let mut out: Vec<T> = Vec::new();
        let mut i: usize = 0;
        while i < self.len()
            invariant
                i <= self.len(),
                out.len() == i,
                forall|j: int| 0 <= j < i ==> #[trigger] out@[j].deep_view() == self@[j].deep_view(),
            decreases self.len() - i,
        {
            out.push(self[i].duplicate());
            i = i + 1;
        }
        assert(out.deep_view() =~= self.deep_view());
        out
    }
}

/// A finite table from keys to values, with no key stored twice.
pub struct LookupTable<K: TableKey, V: DeepView> {
    entries: Vec<(K, V)>,
}

impl<K: TableKey, V: DeepView> LookupTable<K, V> {
    /// No two entries carry the same key.
    #[verifier::type_invariant]
    closed spec fn keys_unique(self) -> bool {
        forall|i: int, j: int|
            0 <= i < self.entries.len() && 0 <= j < self.entries.len() && i != j
                ==> #[trigger] self.entries@[i].0.deep_view() != #[trigger] self.entries@[j].0.deep_view()
    }

    /// The entries in the order in which they are stored.
    pub closed spec fn entry_list(self) -> Seq<(K, V)> {
        self.entries@
    }

    closed spec fn holds(self, k: K::V) -> bool {
        exists|i: int| 0 <= i < self.entries.len() && #[trigger] self.entries@[i].0.deep_view() == k
    }

    closed spec fn slot(self, k: K::V) -> int {
        choose|i: int| 0 <= i < self.entries.len() && #[trigger] self.entries@[i].0.deep_view() == k
    }

    /// The table as a map from key views to value views.
    pub closed spec fn table(self) -> Map<K::V, V::V> {
        Map::new(|k: K::V| self.holds(k), |k: K::V| self.entries@[self.slot(k)].1.deep_view())
    }

    proof fn lemma_entry(self, i: int)
        requires
            self.keys_unique(),
            0 <= i < self.entries.len(),
        ensures
            self.table().contains_key(self.entries@[i].0.deep_view()),
            self.table()[self.entries@[i].0.deep_view()] == self.entries@[i].1.deep_view(),
    {
        let k = self.entries@[i].0.deep_view();
        assert(self.holds(k));
        let j = self.slot(k);
        assert(self.entries@[j].0.deep_view() == k);
        assert(i == j);
    }

    proof fn lemma_absent(self, k: K::V)
        requires
            forall|i: int| 0 <= i < self.entries.len() ==> #[trigger] self.entries@[i].0.deep_view() != k,
        ensures
            !self.table().contains_key(k),
    {
    }

    /// An empty table.
    pub fn new() -> (t: Self)
        ensures
            t.table() == Map::<K::V, V::V>::empty(),
    {
        let t = LookupTable { entries: Vec::new() };
        assert(t.table() =~= Map::<K::V, V::V>::empty());
        t
    }

    /// The number of keys in the table.
    pub fn len(&self) -> (n: usize)
        ensures
            n == self.table().len(),
    {
        proof {
            use_type_invariant(self);
            self.lemma_len();
        }
        self.entries.len()
    }

    proof fn lemma_len(self)
        requires
            self.keys_unique(),
        ensures
            self.table().len() == self.entries.len(),
            self.table().dom().finite(),
    {
        let s = self.entries@;
        let keys = s.map_values(|e: (K, V)| e.0.deep_view());
        assert(self.table().dom() =~= keys.to_set()) by {
            assert forall|k: K::V| self.table().dom().contains(k) implies keys.to_set().contains(k) by {
                let i = self.slot(k);
                assert(keys[i] == k);
            }
            assert forall|k: K::V| keys.to_set().contains(k) implies self.table().dom().contains(k) by {
                let i = choose|i: int| 0 <= i < keys.len() && keys[i] == k;
                assert(self.entries@[i].0.deep_view() == k);
            }
        }
        assert(keys.no_duplicates()) by {
            assert forall|i: int, j: int| 0 <= i < keys.len() && 0 <= j < keys.len() && i != j
                implies keys[i] != keys[j] by {
                assert(self.entries@[i].0.deep_view() != self.entries@[j].0.deep_view());
            }
        }
        keys.unique_seq_to_set();
        vstd::seq_lib::seq_to_set_is_finite(keys);
    }

    /// The position of the entry with key `k`, if there is one.
    fn position(&self, k: &K) -> (pos: Option<usize>)
        ensures
            match pos {
                Some(i) => i < self.entries.len() && self.entries@[i as int].0.deep_view() == k.deep_view(),
                None => forall|i: int|
                    0 <= i < self.entries.len() ==> #[trigger] self.entries@[i].0.deep_view() != k.deep_view(),
            },
    {
        let mut i: usize = 0;
        while i < self.entries.len()
            invariant
                i <= self.entries.len(),
                forall|j: int| 0 <= j < i ==> #[trigger] self.entries@[j].0.deep_view() != k.deep_view(),
            decreases self.entries.len() - i,
        {
            if self.entries[i].0.same_key(k) {
                return Some(i);
            }
            i = i + 1;
        }
        None
    }

    /// Whether the table has an entry for `k`.
    pub fn contains_key(&self, k: &K) -> (found: bool)
        ensures
            found == self.table().contains_key(k.deep_view()),
    {
        proof {
            use_type_invariant(self);
        }
        match self.position(k) {
            Some(i) => {
                proof {
                    self.lemma_entry(i as int);
                }
                true
            },
            None => false,
        }
    }

    /// The value stored under `k`, if any.
    pub fn get(&self, k: &K) -> (found: Option<&V>)
        ensures
            match found {
                Some(v) => self.table().contains_key(k.deep_view()) && v.deep_view() == self.table()[k.deep_view()],
                None => !self.table().contains_key(k.deep_view()),
            },
    {
        proof {
            use_type_invariant(self);
        }
        match self.position(k) {
            Some(i) => {
                proof {
                    self.lemma_entry(i as int);
                }
                Some(&self.entries[i].1)
            },
            None => None,
        }
    }

    /// Stores `v` under `k`, replacing what was stored there.
    pub fn insert(&mut self, k: K, v: V)
        ensures
            final(self).table() == old(self).table().insert(k.deep_view(), v.deep_view()),
    {
        proof {
            use_type_invariant(&*self);
        }
        let ghost old_t = *self;
        let ghost kv = k.deep_view();
        let ghost vv = v.deep_view();
        let pos = self.position(&k);
        let mut entries = Vec::new();
        std::mem::swap(&mut entries, &mut self.entries);
        match pos {
            Some(i) => {
                entries.set(i, (k, v));
            },
            None => {
                entries.push((k, v));
            },
        }
        let ghost next = LookupTable::<K, V> { entries };
        proof {
            assert(next.keys_unique()) by {
                assert forall|a: int, b: int|
                    0 <= a < next.entries.len() && 0 <= b < next.entries.len() && a != b
                    implies #[trigger] next.entries@[a].0.deep_view() != #[trigger] next.entries@[b].0.deep_view() by {
                    if a < old_t.entries.len() && b < old_t.entries.len() {
                        assert(old_t.entries@[a].0.deep_view() != old_t.entries@[b].0.deep_view());
                    }
                }
            }
            assert forall|kk: K::V| #[trigger] next.table().contains_key(kk)
                == old_t.table().insert(kv, vv).contains_key(kk) by {
                if next.holds(kk) {
                    let j = next.slot(kk);
                    if kk != kv {
                        assert(old_t.entries@[j].0.deep_view() == kk);
                    }
                } else if kk != kv && old_t.holds(kk) {
                    let j = old_t.slot(kk);
                    assert(next.entries@[j].0.deep_view() == kk);
                }
                if kk == kv {
                    match pos {
                        Some(i) => assert(next.entries@[i as int].0.deep_view() == kk),
                        None => assert(next.entries@[old_t.entries.len() as int].0.deep_view() == kk),
                    }
                }
            }
            assert forall|kk: K::V| #[trigger] next.table().contains_key(kk)
                implies next.table()[kk] == old_t.table().insert(kv, vv)[kk] by {
                let j = next.slot(kk);
                next.lemma_entry(j);
                if kk != kv {
                    old_t.lemma_entry(j);
                }
            }
            assert(next.table() =~= old_t.table().insert(kv, vv));
        }
        self.entries = entries;
    }

    /// Removes the entry for `k` and hands back its value.
    pub fn remove(&mut self, k: &K) -> (removed: Option<V>)
        ensures
            final(self).table() == old(self).table().remove(k.deep_view()),
            match removed {
                Some(v) => old(self).table().contains_key(k.deep_view()) && v.deep_view() == old(self).table()[k.deep_view()],
                None => !old(self).table().contains_key(k.deep_view()),
            },
    {
        proof {
            use_type_invariant(&*self);
        }
        let ghost old_t = *self;
        let ghost kv = k.deep_view();
        match self.position(k) {
            None => {
                proof {
                    old_t.lemma_absent(kv);
                    assert(old_t.table().remove(kv) =~= old_t.table());
                }
                None
            },
            Some(i) => {
                proof {
                    old_t.lemma_entry(i as int);
                }
                let mut entries = Vec::new();
                std::mem::swap(&mut entries, &mut self.entries);
                let (_, v) = entries.remove(i);
                let ghost next = LookupTable::<K, V> { entries };
                proof {
                    assert forall|a: int| 0 <= a < next.entries.len() implies
                        #[trigger] next.entries@[a] == old_t.entries@[if a < i { a } else { a + 1 }] by {}
                    assert(next.keys_unique()) by {
                        assert forall|a: int, b: int|
                            0 <= a < next.entries.len() && 0 <= b < next.entries.len() && a != b
                            implies #[trigger] next.entries@[a].0.deep_view() != #[trigger] next.entries@[b].0.deep_view() by {
                            let oa = if a < i { a } else { a + 1 };
                            let ob = if b < i { b } else { b + 1 };
                            assert(next.entries@[a] == old_t.entries@[oa]);
                            assert(next.entries@[b] == old_t.entries@[ob]);
                        }
                    }
                    assert forall|kk: K::V| #[trigger] next.table().contains_key(kk)
                        == old_t.table().remove(kv).contains_key(kk) by {
                        if next.holds(kk) {
                            let j = next.slot(kk);
                            let oj = if j < i { j } else { j + 1 };
                            assert(next.entries@[j] == old_t.entries@[oj]);
                            assert(old_t.entries@[oj].0.deep_view() == kk);
                            assert(oj != i);
                        } else if kk != kv && old_t.holds(kk) {
                            let oj = old_t.slot(kk);
                            assert(oj != i);
                            let j = if oj < i { oj } else { oj - 1 };
                            assert(next.entries@[j] == old_t.entries@[oj]);
                        }
                    }
                    assert forall|kk: K::V| #[trigger] next.table().contains_key(kk)
                        implies next.table()[kk] == old_t.table().remove(kv)[kk] by {
                        let j = next.slot(kk);
                        next.lemma_entry(j);
                        let oj = if j < i { j } else { j + 1 };
                        assert(next.entries@[j] == old_t.entries@[oj]);
                        old_t.lemma_entry(oj);
                    }
                    assert(next.table() =~= old_t.table().remove(kv));
                }
                self.entries = entries;
                Some(v)
            },
        }
    }

    /// The stored entries, in storage order: each one is in the table, and
    /// each key of the table is stored in one of them.
    pub fn entries(&self) -> (list: &Vec<(K, V)>)
        ensures
            list@ == self.entry_list(),
            forall|i: int|
                #![trigger list@[i]]
                0 <= i < list.len() ==> {
                    &&& self.table().contains_key(list@[i].0.deep_view())
                    &&& self.table()[list@[i].0.deep_view()] == list@[i].1.deep_view()
                },
            forall|k: K::V|
                #[trigger] self.table().contains_key(k) ==> exists|i: int|
                    0 <= i < list.len() && #[trigger] list@[i].0.deep_view() == k,
    {
        proof {
            use_type_invariant(self);
            assert forall|i: int| 0 <= i < self.entries.len() implies {
                &&& self.table().contains_key(#[trigger] self.entries@[i].0.deep_view())
                &&& self.table()[self.entries@[i].0.deep_view()] == self.entries@[i].1.deep_view()
            } by {
                self.lemma_entry(i);
            }
        }
        &self.entries
    }
}

impl<K: TableKey, V: DeepView> DeepView for LookupTable<K, V> {
    type V = Map<K::V, V::V>;

    open spec fn deep_view(&self) -> Map<K::V, V::V> {
        self.table()
    }
}

impl<K: TableKey + Duplicate, V: Duplicate> Duplicate for LookupTable<K, V> {
    fn duplicate(&self) -> (copy: Self) {
        proof {
            use_type_invariant(self);
        }
        let mut out: Vec<(K, V)> = Vec::new();
        let mut i: usize = 0;
        while i < self.entries.len()
            invariant
                i <= self.entries.len(),
                out.len() == i,
                self.keys_unique(),
                forall|j: int|
                    0 <= j < i ==> (#[trigger] out@[j]).0.deep_view() == self.entries@[j].0.deep_view()
                        && out@[j].1.deep_view() == self.entries@[j].1.deep_view(),
            decreases self.entries.len() - i,
        {
            let key = self.entries[i].0.duplicate();
            let value = self.entries[i].1.duplicate();
            out.push((key, value));
            i = i + 1;
        }
        proof {
            assert forall|a: int, b: int|
                0 <= a < out.len() && 0 <= b < out.len() && a != b
                implies #[trigger] out@[a].0.deep_view() != #[trigger] out@[b].0.deep_view() by {
                assert(self.entries@[a].0.deep_view() != self.entries@[b].0.deep_view());
            }
        }
        let copy = LookupTable { entries: out };
        proof {
            assert forall|k: K::V| #[trigger] copy.table().contains_key(k) == self.table().contains_key(k) by {
                if copy.holds(k) {
                    let j = copy.slot(k);
                    assert(self.entries@[j].0.deep_view() == k);
                }
                if self.holds(k) {
                    let j = self.slot(k);
                    assert(copy.entries@[j].0.deep_view() == k);
                }
            }
            assert forall|k: K::V| #[trigger] copy.table().contains_key(k)
                implies copy.table()[k] == self.table()[k] by {
                let j = copy.slot(k);
                copy.lemma_entry(j);
                self.lemma_entry(j);
            }
            assert(copy.table() =~= self.table());
        }
        copy
    }
}

/// A set of account ids that keeps its members in the order they arrived.
pub struct AccountSet {
    members: Vec<String>,
}

impl AccountSet {
    /// No account id occurs twice.
    #[verifier::type_invariant]
    closed spec fn distinct(self) -> bool {
        self.members.deep_view().no_duplicates()
    }

    /// The members' ids, oldest first.
    pub closed spec fn ids(self) -> Seq<Seq<char>> {
        self.members.deep_view()
    }

    /// An empty set.
    pub fn new() -> (set: Self)
        ensures
            set.ids() == Seq::<Seq<char>>::empty(),
    {
        let set = AccountSet { members: Vec::new() };
        assert(set.ids() =~= Seq::<Seq<char>>::empty());
        set
    }

    /// Whether `account` is a member.
    pub fn contains(&self, account: &String) -> (found: bool)
        ensures
            found == self.ids().contains(account@),
    {
        let mut i: usize = 0;
        while i < self.members.len()
            invariant
                i <= self.members.len(),
                forall|j: int| 0 <= j < i ==> #[trigger] self.members@[j]@ != account@,
            decreases self.members.len() - i,
        {
            if self.members[i] == *account {
                assert(self.ids()[i as int] == account@);
                return true;
            }
            i = i + 1;
        }
        assert forall|j: int| 0 <= j < self.ids().len() implies #[trigger] self.ids()[j] != account@ by {
            assert(self.ids()[j] == self.members@[j]@);
        }
        false
    }

    /// Adds `account` at the end unless it is already a member; tells whether it was added.
    pub fn insert(&mut self, account: String) -> (added: bool)
        ensures
            added == !old(self).ids().contains(account@),
            final(self).ids() == set_insert(old(self).ids(), account@),
    {
        proof {
            use_type_invariant(&*self);
        }
        if self.contains(&account) {
            false
        } else {
            let ghost before = self.ids();
            let ghost id = account@;
            let mut members = Vec::new();
            std::mem::swap(&mut members, &mut self.members);
            members.push(account);
            proof {
                assert(members.deep_view() =~= before.push(id));
                assert(before.push(id).no_duplicates()) by {
                    assert forall|a: int, b: int|
                        0 <= a < before.push(id).len() && 0 <= b < before.push(id).len() && a != b
                        implies before.push(id)[a] != before.push(id)[b] by {
                        if a < before.len() && b < before.len() {
                        } else if a < before.len() {
                            assert(before.contains(before[a]));
                        } else {
                            assert(before.contains(before[b]));
                        }
                    }
                }
            }
            self.members = members;
            true
        }
    }

    /// The members, oldest first; none occurs twice.
    pub fn to_vec(&self) -> (list: Vec<String>)
        ensures
            list.deep_view() == self.ids(),
            list.deep_view().no_duplicates(),
    {
        proof {
            use_type_invariant(self);
        }
        self.members.duplicate()
    }

    /// The number of members.
    pub fn len(&self) -> (n: usize)
        ensures
            n == self.ids().len(),
    {
        self.members.len()
    }
}

/// `ids` with `id` added at the end, unless it is already there.
pub open spec fn set_insert(ids: Seq<Seq<char>>, id: Seq<char>) -> Seq<Seq<char>> {
    if ids.contains(id) {
        ids
    } else {
        ids.push(id)
    }
}

impl DeepView for AccountSet {
    type V = Seq<Seq<char>>;

    open spec fn deep_view(&self) -> Seq<Seq<char>> {
        self.ids()
    }
}

impl Duplicate for AccountSet {
    fn duplicate(&self) -> (copy: Self) {
        proof {
            use_type_invariant(self);
        }
        let members = self.members.duplicate();
        AccountSet { members }
    }
}

} // verus!
