//! Storage registrations with token contracts.
//!
//! Each token contract has a set of registered accounts, and all these sets
//! live in one shared store: one index of the accounts that any set ever took
//! in, and one row of slots.  A set only keeps its own length.  So an account
//! counts as a member of every token's set as soon as one set took it in, and
//! a set that takes in a new account writes it at the slot of its own length,
//! over whatever another set had put there.
use vstd::prelude::*;

use crate::table::{AccountSet, LookupTable};

verus! {

/// The shared store of registrations: the accounts ever taken in, the slots,
/// and the length of each token's set.
#[verifier::ext_equal]
pub struct RegistryView {
    pub indexed: Seq<Seq<char>>,
    pub slots: Seq<Seq<char>>,
    pub lens: Map<Seq<char>, u64>,
}

/// The length of `token`'s set, 0 if it has none yet.
pub open spec fn set_len(r: RegistryView, token: Seq<char>) -> u64 {
    if r.lens.contains_key(token) {
        r.lens[token]
    } else {
        0
    }
}

/// Whether `account` counts as registered with `token`: the token has a set,
/// and some set took the account in.
pub open spec fn registered_with(r: RegistryView, account: Seq<char>, token: Seq<char>) -> bool {
    r.lens.contains_key(token) && r.indexed.contains(account)
}

/// The members that `token`'s set lists: the slots up to its length.
pub open spec fn set_members(r: RegistryView, token: Seq<char>) -> Seq<Seq<char>> {
    r.slots.subrange(0, r.lens[token] as int)
}

/// Registering `account` with `token`.  An account already taken in by any
/// set leaves the store alone (the token gets an empty set if it had none);
/// a new account is taken in and written at the slot of the set's length, and
/// the set grows by one.  `None` if that length cannot grow.
pub open spec fn register_account(r: RegistryView, account: Seq<char>, token: Seq<char>) -> Option<RegistryView> {
    let len = set_len(r, token);
    if r.indexed.contains(account) {
        Some(RegistryView { lens: r.lens.insert(token, len), ..r })
    } else if len == u64::MAX {
        None
    } else {
        Some(
            RegistryView {
                indexed: r.indexed.push(account),
                slots: if len < r.slots.len() {
                    r.slots.update(len as int, account)
                } else {
                    r.slots.push(account)
                },
                lens: r.lens.insert(token, (len + 1) as u64),
            },
        )
    }
}

/// No set is longer than the row of slots.
pub open spec fn lengths_within(slots_len: nat, lens: Map<Seq<char>, u64>) -> bool {
    forall|t: Seq<char>| #[trigger] lens.contains_key(t) ==> lens[t] <= slots_len
}

/// The registrations of all token contracts.
pub struct StorageRegistry {
    indexed: AccountSet,
    slots: Vec<String>,
    lens: LookupTable<String, u64>,
}

impl View for StorageRegistry {
    type V = RegistryView;

    closed spec fn view(&self) -> RegistryView {
        RegistryView { indexed: self.indexed.ids(), slots: self.slots.deep_view(), lens: self.lens.table() }
    }
}

impl StorageRegistry {
    #[verifier::type_invariant]
    closed spec fn slots_cover_sets(self) -> bool {
        lengths_within(self.slots.len() as nat, self.lens.table())
    }

    /// No registration at all.
    pub fn new() -> (r: Self)
        ensures
            r@ == (RegistryView {
                indexed: Seq::empty(),
                slots: Seq::empty(),
                lens: Map::empty(),
            }),
    {
        let slots: Vec<String> = Vec::new();
        let r = StorageRegistry { indexed: AccountSet::new(), slots, lens: LookupTable::new() };
        assert(r@.slots =~= Seq::<Seq<char>>::empty());
        r
    }

    /// The store made of the given parts, if no set is longer than the slots.
    pub fn restore(indexed: AccountSet, slots: Vec<String>, lens: LookupTable<String, u64>) -> (r: Option<Self>)
        ensures
            r is Some <==> lengths_within(slots.len() as nat, lens.table()),
            r matches Some(reg) ==> reg@ == (RegistryView {
                indexed: indexed.ids(),
                slots: slots.deep_view(),
                lens: lens.table(),
            }),
    {
        let entries = lens.entries();
        let mut i: usize = 0;
        while i < entries.len()
            invariant
                i <= entries.len(),
                forall|j: int| 0 <= j < i ==> (#[trigger] entries@[j]).1 <= slots.len(),
                forall|j: int|
                    #![trigger entries@[j]]
                    0 <= j < entries.len() ==> {
                        &&& lens.table().contains_key(entries@[j].0.deep_view())
                        &&& lens.table()[entries@[j].0.deep_view()] == entries@[j].1.deep_view()
                    },
            decreases entries.len() - i,
        {
            if (slots.len() as u64) < entries[i].1 {
                proof {
                    let k = entries@[i as int].0.deep_view();
                    assert(lens.table().contains_key(k));
                    assert(lens.table()[k] > slots.len());
                }
                return None;
            }
            i = i + 1;
        }
        assert forall|t: Seq<char>| #[trigger] lens.table().contains_key(t) implies lens.table()[t] <= slots.len() by {
            let j = choose|j: int| 0 <= j < entries.len() && #[trigger] entries@[j].0.deep_view() == t;
            assert(entries@[j].1 <= slots.len());
        }
        Some(StorageRegistry { indexed, slots, lens })
    }

    /// Whether `account` counts as registered with `token`.
    pub fn is_registered(&self, account: &String, token: &String) -> (found: bool)
        ensures
            found == registered_with(self@, account@, token@),
    {
        self.lens.contains_key(token) && self.indexed.contains(account)
    }

    /// Whether `token` has a set.
    pub fn has_set(&self, token: &String) -> (found: bool)
        ensures
            found == self@.lens.contains_key(token@),
    {
        self.lens.contains_key(token)
    }

    /// The members that `token`'s set lists, which must exist.
    pub fn members(&self, token: &String) -> (list: Vec<String>)
        requires
            self@.lens.contains_key(token@),
        ensures
            list.deep_view() == set_members(self@, token@),
    {
        proof {
            use_type_invariant(self);
        }
        let len: u64 = match self.lens.get(token) {
            Some(l) => *l,
            None => 0,
        };
        assert(len <= self.slots.len());
        let n = len as usize;
        let mut out: Vec<String> = Vec::new();
        let mut i: usize = 0;
        while i < n
            invariant
                i <= n,
                n <= self.slots.len(),
                out.len() == i,
                forall|j: int| 0 <= j < i ==> #[trigger] out@[j]@ == self.slots@[j]@,
            decreases n - i,
        {
            out.push(self.slots[i].clone());
            i = i + 1;
        }
        assert(out.deep_view() =~= set_members(self@, token@));
        out
    }

    /// Registers `account` with `token`; refused only if the token's set cannot grow.
    pub fn register(&mut self, account: String, token: String) -> (done: Result<(), ()>)
        ensures
            match done {
                Ok(_) => register_account(old(self)@, account@, token@) == Some(final(self)@),
                Err(_) => register_account(old(self)@, account@, token@) is None && final(self)@ == old(self)@,
            },
    {
        proof {
            use_type_invariant(&*self);
        }
        let ghost before = self@;
        let ghost token_id = token@;
        let len: u64 = match self.lens.get(&token) {
            Some(l) => *l,
            None => 0,
        };
        assert(len == set_len(before, token_id));
        assert(len <= self.slots.len());
        if !self.indexed.contains(&account) && len == u64::MAX {
            return Err(());
        }
        let mut lens = LookupTable::new();
        std::mem::swap(&mut lens, &mut self.lens);
        let mut slots = Vec::new();
        std::mem::swap(&mut slots, &mut self.slots);
        let mut indexed = AccountSet::new();
        std::mem::swap(&mut indexed, &mut self.indexed);
        let ghost slots_before = slots.deep_view();
        if indexed.contains(&account) {
            lens.insert(token, len);
        } else {
            let at = len as usize;
            if at < slots.len() {
                slots.set(at, account.clone());
                assert(slots.deep_view() =~= slots_before.update(at as int, account@));
            } else {
                slots.push(account.clone());
                assert(slots.deep_view() =~= slots_before.push(account@));
            }
            indexed.insert(account);
            lens.insert(token, len + 1);
        }
        proof {
            let expected = register_account(before, account@, token_id)->Some_0;
            assert(slots.deep_view() == expected.slots);
            assert(indexed.ids() == expected.indexed);
            assert(lens.table() =~= expected.lens);
            assert forall|t: Seq<char>| #[trigger] lens.table().contains_key(t) implies lens.table()[t] <= slots.len() by {
                if t != token_id {
                    assert(before.lens.contains_key(t));
                }
            }
        }
        self.indexed = indexed;
        self.slots = slots;
        self.lens = lens;
        proof {
            assert(self@ =~= register_account(before, account@, token_id)->Some_0);
        }
        Ok(())
    }

    /// The accounts ever taken in, in order.
    pub fn indexed(&self) -> (set: &AccountSet)
        ensures
            set.ids() == self@.indexed,
    {
        &self.indexed
    }

    /// The row of slots.
    pub fn slots(&self) -> (list: &Vec<String>)
        ensures
            list.deep_view() == self@.slots,
    {
        &self.slots
    }

    /// The length of each token's set.
    pub fn lengths(&self) -> (lens: &LookupTable<String, u64>)
        ensures
            lens.table() == self@.lens,
    {
        &self.lens
    }
}

impl DeepView for StorageRegistry {
    type V = RegistryView;

    open spec fn deep_view(&self) -> RegistryView {
        self@
    }
}

} // verus!
