//! Storage collections of the contract: a map keyed by account address and
//! insertion-ordered sets with swap-removal, the way the contract's storage
//! keeps its lists of subscribers and of service ids.
use vstd::prelude::*;
use crate::types::{Address, Subscription, SubscriptionView};

verus! {

/// The set after inserting `x`: unchanged when `x` is present, otherwise
/// `x` appended at the end.
pub open spec fn set_inserted<T>(s: Seq<T>, x: T) -> Seq<T> {
    if s.contains(x) {
        s
    } else {
        s.push(x)
    }
}

/// The set after swap-removing `x`: the last element takes the place of `x`
/// and the sequence shrinks by one; unchanged when `x` is absent.
pub open spec fn set_removed<T>(s: Seq<T>, x: T) -> Seq<T> {
    if s.contains(x) {
        s.update(s.index_of(x), s.last()).drop_last()
    } else {
        s
    }
}

/// In a sequence without duplicates, the position of an element is the
/// index at which it occurs.
pub proof fn lemma_index_of_unique<T>(s: Seq<T>, i: int)
    requires
        s.no_duplicates(),
        0 <= i < s.len(),
    ensures
        s.contains(s[i]),
        s.index_of(s[i]) == i,
{
    assert(s.contains(s[i]));
    let j = s.index_of(s[i]);
    assert(0 <= j < s.len() && s[j] == s[i]);
}

/// Swap-removal keeps a duplicate-free sequence duplicate-free and removes
/// exactly the given element.
pub proof fn lemma_set_removed_props<T>(s: Seq<T>, x: T)
    requires
        s.no_duplicates(),
    ensures
        set_removed(s, x).no_duplicates(),
        !set_removed(s, x).contains(x),
        forall|y: T| y != x ==> (set_removed(s, x).contains(y) <==> s.contains(y)),
        s.contains(x) ==> set_removed(s, x).len() + 1 == s.len(),
{
    if s.contains(x) {
        let i = s.index_of(x);
        let r = set_removed(s, x);
        let n = s.len();
        assert(0 <= i < n && s[i] == x);
        assert(r.len() == n - 1);
        assert forall|a: int| 0 <= a < r.len() implies r[a] == (if a == i { s[n - 1] } else { s[a] }) by {
        }
        assert forall|a: int, b: int| 0 <= a < r.len() && 0 <= b < r.len() && a != b implies r[a]
            != r[b] by {
            if a == i {
                assert(b != n - 1);
            } else if b == i {
                assert(a != n - 1);
            }
        }
        assert forall|a: int| 0 <= a < r.len() implies r[a] != x by {
            if a == i {
                assert(i != n - 1);
            }
        }
        assert forall|y: T| y != x implies (r.contains(y) <==> s.contains(y)) by {
            if s.contains(y) {
                let k = s.index_of(y);
                assert(k != i);
                if k == n - 1 {
                    assert(r[i] == y);
                } else {
                    assert(r[k] == y);
                }
            }
            if r.contains(y) {
                let k = choose|k: int| 0 <= k < r.len() && r[k] == y;
                if k == i {
                    assert(s[n - 1] == y);
                } else {
                    assert(s[k] == y);
                }
            }
        }
    }
}

/// Insertion keeps a duplicate-free sequence duplicate-free.
pub proof fn lemma_set_inserted_props<T>(s: Seq<T>, x: T)
    requires
        s.no_duplicates(),
    ensures
        set_inserted(s, x).no_duplicates(),
        set_inserted(s, x).contains(x),
        forall|y: T| y != x ==> (set_inserted(s, x).contains(y) <==> s.contains(y)),
{
    let r = set_inserted(s, x);
    if !s.contains(x) {
        assert(r[s.len() as int] == x);
        assert forall|y: T| y != x implies (r.contains(y) <==> s.contains(y)) by {
            if s.contains(y) {
                let k = s.index_of(y);
                assert(r[k] == y);
            }
            if r.contains(y) {
                let k = choose|k: int| 0 <= k < r.len() && r[k] == y;
                assert(s[k] == y);
            }
        }
    } else {
        let k = s.index_of(x);
        assert(r[k] == x);
    }
}

/// Inserts an address into an insertion-ordered set. Returns whether it was
/// absent.
pub fn address_set_insert(set: &mut Vec<Address>, a: Address) -> (inserted: bool)
    requires
        old(set)@.no_duplicates(),
    ensures
        final(set)@ == set_inserted(old(set)@, a),
        final(set)@.no_duplicates(),
        inserted == !old(set)@.contains(a),
{
    proof {
        lemma_set_inserted_props(set@, a);
    }
    let mut i: usize = 0;
    while i < set.len()
        invariant
            set@ == old(set)@,
            old(set)@.no_duplicates(),
            i <= set.len(),
            forall|j: int| 0 <= j < i ==> set@[j] != a,
        decreases set.len() - i,
    {
        if set[i] == a {
            return false;
        }
        i = i + 1;
    }
    set.push(a);
    true
}

/// Swap-removes an address from an insertion-ordered set. Returns whether
/// it was present.
pub fn address_set_swap_remove(set: &mut Vec<Address>, a: &Address) -> (removed: bool)
    requires
        old(set)@.no_duplicates(),
    ensures
        final(set)@ == set_removed(old(set)@, *a),
        final(set)@.no_duplicates(),
        removed == old(set)@.contains(*a),
{
    proof {
        lemma_set_removed_props(set@, *a);
    }
    let mut i: usize = 0;
    while i < set.len()
        invariant
            set@ == old(set)@,
            old(set)@.no_duplicates(),
            i <= set.len(),
            forall|j: int| 0 <= j < i ==> set@[j] != *a,
        decreases set.len() - i,
    {
        if set[i] == *a {
            proof {
                lemma_index_of_unique(set@, i as int);
            }
            let _ = set.swap_remove(i);
            return true;
        }
        i = i + 1;
    }
    false
}

/// Inserts an id into an insertion-ordered set. Returns whether it was
/// absent.
pub fn id_set_insert(set: &mut Vec<u64>, id: u64) -> (inserted: bool)
    requires
        old(set)@.no_duplicates(),
    ensures
        final(set)@ == set_inserted(old(set)@, id),
        final(set)@.no_duplicates(),
        inserted == !old(set)@.contains(id),
{
    proof {
        lemma_set_inserted_props(set@, id);
    }
    let mut i: usize = 0;
    while i < set.len()
        invariant
            set@ == old(set)@,
            old(set)@.no_duplicates(),
            i <= set.len(),
            forall|j: int| 0 <= j < i ==> set@[j] != id,
        decreases set.len() - i,
    {
        if set[i] == id {
            return false;
        }
        i = i + 1;
    }
    set.push(id);
    true
}

/// Swap-removes an id from an insertion-ordered set. Returns whether it was
/// present.
pub fn id_set_swap_remove(set: &mut Vec<u64>, id: u64) -> (removed: bool)
    requires
        old(set)@.no_duplicates(),
    ensures
        final(set)@ == set_removed(old(set)@, id),
        final(set)@.no_duplicates(),
        removed == old(set)@.contains(id),
{
    proof {
        lemma_set_removed_props(set@, id);
    }
    let mut i: usize = 0;
    while i < set.len()
        invariant
            set@ == old(set)@,
            old(set)@.no_duplicates(),
            i <= set.len(),
            forall|j: int| 0 <= j < i ==> set@[j] != id,
        decreases set.len() - i,
    {
        if set[i] == id {
            proof {
                lemma_index_of_unique(set@, i as int);
            }
            let _ = set.swap_remove(i);
            return true;
        }
        i = i + 1;
    }
    false
}

/// Copies a list of ids.
pub fn copy_ids(ids: &Vec<u64>) -> (res: Vec<u64>)
    ensures
        res@ == ids@,
{
    let mut res: Vec<u64> = Vec::new();
    let mut i: usize = 0;
    while i < ids.len()
        invariant
            i <= ids.len(),
            res@ == ids@.subrange(0, i as int),
        decreases ids.len() - i,
    {
        res.push(ids[i]);
        i = i + 1;
        assert(res@ =~= ids@.subrange(0, i as int));
    }
    assert(res@ =~= ids@);
    res
}

/// Copies a list of addresses.
pub fn copy_addresses(addrs: &Vec<Address>) -> (res: Vec<Address>)
    ensures
        res@ == addrs@,
{
    let mut res: Vec<Address> = Vec::new();
    let mut i: usize = 0;
    while i < addrs.len()
        invariant
            i <= addrs.len(),
            res@ == addrs@.subrange(0, i as int),
        decreases addrs.len() - i,
    {
        res.push(addrs[i]);
        i = i + 1;
        assert(res@ =~= addrs@.subrange(0, i as int));
    }
    assert(res@ =~= addrs@);
    res
}

/// Distinct addresses in a list of entries.
pub open spec fn entries_unique<V>(e: Seq<(Address, V)>) -> bool {
    forall|i: int, j: int| 0 <= i < e.len() && 0 <= j < e.len() && i != j ==> e[i].0 != e[j].0
}

/// The map that a list of entries with distinct addresses stands for.
pub open spec fn entries_map<V>(e: Seq<(Address, V)>) -> Map<Address, V> {
    Map::new(
        |a: Address| exists|i: int| 0 <= i < e.len() && e[i].0 == a,
        |a: Address| e[choose|i: int| 0 <= i < e.len() && e[i].0 == a].1,
    )
}

/// In a list with distinct addresses, each entry is what its map holds.
pub proof fn lemma_entries_map_at<V>(e: Seq<(Address, V)>, i: int)
    requires
        entries_unique(e),
        0 <= i < e.len(),
    ensures
        entries_map(e).contains_key(e[i].0),
        entries_map(e)[e[i].0] == e[i].1,
{
    let a = e[i].0;
    assert(exists|k: int| 0 <= k < e.len() && e[k].0 == a);
    let j = choose|k: int| 0 <= k < e.len() && e[k].0 == a;
    assert(j == i);
}

/// A map from account addresses to values, kept as a list of entries with
/// distinct addresses.
pub struct AddressMap<V> {
    entries: Vec<(Address, V)>,
}

impl<V> AddressMap<V> {
    /// Distinct addresses.
    pub closed spec fn wf(&self) -> bool {
        forall|i: int, j: int|
            0 <= i < self.entries@.len() && 0 <= j < self.entries@.len() && i != j
                ==> self.entries@[i].0 != self.entries@[j].0
    }

    closed spec fn has_key(&self, a: Address) -> bool {
        exists|i: int| 0 <= i < self.entries@.len() && self.entries@[i].0 == a
    }

    closed spec fn key_index(&self, a: Address) -> int {
        choose|i: int| 0 <= i < self.entries@.len() && self.entries@[i].0 == a
    }

    pub closed spec fn map(&self) -> Map<Address, V> {
        Map::new(|a: Address| self.has_key(a), |a: Address| self.entries@[self.key_index(a)].1)
    }

    proof fn lemma_key_index(&self, i: int)
        requires
            self.wf(),
            0 <= i < self.entries@.len(),
        ensures
            self.has_key(self.entries@[i].0),
            self.key_index(self.entries@[i].0) == i,
            self.map().contains_key(self.entries@[i].0),
            self.map()[self.entries@[i].0] == self.entries@[i].1,
    {
        let a = self.entries@[i].0;
        assert(self.has_key(a));
        let j = self.key_index(a);
        assert(0 <= j < self.entries@.len() && self.entries@[j].0 == a);
    }

    proof fn lemma_entries(&self)
        ensures
            self.wf() == entries_unique(self.entries@),
            self.map() == entries_map(self.entries@),
    {
        assert(self.map() =~= entries_map(self.entries@));
    }

    /// The entries of the map, with distinct addresses.
    pub fn entries_ref(&self) -> (res: &Vec<(Address, V)>)
        requires
            self.wf(),
        ensures
            entries_unique(res@),
            entries_map(res@) == self.map(),
    {
        proof {
            self.lemma_entries();
        }
        &self.entries
    }

    /// The entries of the map, with distinct addresses.
    pub fn into_entries(self) -> (res: Vec<(Address, V)>)
        requires
            self.wf(),
        ensures
            entries_unique(res@),
            entries_map(res@) == self.map(),
    {
        proof {
            self.lemma_entries();
        }
        self.entries
    }

    /// The map of a list of entries; `None` when two entries share an
    /// address.
    pub fn from_entries(entries: Vec<(Address, V)>) -> (res: Option<Self>)
        ensures
            res is Some <==> entries_unique(entries@),
            res matches Some(m) ==> m.wf() && m.map() == entries_map(entries@),
    {
        let mut i: usize = 0;
        while i < entries.len()
            invariant
                i <= entries@.len(),
                forall|x: int, y: int| 0 <= x < i && 0 <= y < i && x != y ==> entries@[x].0 != entries@[y].0,
            decreases entries@.len() - i,
        {
            let mut j: usize = 0;
            while j < i
                invariant
                    i < entries@.len(),
                    j <= i,
                    forall|y: int| 0 <= y < j ==> entries@[y].0 != entries@[i as int].0,
                decreases i - j,
            {
                if entries[j].0 == entries[i].0 {
                    return None;
                }
                j = j + 1;
            }
            i = i + 1;
        }
        let res = AddressMap { entries };
        proof {
            res.lemma_entries();
        }
        Some(res)
    }

    /// An empty map.
    pub fn new() -> (res: Self)
        ensures
            res.wf(),
            res.map() == Map::<Address, V>::empty(),
    {
        let res = AddressMap { entries: Vec::new() };
        assert(res.map() =~= Map::<Address, V>::empty());
        res
    }

    fn find(&self, a: &Address) -> (res: Option<usize>)
        requires
            self.wf(),
        ensures
            match res {
                Some(i) => i < self.entries@.len() && self.entries@[i as int].0 == *a
                    && self.key_index(*a) == i,
                None => !self.has_key(*a),
            },
    {
        let mut i: usize = 0;
        while i < self.entries.len()
            invariant
                self.wf(),
                i <= self.entries@.len(),
                forall|j: int| 0 <= j < i ==> self.entries@[j].0 != *a,
            decreases self.entries@.len() - i,
        {
            if self.entries[i].0 == *a {
                proof {
                    self.lemma_key_index(i as int);
                }
                return Some(i);
            }
            i = i + 1;
        }
        None
    }

    /// The value stored for an address, if any.
    pub fn get(&self, a: &Address) -> (res: Option<&V>)
        requires
            self.wf(),
        ensures
            match res {
                Some(v) => self.map().contains_key(*a) && self.map()[*a] == *v,
                None => !self.map().contains_key(*a),
            },
    {
        match self.find(a) {
            Some(i) => Some(&self.entries[i].1),
            None => None,
        }
    }

    /// Stores `v` for address `a`, replacing any previous value.
    pub fn insert(&mut self, a: Address, v: V)
        requires
            old(self).wf(),
        ensures
            final(self).wf(),
            final(self).map() == old(self).map().insert(a, v),
    {
        let ghost old_self = *self;
        match self.find(&a) {
            Some(i) => {
                self.entries.set(i, (a, v));
                proof {
                    let m = self.map();
                    let om = old_self.map().insert(a, v);
                    assert forall|b: Address| #[trigger] m.contains_key(b) == om.contains_key(b)
                        by {
                        if old_self.has_key(b) {
                            let k = old_self.key_index(b);
                            assert(self.entries@[k].0 == b);
                        }
                        if self.has_key(b) {
                            let k = self.key_index(b);
                            assert(old_self.entries@[k].0 == b);
                        }
                    }
                    assert forall|b: Address| #[trigger] m.contains_key(b) implies m[b] == om[b] by {
                        let k = self.key_index(b);
                        self.lemma_key_index(k);
                        if k != i {
                            old_self.lemma_key_index(k);
                        }
                    }
                    assert(m =~= om);
                }
            },
            None => {
                self.entries.push((a, v));
                proof {
                    let n = old_self.entries@.len() as int;
                    assert forall|x: int, y: int|
                        0 <= x < self.entries@.len() && 0 <= y < self.entries@.len() && x != y
                            implies self.entries@[x].0 != self.entries@[y].0 by {
                        if x == n {
                            assert(old_self.entries@[y].0 != a);
                        } else if y == n {
                            assert(old_self.entries@[x].0 != a);
                        }
                    }
                    let m = self.map();
                    let om = old_self.map().insert(a, v);
                    assert forall|b: Address| #[trigger] m.contains_key(b) == om.contains_key(b)
                        by {
                        if old_self.has_key(b) {
                            let k = old_self.key_index(b);
                            assert(self.entries@[k].0 == b);
                        }
                        if b == a {
                            assert(self.entries@[n].0 == a);
                        }
                        if self.has_key(b) && b != a {
                            let k = self.key_index(b);
                            assert(k != n);
                            assert(old_self.entries@[k].0 == b);
                        }
                    }
                    assert forall|b: Address| #[trigger] m.contains_key(b) implies m[b] == om[b] by {
                        let k = self.key_index(b);
                        self.lemma_key_index(k);
                        if k != n {
                            old_self.lemma_key_index(k);
                        }
                    }
                    assert(m =~= om);
                }
            },
        }
    }

    /// Removes the entry of address `a` and returns its value, if any.
    pub fn remove(&mut self, a: &Address) -> (res: Option<V>)
        requires
            old(self).wf(),
        ensures
            final(self).wf(),
            final(self).map() == old(self).map().remove(*a),
            match res {
                Some(v) => old(self).map().contains_key(*a) && old(self).map()[*a] == v,
                None => !old(self).map().contains_key(*a),
            },
    {
        let ghost old_self = *self;
        match self.find(a) {
            Some(i) => {
                proof {
                    old_self.lemma_key_index(i as int);
                }
                let (_, v) = self.entries.remove(i);
                proof {
                    let n = old_self.entries@.len() as int;
                    assert forall|x: int| 0 <= x < self.entries@.len() implies self.entries@[x] == (
                    if x < i {
                        old_self.entries@[x]
                    } else {
                        old_self.entries@[x + 1]
                    }) by {}
                    assert forall|x: int, y: int|
                        0 <= x < self.entries@.len() && 0 <= y < self.entries@.len() && x != y
                            implies self.entries@[x].0 != self.entries@[y].0 by {
                        let ox = if x < i { x } else { x + 1 };
                        let oy = if y < i { y } else { y + 1 };
                        assert(old_self.entries@[ox].0 != old_self.entries@[oy].0);
                    }
                    let m = self.map();
                    let om = old_self.map().remove(*a);
                    assert forall|b: Address| #[trigger] m.contains_key(b) == om.contains_key(b)
                        by {
                        if self.has_key(b) {
                            let k = self.key_index(b);
                            let ok = if k < i { k } else { k + 1 };
                            assert(old_self.entries@[ok].0 == b);
                            assert(ok != i);
                        }
                        if old_self.has_key(b) && b != *a {
                            let k = old_self.key_index(b);
                            assert(k != i);
                            let nk = if k < i { k } else { k - 1 };
                            assert(self.entries@[nk].0 == b);
                        }
                    }
                    assert forall|b: Address| #[trigger] m.contains_key(b) implies m[b] == om[b] by {
                        let k = self.key_index(b);
                        self.lemma_key_index(k);
                        let ok = if k < i { k } else { k + 1 };
                        old_self.lemma_key_index(ok);
                    }
                    assert(m =~= om);
                }
                Some(v)
            },
            None => {
                assert(old_self.map().remove(*a) =~= old_self.map());
                None
            },
        }
    }
}

/// Views of the subscriptions in a map.
pub open spec fn subscription_views(m: Map<Address, Subscription>) -> Map<Address, SubscriptionView> {
    m.map_values(|s: Subscription| s@)
}

impl AddressMap<Subscription> {
    /// A copy holding subscriptions with the same views.
    pub fn copy(&self) -> (res: AddressMap<Subscription>)
        requires
            self.wf(),
        ensures
            res.wf(),
            subscription_views(res.map()) == subscription_views(self.map()),
    {
        let mut entries: Vec<(Address, Subscription)> = Vec::new();
        let mut i: usize = 0;
        while i < self.entries.len()
            invariant
                self.wf(),
                i <= self.entries@.len(),
                entries@.len() == i,
                forall|j: int|
                    #![trigger entries@[j]]
                    0 <= j < i ==> entries@[j].0 == self.entries@[j].0 && entries@[j].1@
                        == self.entries@[j].1@,
            decreases self.entries@.len() - i,
        {
            let a = self.entries[i].0;
            let s = self.entries[i].1.copy();
            let ghost prev = entries@;
            entries.push((a, s));
            assert(forall|j: int| 0 <= j < i ==> entries@[j] == prev[j]);
            i = i + 1;
        }
        let res = AddressMap { entries };
        proof {
            assert forall|x: int, y: int|
                0 <= x < res.entries@.len() && 0 <= y < res.entries@.len() && x != y
                    implies res.entries@[x].0 != res.entries@[y].0 by {
                assert(self.entries@[x].0 == res.entries@[x].0);
                assert(self.entries@[y].0 == res.entries@[y].0);
            }
            let rv = subscription_views(res.map());
            let sv = subscription_views(self.map());
            assert forall|b: Address| #[trigger] rv.contains_key(b) == sv.contains_key(b) by {
                if res.has_key(b) {
                    let k = res.key_index(b);
                    assert(self.entries@[k].0 == b);
                }
                if self.has_key(b) {
                    let k = self.key_index(b);
                    assert(res.entries@[k].0 == b);
                }
            }
            assert forall|b: Address| #[trigger] rv.contains_key(b) implies rv[b] == sv[b] by {
                let k = res.key_index(b);
                res.lemma_key_index(k);
                assert(self.entries@[k].0 == b);
                self.lemma_key_index(k);
            }
            assert(rv =~= sv);
        }
        res
    }
}

} // verus!
