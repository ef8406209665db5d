//! The table of accounts, kept in the order of their keys with each key at
//! most once, seen as a map from keys to accounts.
use vstd::prelude::*;

use crate::account::{Account, AccountKey, AccountView};
use crate::order::{key_before, lemma_key_irreflexive, lemma_key_total, lemma_key_transitive};
use crate::proto::IdView;

verus! {

/// The map that a list of (key, account) pairs stands for: later pairs win.
pub open spec fn pairs_map(s: Seq<(IdView, AccountView)>) -> Map<IdView, AccountView>
    decreases s.len(),
{
    if s.len() == 0 {
        Map::empty()
    } else {
        pairs_map(s.drop_last()).insert(s.last().0, s.last().1)
    }
}

/// No key occurs twice.
pub open spec fn distinct_keys(s: Seq<(IdView, AccountView)>) -> bool {
    forall|i: int, j: int| 0 <= i < s.len() && 0 <= j < s.len() && i != j ==> s[i].0 != s[j].0
}

/// The keys come in strictly increasing order.
pub open spec fn sorted_keys(s: Seq<(IdView, AccountView)>) -> bool {
    forall|i: int, j: int|
        #![trigger s[i], s[j]]
        0 <= i < j < s.len() ==> key_before(s[i].0, s[j].0)
}

/// Keys in strictly increasing order are distinct.
pub proof fn lemma_sorted_keys_distinct(s: Seq<(IdView, AccountView)>)
    requires
        sorted_keys(s),
    ensures
        distinct_keys(s),
{
    assert forall|i: int, j: int| 0 <= i < s.len() && 0 <= j < s.len() && i != j implies s[i].0
        != s[j].0 by {
        lemma_key_irreflexive(s[i].0);
        if i < j {
            assert(key_before(s[i].0, s[j].0));
        } else {
            assert(key_before(s[j].0, s[i].0));
        }
    }
}

/// The pairs of a vector as plain values.
pub open spec fn pairs_view(v: Seq<(AccountKey, Account)>) -> Seq<(IdView, AccountView)> {
    v.map_values(|p: (AccountKey, Account)| (p.0@, p.1@))
}

/// The keys of a pair list are the keys of its map.
pub proof fn lemma_pairs_map_dom(s: Seq<(IdView, AccountView)>, k: IdView)
    ensures
        pairs_map(s).contains_key(k) <==> exists|i: int| 0 <= i < s.len() && #[trigger] s[i].0 == k,
    decreases s.len(),
{
    if s.len() > 0 {
        lemma_pairs_map_dom(s.drop_last(), k);
        if pairs_map(s.drop_last()).contains_key(k) {
            let i = choose|i: int| 0 <= i < s.drop_last().len() && #[trigger] s.drop_last()[i].0 == k;
            assert(s[i].0 == k);
        }
        if exists|i: int| 0 <= i < s.len() && #[trigger] s[i].0 == k {
            let i = choose|i: int| 0 <= i < s.len() && #[trigger] s[i].0 == k;
            if i < s.len() - 1 {
                assert(s.drop_last()[i].0 == k);
            }
        }
    }
}

/// With distinct keys, the map has one key per pair.
pub proof fn lemma_pairs_map_len(s: Seq<(IdView, AccountView)>)
    requires
        distinct_keys(s),
    ensures
        pairs_map(s).dom().finite(),
        pairs_map(s).dom().len() == s.len(),
    decreases s.len(),
{
    if s.len() > 0 {
        let t = s.drop_last();
        assert(distinct_keys(t)) by {
            assert forall|a: int, b: int|
                0 <= a < t.len() && 0 <= b < t.len() && a != b implies t[a].0 != t[b].0 by {
                assert(t[a] == s[a] && t[b] == s[b]);
            }
        }
        lemma_pairs_map_len(t);
        lemma_pairs_map_dom(t, s.last().0);
        if pairs_map(t).contains_key(s.last().0) {
            let j = choose|j: int| 0 <= j < t.len() && #[trigger] t[j].0 == s.last().0;
            assert(t[j] == s[j]);
        }
        assert(pairs_map(s).dom() =~= pairs_map(t).dom().insert(s.last().0));
    }
}

/// With distinct keys, the map holds what the pair with the key holds.
pub proof fn lemma_pairs_map_value(s: Seq<(IdView, AccountView)>, i: int)
    requires
        distinct_keys(s),
        0 <= i < s.len(),
    ensures
        pairs_map(s).contains_key(s[i].0),
        pairs_map(s)[s[i].0] == s[i].1,
    decreases s.len(),
{
    if i < s.len() - 1 {
        let t = s.drop_last();
        assert(distinct_keys(t)) by {
            assert forall|a: int, b: int|
                0 <= a < t.len() && 0 <= b < t.len() && a != b implies t[a].0 != t[b].0 by {
                assert(t[a] == s[a] && t[b] == s[b]);
            }
        }
        lemma_pairs_map_value(t, i);
        assert(t[i] == s[i]);
        assert(s.last().0 != s[i].0);
    }
}

/// Replacing the account of a key that is present updates the map.
pub proof fn lemma_pairs_map_update(s: Seq<(IdView, AccountView)>, i: int, v: AccountView)
    requires
        distinct_keys(s),
        0 <= i < s.len(),
    ensures
        pairs_map(s.update(i, (s[i].0, v))) =~= pairs_map(s).insert(s[i].0, v),
    decreases s.len(),
{
    let u = s.update(i, (s[i].0, v));
    if i == s.len() - 1 {
        assert(u.drop_last() =~= s.drop_last());
    } else {
        let t = s.drop_last();
        assert(distinct_keys(t)) by {
            assert forall|a: int, b: int|
                0 <= a < t.len() && 0 <= b < t.len() && a != b implies t[a].0 != t[b].0 by {
                assert(t[a] == s[a] && t[b] == s[b]);
            }
        }
        lemma_pairs_map_update(t, i, v);
        assert(u.drop_last() =~= t.update(i, (t[i].0, v)));
        assert(s.last().0 != s[i].0);
    }
}

/// Removing the pair of a key removes the key from the map.
pub proof fn lemma_pairs_map_remove(s: Seq<(IdView, AccountView)>, i: int)
    requires
        distinct_keys(s),
        0 <= i < s.len(),
    ensures
        pairs_map(s.remove(i)) =~= pairs_map(s).remove(s[i].0),
    decreases s.len(),
{
    let t = s.drop_last();
    assert(distinct_keys(t)) by {
        assert forall|a: int, b: int|
            0 <= a < t.len() && 0 <= b < t.len() && a != b implies t[a].0 != t[b].0 by {
            assert(t[a] == s[a] && t[b] == s[b]);
        }
    }
    if i == s.len() - 1 {
        assert(s.remove(i) =~= t);
        lemma_pairs_map_dom(t, s[i].0);
        if pairs_map(t).contains_key(s[i].0) {
            let j = choose|j: int| 0 <= j < t.len() && #[trigger] t[j].0 == s[i].0;
            assert(t[j] == s[j]);
        }
        assert(pairs_map(s) == pairs_map(t).insert(s[i].0, s[i].1));
        assert(pairs_map(t) =~= pairs_map(t).insert(s[i].0, s[i].1).remove(s[i].0));
    } else {
        lemma_pairs_map_remove(t, i);
        let r = t.remove(i).push(s.last());
        assert(s.remove(i) =~= r);
        assert(r.drop_last() =~= t.remove(i));
        assert(pairs_map(r) == pairs_map(t.remove(i)).insert(s.last().0, s.last().1));
        assert(s.last().0 != s[i].0);
        assert(pairs_map(s) == pairs_map(t).insert(s.last().0, s.last().1));
        assert(pairs_map(r) =~= pairs_map(s).remove(s[i].0));
    }
}

/// Putting in a pair whose key is absent adds the key to the map, wherever
/// the pair goes.
pub proof fn lemma_pairs_map_insert(s: Seq<(IdView, AccountView)>, p: int, x: (IdView, AccountView))
    requires
        0 <= p <= s.len(),
        !pairs_map(s).contains_key(x.0),
    ensures
        pairs_map(s.insert(p, x)) =~= pairs_map(s).insert(x.0, x.1),
    decreases s.len(),
{
    if p == s.len() {
        assert(s.insert(p, x) =~= s.push(x));
        assert(s.push(x).drop_last() =~= s);
    } else {
        let t = s.drop_last();
        let r = t.insert(p, x).push(s.last());
        assert(s.insert(p, x) =~= r);
        assert(r.drop_last() =~= t.insert(p, x));
        assert(pairs_map(s) == pairs_map(t).insert(s.last().0, s.last().1));
        lemma_pairs_map_insert(t, p, x);
        assert(s.last().0 != x.0);
    }
}

/// The accounts of the ledger in the order of their keys, each key once.
pub struct AccountTable {
    entries: Vec<(AccountKey, Account)>,
}

impl View for AccountTable {
    type V = Map<IdView, AccountView>;

    closed spec fn view(&self) -> Map<IdView, AccountView> {
        pairs_map(pairs_view(self.entries@))
    }
}

impl AccountTable {
    #[verifier::type_invariant]
    closed spec fn wf(self) -> bool {
        sorted_keys(pairs_view(self.entries@))
    }

    /// The table with no accounts.
    pub fn new() -> (r: AccountTable)
        ensures
            r@ == Map::<IdView, AccountView>::empty(),
    {
        let r = AccountTable { entries: Vec::new() };
        assert(pairs_view(r.entries@) =~= Seq::empty());
        r
    }

    /// The pairs of the table in the order of their keys, each key once.
    pub fn entries(&self) -> (r: &Vec<(AccountKey, Account)>)
        ensures
            pairs_map(pairs_view(r@)) == self@,
            sorted_keys(pairs_view(r@)),
            distinct_keys(pairs_view(r@)),
    {
        proof {
            use_type_invariant(self);
            lemma_sorted_keys_distinct(pairs_view(self.entries@));
        }
        &self.entries
    }

    /// How many accounts the table holds.
    pub fn len(&self) -> (r: usize)
        ensures
            self@.dom().finite(),
            r == self@.dom().len(),
    {
        proof {
            use_type_invariant(self);
            lemma_sorted_keys_distinct(pairs_view(self.entries@));
            lemma_pairs_map_len(pairs_view(self.entries@));
        }
        self.entries.len()
    }

    /// Whether the table holds no account.
    pub fn is_empty(&self) -> (r: bool)
        ensures
            r == (self@ =~= Map::<IdView, AccountView>::empty()),
    {
        proof {
            let s = pairs_view(self.entries@);
            if s.len() > 0 {
                lemma_pairs_map_dom(s, s[0].0);
                assert(self@.contains_key(s[0].0));
            }
        }
        self.entries.len() == 0
    }

    /// Where the pair of a key is (`Ok`), or where it would go (`Err`): every
    /// key before that place comes before it, every key from there on after.
    fn find(&self, key: &AccountKey) -> (r: Result<usize, usize>)
        ensures
            match r {
                Ok(i) => i < self.entries@.len() && self.entries@[i as int].0@ == key@,
                Err(p) => {
                    &&& p <= self.entries@.len()
                    &&& !self@.contains_key(key@)
                    &&& forall|j: int|
                        0 <= j < p ==> key_before(#[trigger] self.entries@[j].0@, key@)
                    &&& forall|j: int|
                        p <= j < self.entries@.len() ==> key_before(
                            key@,
                            #[trigger] self.entries@[j].0@,
                        )
                },
            },
    {
        proof {
            use_type_invariant(self);
        }
        let ghost s = pairs_view(self.entries@);
        let ghost k = key@;
        let mut lo: usize = 0;
        let mut hi: usize = self.entries.len();
        while lo < hi
            invariant
                lo <= hi <= self.entries@.len(),
                s == pairs_view(self.entries@),
                k == key@,
                sorted_keys(s),
                forall|j: int| 0 <= j < lo ==> key_before(#[trigger] s[j].0, k),
                forall|j: int| hi <= j < s.len() ==> !key_before(#[trigger] s[j].0, k),
            decreases hi - lo,
        {
            let mid = lo + (hi - lo) / 2;
            let before = self.entries[mid].0.precedes(key);
            proof {
                assert(s[mid as int].0 == self.entries@[mid as int].0@);
            }
            if before {
                proof {
                    assert forall|j: int| 0 <= j < mid + 1 implies key_before(#[trigger] s[j].0, k) by {
                        if j < mid {
                            assert(key_before(s[j].0, s[mid as int].0));
                            lemma_key_transitive(s[j].0, s[mid as int].0, k);
                        }
                    }
                }
                lo = mid + 1;
            } else {
                proof {
                    assert forall|j: int| mid <= j < s.len() implies !key_before(#[trigger] s[j].0, k) by {
                        if j > mid && key_before(s[j].0, k) {
                            assert(key_before(s[mid as int].0, s[j].0));
                            lemma_key_transitive(s[mid as int].0, s[j].0, k);
                        }
                    }
                }
                hi = mid;
            }
        }
        if lo < self.entries.len() && self.entries[lo].0.same(key) {
            return Ok(lo);
        }
        proof {
            assert forall|j: int| lo <= j < s.len() implies key_before(k, #[trigger] s[j].0) by {
                if j == lo {
                    assert(s[j].0 == self.entries@[j].0@);
                } else {
                    assert(key_before(s[lo as int].0, s[j].0));
                    if s[j].0 == k {
                        assert(key_before(s[lo as int].0, k));
                    }
                }
                lemma_key_total(k, s[j].0);
            }
            assert forall|j: int| 0 <= j < s.len() implies #[trigger] s[j].0 != k by {
                lemma_key_irreflexive(k);
                if j < lo {
                    assert(key_before(s[j].0, k));
                } else {
                    assert(key_before(k, s[j].0));
                }
            }
            lemma_pairs_map_dom(s, k);
            assert forall|j: int| 0 <= j < lo implies key_before(
                #[trigger] self.entries@[j].0@,
                key@,
            ) by {
                assert(s[j].0 == self.entries@[j].0@);
            }
            assert forall|j: int| lo <= j < self.entries@.len() implies key_before(
                key@,
                #[trigger] self.entries@[j].0@,
            ) by {
                assert(s[j].0 == self.entries@[j].0@);
            }
        }
        Err(lo)
    }

    /// Whether the table holds an account for the key.
    pub fn contains_key(&self, key: &AccountKey) -> (r: bool)
        ensures
            r == self@.contains_key(key@),
    {
        match self.find(key) {
            Ok(i) => {
                proof {
                    use_type_invariant(self);
                    lemma_sorted_keys_distinct(pairs_view(self.entries@));
                    lemma_pairs_map_value(pairs_view(self.entries@), i as int);
                }
                true
            },
            Err(_) => false,
        }
    }

    /// The account of a key, if the table holds one.
    pub fn get(&self, key: &AccountKey) -> (r: Option<&Account>)
        ensures
            match r {
                Some(a) => self@.contains_key(key@) && a@ == self@[key@],
                None => !self@.contains_key(key@),
            },
    {
        match self.find(key) {
            Ok(i) => {
                proof {
                    use_type_invariant(self);
                    lemma_sorted_keys_distinct(pairs_view(self.entries@));
                    lemma_pairs_map_value(pairs_view(self.entries@), i as int);
                }
                Some(&self.entries[i].1)
            },
            Err(_) => None,
        }
    }

    /// Gives the key the account, replacing any it had.
    pub fn insert(&mut self, key: AccountKey, account: Account)
        ensures
            final(self)@ == old(self)@.insert(key@, account@),
    {
        proof {
            use_type_invariant(&*self);
            lemma_sorted_keys_distinct(pairs_view(self.entries@));
        }
        let ghost before = pairs_view(self.entries@);
        let ghost k = key@;
        let ghost v = account@;
        match self.find(&key) {
            Ok(i) => {
                let mut entries: Vec<(AccountKey, Account)> = Vec::new();
                std::mem::swap(&mut entries, &mut self.entries);
                entries.set(i, (key, account));
                proof {
                    let after = pairs_view(entries@);
                    assert(after =~= before.update(i as int, (before[i as int].0, v)));
                    lemma_pairs_map_update(before, i as int, v);
                    assert forall|a: int, b: int|
                        #![trigger after[a], after[b]]
                        0 <= a < b < after.len() implies key_before(after[a].0, after[b].0) by {
                        assert(before[a].0 == after[a].0);
                        assert(before[b].0 == after[b].0);
                    }
                }
                self.entries = entries;
            },
            Err(p) => {
                let mut entries: Vec<(AccountKey, Account)> = Vec::new();
                std::mem::swap(&mut entries, &mut self.entries);
                entries.insert(p, (key, account));
                proof {
                    let after = pairs_view(entries@);
                    assert(after =~= before.insert(p as int, (k, v)));
                    lemma_pairs_map_insert(before, p as int, (k, v));
                    assert forall|j: int| 0 <= j < p implies key_before(#[trigger] before[j].0, k) by {
                        assert(before[j].0 == old(self).entries@[j].0@);
                    }
                    assert forall|j: int| p <= j < before.len() implies key_before(
                        k,
                        #[trigger] before[j].0,
                    ) by {
                        assert(before[j].0 == old(self).entries@[j].0@);
                    }
                    assert forall|a: int, b: int|
                        #![trigger after[a], after[b]]
                        0 <= a < b < after.len() implies key_before(after[a].0, after[b].0) by {
                        if b < p {
                            assert(after[a] == before[a] && after[b] == before[b]);
                        } else if b == p {
                            assert(after[a] == before[a]);
                        } else if a < p {
                            assert(after[a] == before[a] && after[b] == before[b - 1]);
                        } else if a == p {
                            assert(after[b] == before[b - 1]);
                        } else {
                            assert(after[a] == before[a - 1] && after[b] == before[b - 1]);
                        }
                    }
                }
                self.entries = entries;
            },
        }
    }

    /// Sets the balance of the key's account, keeping its owner; a key with no
    /// account gets one with `owner`.
    pub fn set_balance(&mut self, key: &AccountKey, balance: i64, owner: &Option<String>)
        ensures
            final(self)@ == old(self)@.insert(
                key@,
                AccountView {
                    balance,
                    owner: if old(self)@.contains_key(key@) {
                        old(self)@[key@].owner
                    } else {
                        crate::account::text_option(*owner)
                    },
                },
            ),
    {
        let owner = match self.get(key) {
            Some(existing) => crate::account::copy_text_option(&existing.owner),
            None => crate::account::copy_text_option(owner),
        };
        self.insert(key.clone(), Account { balance, owner });
    }

    /// Closes the key's account, if it has one.
    pub fn remove(&mut self, key: &AccountKey)
        ensures
            final(self)@ == old(self)@.remove(key@),
    {
        proof {
            use_type_invariant(&*self);
            lemma_sorted_keys_distinct(pairs_view(self.entries@));
        }
        let ghost before = pairs_view(self.entries@);
        match self.find(key) {
            Ok(i) => {
                let mut entries: Vec<(AccountKey, Account)> = Vec::new();
                std::mem::swap(&mut entries, &mut self.entries);
                entries.remove(i);
                proof {
                    let after = pairs_view(entries@);
                    assert(after =~= before.remove(i as int));
                    lemma_pairs_map_remove(before, i as int);
                    assert forall|a: int, b: int|
                        #![trigger after[a], after[b]]
                        0 <= a < b < after.len() implies key_before(after[a].0, after[b].0) by {
                        let a2 = if a < i {
                            a
                        } else {
                            a + 1
                        };
                        let b2 = if b < i {
                            b
                        } else {
                            b + 1
                        };
                        assert(before[a2] == after[a]);
                        assert(before[b2] == after[b]);
                    }
                }
                self.entries = entries;
            },
            Err(_) => {
                proof {
                    assert(old(self)@.remove(key@) =~= old(self)@);
                }
            },
        }
    }

    /// A table of the same accounts.
    pub fn copy(&self) -> (r: AccountTable)
        ensures
            r@ == self@,
    {
        proof {
            use_type_invariant(self);
        }
        let mut entries: Vec<(AccountKey, Account)> = Vec::new();
        let mut i: usize = 0;
        while i < self.entries.len()
            invariant
                i <= self.entries@.len(),
                entries@.len() == i,
                pairs_view(entries@) == pairs_view(self.entries@).subrange(0, i as int),
            decreases self.entries@.len() - i,
        {
            let k = self.entries[i].0.clone();
            let a = self.entries[i].1.clone();
            assert(k == self.entries@[i as int].0);
            assert(a == self.entries@[i as int].1);
            let ghost before = entries@;
            entries.push((k, a));
            assert(entries@ == before.push(self.entries@[i as int]));
            assert forall|j: int| 0 <= j < i + 1 implies #[trigger] pairs_view(entries@)[j]
                == pairs_view(self.entries@)[j] by {
                if j < i {
                    assert(entries@[j] == before[j]);
                    assert(pairs_view(before)[j] == pairs_view(self.entries@).subrange(0, i as int)[j]);
                }
            }
            assert(pairs_view(entries@) =~= pairs_view(self.entries@).subrange(0, i + 1));
            i = i + 1;
        }
        assert(pairs_view(self.entries@).subrange(0, i as int) =~= pairs_view(self.entries@));
        let r = AccountTable { entries };
        r
    }
}

} // verus!
