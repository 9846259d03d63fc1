use vstd::prelude::*;

verus! {

/// The balance that a sequence of entries assigns to `key`: the value of the
/// first entry carrying that key, or zero when no entry carries it.
pub open spec fn lookup(s: Seq<(u64, u128)>, key: u64) -> u128
    decreases s.len(),
{
    if s.len() == 0 {
        0
    } else if s[0].0 == key {
        s[0].1
    } else {
        lookup(s.drop_first(), key)
    }
}

/// The sum of all balances held by a sequence of entries.
pub open spec fn total(s: Seq<(u64, u128)>) -> int
    decreases s.len(),
{
    if s.len() == 0 {
        0
    } else {
        s[0].1 + total(s.drop_first())
    }
}

/// Whether some entry carries `key`.
pub open spec fn has_key(s: Seq<(u64, u128)>, key: u64) -> bool {
    exists|i: int| 0 <= i < s.len() && s[i].0 == key
}

/// Whether every key occurs in at most one entry.
pub open spec fn keys_distinct(s: Seq<(u64, u128)>) -> bool {
    forall|i: int, j: int| 0 <= i < j < s.len() ==> s[i].0 != s[j].0
}

proof fn lemma_total_nonneg(s: Seq<(u64, u128)>)
    ensures
        total(s) >= 0,
    decreases s.len(),
{
    if s.len() > 0 {
        lemma_total_nonneg(s.drop_first());
    }
}

proof fn lemma_lookup_le_total(s: Seq<(u64, u128)>, key: u64)
    ensures
        lookup(s, key) <= total(s),
        total(s) >= 0,
    decreases s.len(),
{
    lemma_total_nonneg(s);
    if s.len() > 0 {
        if s[0].0 == key {
            lemma_total_nonneg(s.drop_first());
        } else {
            lemma_lookup_le_total(s.drop_first(), key);
        }
    }
}

proof fn lemma_lookup_at_index(s: Seq<(u64, u128)>, i: int)
    requires
        keys_distinct(s),
        0 <= i < s.len(),
    ensures
        lookup(s, s[i].0) == s[i].1,
    decreases s.len(),
{
    if i > 0 {
        assert(keys_distinct(s.drop_first()));
        lemma_lookup_at_index(s.drop_first(), i - 1);
    }
}

proof fn lemma_lookup_absent(s: Seq<(u64, u128)>, key: u64)
    requires
        !has_key(s, key),
    ensures
        lookup(s, key) == 0,
    decreases s.len(),
{
    if s.len() > 0 {
        assert(s[0].0 != key);
        assert(!has_key(s.drop_first(), key)) by {
            if has_key(s.drop_first(), key) {
                let i = choose|i: int| 0 <= i < s.drop_first().len() && s.drop_first()[i].0 == key;
                assert(s[i + 1].0 == key);
            }
        }
        lemma_lookup_absent(s.drop_first(), key);
    }
}

proof fn lemma_update(s: Seq<(u64, u128)>, i: int, value: u128)
    requires
        keys_distinct(s),
        0 <= i < s.len(),
    ensures
        keys_distinct(s.update(i, (s[i].0, value))),
        lookup(s.update(i, (s[i].0, value)), s[i].0) == value,
        forall|k: u64| k != s[i].0 ==> lookup(s.update(i, (s[i].0, value)), k) == lookup(s, k),
        total(s.update(i, (s[i].0, value))) == total(s) - s[i].1 + value,
    decreases s.len(),
{
    let t = s.update(i, (s[i].0, value));
    assert(forall|j: int| 0 <= j < s.len() ==> t[j].0 == s[j].0);
    if i == 0 {
        assert(t.drop_first() =~= s.drop_first());
        assert forall|k: u64| k != s[0].0 implies lookup(t, k) == lookup(s, k) by {
            assert(lookup(t, k) == lookup(t.drop_first(), k));
            assert(lookup(s, k) == lookup(s.drop_first(), k));
        }
    } else {
        assert(t.drop_first() =~= s.drop_first().update(i - 1, (s[i].0, value)));
        assert(keys_distinct(s.drop_first()));
        lemma_update(s.drop_first(), i - 1, value);
        assert(s[0].0 != s[i].0);
        assert(lookup(t, s[i].0) == lookup(t.drop_first(), s[i].0));
        assert(total(t) == t[0].1 + total(t.drop_first()));
        assert forall|k: u64| k != s[i].0 implies lookup(t, k) == lookup(s, k) by {
            if k == s[0].0 {
                assert(lookup(t, k) == t[0].1);
                assert(lookup(s, k) == s[0].1);
            } else {
                assert(lookup(t, k) == lookup(t.drop_first(), k));
                assert(lookup(s, k) == lookup(s.drop_first(), k));
            }
        }
    }
}

proof fn lemma_push(s: Seq<(u64, u128)>, key: u64, value: u128)
    requires
        keys_distinct(s),
        !has_key(s, key),
    ensures
        keys_distinct(s.push((key, value))),
        lookup(s.push((key, value)), key) == value,
        forall|k: u64| k != key ==> lookup(s.push((key, value)), k) == lookup(s, k),
        total(s.push((key, value))) == total(s) + value,
    decreases s.len(),
{
    let t = s.push((key, value));
    assert(forall|j: int| 0 <= j < s.len() ==> t[j] == s[j]);
    assert(forall|j: int| 0 <= j < s.len() ==> s[j].0 != key);
    if s.len() == 0 {
        assert(t.drop_first() =~= Seq::<(u64, u128)>::empty());
        assert(total(t) == t[0].1 + total(t.drop_first()));
        assert forall|k: u64| k != key implies lookup(t, k) == lookup(s, k) by {
            assert(lookup(t, k) == lookup(t.drop_first(), k));
        }
    } else {
        assert(t.drop_first() =~= s.drop_first().push((key, value)));
        assert(!has_key(s.drop_first(), key)) by {
            if has_key(s.drop_first(), key) {
                let i = choose|i: int| 0 <= i < s.drop_first().len() && s.drop_first()[i].0 == key;
                assert(s[i + 1].0 == key);
            }
        }
        assert(keys_distinct(s.drop_first()));
        lemma_push(s.drop_first(), key, value);
        assert(t[0] == s[0]);
        assert(lookup(t, key) == lookup(t.drop_first(), key));
        assert(total(t) == t[0].1 + total(t.drop_first()));
        assert forall|k: u64| k != key implies lookup(t, k) == lookup(s, k) by {
            if k == s[0].0 {
                assert(lookup(t, k) == t[0].1);
            } else {
                assert(lookup(t, k) == lookup(t.drop_first(), k));
                assert(lookup(s, k) == lookup(s.drop_first(), k));
            }
        }
    }
}

/// A table of account balances, keyed by account identifier. A key that no
/// entry carries holds a zero balance; each key is stored at most once.
pub struct BalanceTable {
    entries: Vec<(u64, u128)>,
}

impl BalanceTable {
    /// Each key occurs in at most one entry.
    pub closed spec fn wf(self) -> bool {
        keys_distinct(self.entries@)
    }

    /// The balance the table assigns to `key`.
    pub closed spec fn spec_get(self, key: u64) -> u128 {
        lookup(self.entries@, key)
    }

    /// The sum of all balances in the table.
    pub closed spec fn total(self) -> int {
        total(self.entries@)
    }

    /// No single balance exceeds the sum of all balances, and the sum is
    /// never negative.
    pub proof fn lemma_get_le_total(self, key: u64)
        ensures
            self.spec_get(key) <= self.total(),
            self.total() >= 0,
    {
        lemma_lookup_le_total(self.entries@, key);
    }

    /// An empty table: every balance is zero.
    pub fn new() -> (r: BalanceTable)
        ensures
            r.wf(),
            r.total() == 0,
            forall|k: u64| r.spec_get(k) == 0,
    {
        BalanceTable { entries: Vec::new() }
    }

    /// Reads the balance of `key`.
    pub fn get(&self, key: u64) -> (r: u128)
        requires
            self.wf(),
        ensures
            r == self.spec_get(key),
    {
        let n = self.entries.len();
        let mut i: usize = 0;
        while i < n
            invariant
                n == self.entries.len(),
                0 <= i <= n,
                self.wf(),
                forall|j: int| 0 <= j < i ==> self.entries@[j].0 != key,
            decreases n - i,
        {
            if self.entries[i].0 == key {
                proof {
                    lemma_lookup_at_index(self.entries@, i as int);
                }
                return self.entries[i].1;
            }
            i += 1;
        }
        proof {
            lemma_lookup_absent(self.entries@, key);
        }
        0
    }

    /// Overwrites the balance of `key` with `value`. Every other balance is
    /// kept, and the sum of balances moves by exactly the difference.
    pub fn set(&mut self, key: u64, value: u128)
        requires
            old(self).wf(),
        ensures
            final(self).wf(),
            final(self).spec_get(key) == value,
            forall|k: u64| k != key ==> final(self).spec_get(k) == old(self).spec_get(k),
            final(self).total() == old(self).total() - old(self).spec_get(key) + value,
    {
        let n = self.entries.len();
        let mut i: usize = 0;
        while i < n
            invariant
                n == self.entries.len(),
                0 <= i <= n,
                self.wf(),
                *self == *old(self),
                forall|j: int| 0 <= j < i ==> self.entries@[j].0 != key,
            decreases n - i,
        {
            if self.entries[i].0 == key {
                proof {
                    lemma_lookup_at_index(self.entries@, i as int);
                    lemma_update(self.entries@, i as int, value);
                }
                self.entries.set(i, (key, value));
                return;
            }
            i += 1;
        }
        proof {
            lemma_lookup_absent(self.entries@, key);
            lemma_push(self.entries@, key, value);
        }
        self.entries.push((key, value));
    }
}

} // verus!
