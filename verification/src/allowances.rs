use vstd::prelude::*;

verus! {

/// The allowance that a sequence of entries assigns to the pair
/// (owner, spender): the value of the first entry carrying that pair, or zero
/// when no entry carries it.
pub open spec fn lookup_pair(s: Seq<(u64, u64, u128)>, owner: u64, spender: u64) -> u128
    decreases s.len(),
{
    if s.len() == 0 {
        0
    } else if s[0].0 == owner && s[0].1 == spender {
        s[0].2
    } else {
        lookup_pair(s.drop_first(), owner, spender)
    }
}

/// Whether some entry carries the pair (owner, spender).
pub open spec fn has_pair(s: Seq<(u64, u64, u128)>, owner: u64, spender: u64) -> bool {
    exists|i: int| 0 <= i < s.len() && s[i].0 == owner && s[i].1 == spender
}

/// Whether every pair occurs in at most one entry.
pub open spec fn pairs_distinct(s: Seq<(u64, u64, u128)>) -> bool {
    forall|i: int, j: int|
        0 <= i < j < s.len() ==> !(s[i].0 == s[j].0 && s[i].1 == s[j].1)
}

proof fn lemma_pair_at_index(s: Seq<(u64, u64, u128)>, i: int)
    requires
        pairs_distinct(s),
        0 <= i < s.len(),
    ensures
        lookup_pair(s, s[i].0, s[i].1) == s[i].2,
    decreases s.len(),
{
    if i > 0 {
        assert(pairs_distinct(s.drop_first()));
        lemma_pair_at_index(s.drop_first(), i - 1);
    }
}

proof fn lemma_pair_absent(s: Seq<(u64, u64, u128)>, owner: u64, spender: u64)
    requires
        !has_pair(s, owner, spender),
    ensures
        lookup_pair(s, owner, spender) == 0,
    decreases s.len(),
{
    if s.len() > 0 {
        assert(!(s[0].0 == owner && s[0].1 == spender));
        assert(!has_pair(s.drop_first(), owner, spender)) by {
            if has_pair(s.drop_first(), owner, spender) {
                let i = choose|i: int|
                    0 <= i < s.drop_first().len() && s.drop_first()[i].0 == owner
                        && s.drop_first()[i].1 == spender;
                assert(s[i + 1].0 == owner && s[i + 1].1 == spender);
            }
        }
        lemma_pair_absent(s.drop_first(), owner, spender);
    }
}

proof fn lemma_pair_update(s: Seq<(u64, u64, u128)>, i: int, value: u128)
    requires
        pairs_distinct(s),
        0 <= i < s.len(),
    ensures
        pairs_distinct(s.update(i, (s[i].0, s[i].1, value))),
        lookup_pair(s.update(i, (s[i].0, s[i].1, value)), s[i].0, s[i].1) == value,
        forall|o: u64, p: u64|
            !(o == s[i].0 && p == s[i].1) ==> lookup_pair(
                s.update(i, (s[i].0, s[i].1, value)),
                o,
                p,
            ) == lookup_pair(s, o, p),
    decreases s.len(),
{
    let t = s.update(i, (s[i].0, s[i].1, value));
    assert(forall|j: int| 0 <= j < s.len() ==> t[j].0 == s[j].0 && t[j].1 == s[j].1);
    if i == 0 {
        assert(t.drop_first() =~= s.drop_first());
        assert forall|o: u64, p: u64| !(o == s[0].0 && p == s[0].1) implies lookup_pair(t, o, p)
            == lookup_pair(s, o, p) by {
            assert(lookup_pair(t, o, p) == lookup_pair(t.drop_first(), o, p));
            assert(lookup_pair(s, o, p) == lookup_pair(s.drop_first(), o, p));
        }
    } else {
        assert(t.drop_first() =~= s.drop_first().update(i - 1, (s[i].0, s[i].1, value)));
        assert(pairs_distinct(s.drop_first()));
        lemma_pair_update(s.drop_first(), i - 1, value);
        assert(!(s[0].0 == s[i].0 && s[0].1 == s[i].1));
        assert(lookup_pair(t, s[i].0, s[i].1) == lookup_pair(t.drop_first(), s[i].0, s[i].1));
        assert forall|o: u64, p: u64| !(o == s[i].0 && p == s[i].1) implies lookup_pair(t, o, p)
            == lookup_pair(s, o, p) by {
            if o == s[0].0 && p == s[0].1 {
                assert(lookup_pair(t, o, p) == t[0].2);
                assert(lookup_pair(s, o, p) == s[0].2);
            } else {
                assert(lookup_pair(t, o, p) == lookup_pair(t.drop_first(), o, p));
                assert(lookup_pair(s, o, p) == lookup_pair(s.drop_first(), o, p));
            }
        }
    }
}

proof fn lemma_pair_push(s: Seq<(u64, u64, u128)>, owner: u64, spender: u64, value: u128)
    requires
        pairs_distinct(s),
        !has_pair(s, owner, spender),
    ensures
        pairs_distinct(s.push((owner, spender, value))),
        lookup_pair(s.push((owner, spender, value)), owner, spender) == value,
        forall|o: u64, p: u64|
            !(o == owner && p == spender) ==> lookup_pair(s.push((owner, spender, value)), o, p)
                == lookup_pair(s, o, p),
    decreases s.len(),
{
    let t = s.push((owner, spender, value));
    assert(forall|j: int| 0 <= j < s.len() ==> t[j] == s[j]);
    assert(forall|j: int| 0 <= j < s.len() ==> !(s[j].0 == owner && s[j].1 == spender));
    if s.len() == 0 {
        assert(t.drop_first() =~= Seq::<(u64, u64, u128)>::empty());
        assert forall|o: u64, p: u64| !(o == owner && p == spender) implies lookup_pair(t, o, p)
            == lookup_pair(s, o, p) by {
            assert(lookup_pair(t, o, p) == lookup_pair(t.drop_first(), o, p));
        }
    } else {
        assert(t.drop_first() =~= s.drop_first().push((owner, spender, value)));
        assert(!has_pair(s.drop_first(), owner, spender)) by {
            if has_pair(s.drop_first(), owner, spender) {
                let i = choose|i: int|
                    0 <= i < s.drop_first().len() && s.drop_first()[i].0 == owner
                        && s.drop_first()[i].1 == spender;
                assert(s[i + 1].0 == owner && s[i + 1].1 == spender);
            }
        }
        assert(pairs_distinct(s.drop_first()));
        lemma_pair_push(s.drop_first(), owner, spender, value);
        assert(t[0] == s[0]);
        assert(lookup_pair(t, owner, spender) == lookup_pair(t.drop_first(), owner, spender));
        assert forall|o: u64, p: u64| !(o == owner && p == spender) implies lookup_pair(t, o, p)
            == lookup_pair(s, o, p) by {
            if o == s[0].0 && p == s[0].1 {
                assert(lookup_pair(t, o, p) == t[0].2);
            } else {
                assert(lookup_pair(t, o, p) == lookup_pair(t.drop_first(), o, p));
                assert(lookup_pair(s, o, p) == lookup_pair(s.drop_first(), o, p));
            }
        }
    }
}

/// A table of allowances, keyed by the pair (owner, spender). A pair that no
/// entry carries holds a zero allowance; each pair is stored at most once.
pub struct AllowanceTable {
    entries: Vec<(u64, u64, u128)>,
}

impl AllowanceTable {
    /// Each (owner, spender) pair occurs in at most one entry.
    pub closed spec fn wf(self) -> bool {
        pairs_distinct(self.entries@)
    }

    /// The allowance the table assigns to the pair (owner, spender).
    pub closed spec fn spec_get(self, owner: u64, spender: u64) -> u128 {
        lookup_pair(self.entries@, owner, spender)
    }

    /// An empty table: every allowance is zero.
    pub fn new() -> (r: AllowanceTable)
        ensures
            r.wf(),
            forall|o: u64, p: u64| r.spec_get(o, p) == 0,
    {
        AllowanceTable { entries: Vec::new() }
    }

    /// Reads the allowance of the pair (owner, spender).
    pub fn get(&self, owner: u64, spender: u64) -> (r: u128)
        requires
            self.wf(),
        ensures
            r == self.spec_get(owner, spender),
    {
        let n = self.entries.len();
        let mut i: usize = 0;
        while i < n
            invariant
                n == self.entries.len(),
                0 <= i <= n,
                self.wf(),
                forall|j: int|
                    0 <= j < i ==> !(self.entries@[j].0 == owner && self.entries@[j].1 == spender),
            decreases n - i,
        {
            if self.entries[i].0 == owner && self.entries[i].1 == spender {
                proof {
                    lemma_pair_at_index(self.entries@, i as int);
                }
                return self.entries[i].2;
            }
            i += 1;
        }
        proof {
            lemma_pair_absent(self.entries@, owner, spender);
        }
        0
    }

    /// Overwrites the allowance of the pair (owner, spender) with `value`.
    /// Every other allowance is kept.
    pub fn set(&mut self, owner: u64, spender: u64, value: u128)
        requires
            old(self).wf(),
        ensures
            final(self).wf(),
            final(self).spec_get(owner, spender) == value,
            forall|o: u64, p: u64|
                !(o == owner && p == spender) ==> final(self).spec_get(o, p) == old(self).spec_get(
                    o,
                    p,
                ),
    {
        let n = self.entries.len();
        let mut i: usize = 0;
        while i < n
            invariant
                n == self.entries.len(),
                0 <= i <= n,
                self.wf(),
                *self == *old(self),
                forall|j: int|
                    0 <= j < i ==> !(self.entries@[j].0 == owner && self.entries@[j].1 == spender),
            decreases n - i,
        {
            if self.entries[i].0 == owner && self.entries[i].1 == spender {
                proof {
                    lemma_pair_at_index(self.entries@, i as int);
                    lemma_pair_update(self.entries@, i as int, value);
                }
                self.entries.set(i, (owner, spender, value));
                return;
            }
            i += 1;
        }
        proof {
            lemma_pair_absent(self.entries@, owner, spender);
            lemma_pair_push(self.entries@, owner, spender, value);
        }
        self.entries.push((owner, spender, value));
    }
}

} // verus!
