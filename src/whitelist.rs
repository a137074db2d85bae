use crate::allowance::Allowance;
use vstd::prelude::*;

verus! {

/// The allowance that `entries` holds for `account`: the first entry under
/// that name.
pub open spec fn lookup(entries: Seq<(String, Allowance)>, account: Seq<char>) -> Option<Allowance>
    decreases entries.len(),
{
    if entries.len() == 0 {
        None
    } else if entries[0].0@ == account {
        Some(entries[0].1)
    } else {
        lookup(entries.drop_first(), account)
    }
}

/// The allowance of each account that has one, by account name.
pub struct Whitelist {
    entries: Vec<(String, Allowance)>,
}

impl View for Whitelist {
    type V = Map<Seq<char>, Allowance>;

    closed spec fn view(&self) -> Map<Seq<char>, Allowance> {
        Map::new(
            |k: Seq<char>| lookup(self.entries@, k) is Some,
            |k: Seq<char>| lookup(self.entries@, k)->0,
        )
    }
}

proof fn lemma_lookup_skip(entries: Seq<(String, Allowance)>, i: int, account: Seq<char>)
    requires
        0 <= i < entries.len(),
        entries[i].0@ != account,
    ensures
        lookup(entries.skip(i), account) == lookup(entries.skip(i + 1), account),
{
    assert(entries.skip(i).drop_first() =~= entries.skip(i + 1));
}

/// Replacing the first entry under a name changes that name's allowance
/// and no other.
proof fn lemma_lookup_update(
    entries: Seq<(String, Allowance)>,
    i: int,
    e: (String, Allowance),
    k: Seq<char>,
)
    requires
        0 <= i < entries.len(),
        entries[i].0@ == e.0@,
        forall|j: int| 0 <= j < i ==> #[trigger] entries[j].0@ != e.0@,
    ensures
        lookup(entries.update(i, e), k) == if k == e.0@ {
            Some(e.1)
        } else {
            lookup(entries, k)
        },
    decreases i,
{
    let updated = entries.update(i, e);
    if i > 0 {
        assert(updated[0] == entries[0]);
        assert(entries[0].0@ != e.0@);
        assert(updated.drop_first() =~= entries.drop_first().update(i - 1, e));
        assert forall|j: int| 0 <= j < i - 1 implies #[trigger] entries.drop_first()[j].0@ != e.0@ by {
            assert(entries.drop_first()[j] == entries[j + 1]);
        }
        lemma_lookup_update(entries.drop_first(), i - 1, e, k);
    } else {
        assert(updated[0] == e);
        assert(updated.drop_first() =~= entries.drop_first());
    }
}

/// Appending an entry for a name without one gives that name the entry's
/// allowance and changes no other.
proof fn lemma_lookup_push(entries: Seq<(String, Allowance)>, e: (String, Allowance), k: Seq<char>)
    requires
        lookup(entries, e.0@) is None,
    ensures
        lookup(entries.push(e), k) == if k == e.0@ {
            Some(e.1)
        } else {
            lookup(entries, k)
        },
    decreases entries.len(),
{
    let pushed = entries.push(e);
    if entries.len() > 0 {
        assert(pushed[0] == entries[0]);
        assert(pushed.drop_first() =~= entries.drop_first().push(e));
        lemma_lookup_push(entries.drop_first(), e, k);
    } else {
        assert(pushed[0] == e);
        assert(pushed.drop_first() =~= entries);
    }
}

impl Whitelist {
    /// A whitelist without entries.
    pub fn new() -> (r: Whitelist)
        ensures
            r@ == Map::<Seq<char>, Allowance>::empty(),
    {
        let r = Whitelist { entries: Vec::new() };
        assert(r@ =~= Map::<Seq<char>, Allowance>::empty());
        r
    }

    /// The index of the first entry under `account`.
    fn find(&self, account: &String) -> (r: Option<usize>)
        ensures
            match r {
                Some(i) => {
                    &&& i < self.entries@.len()
                    &&& self.entries@[i as int].0@ == account@
                    &&& lookup(self.entries@, account@) == Some(self.entries@[i as int].1)
                    &&& forall|j: int| 0 <= j < i ==> #[trigger] self.entries@[j].0@ != account@
                },
                None => lookup(self.entries@, account@) is None,
            },
    {
        let n = self.entries.len();
        let mut i: usize = 0;
        proof {
            assert(self.entries@.skip(0) =~= self.entries@);
        }
        while i < n
            invariant
                n == self.entries@.len(),
                i <= n,
                forall|j: int| 0 <= j < i ==> #[trigger] self.entries@[j].0@ != account@,
                lookup(self.entries@, account@) == lookup(self.entries@.skip(i as int), account@),
            decreases n - i,
        {
            if self.entries[i].0 == *account {
                return Some(i);
            }
            proof {
                lemma_lookup_skip(self.entries@, i as int, account@);
            }
            i = i + 1;
        }
        None
    }

    /// The allowance of `account`, where it has one.
    pub fn get(&self, account: &String) -> (r: Option<Allowance>)
        ensures
            r == (if self@.contains_key(account@) {
                Some(self@[account@])
            } else {
                None
            }),
    {
        match self.find(account) {
            Some(i) => Some(self.entries[i].1),
            None => None,
        }
    }

    /// Sets the allowance of `account` to `allowance`.
    pub fn insert(&mut self, account: &String, allowance: Allowance)
        ensures
            final(self)@ == old(self)@.insert(account@, allowance),
    {
        let e = (account.clone(), allowance);
        match self.find(account) {
            Some(i) => {
                proof {
                    assert forall|k: Seq<char>|
                        lookup(self.entries@.update(i as int, e), k) == if k == e.0@ {
                            Some(e.1)
                        } else {
                            lookup(self.entries@, k)
                        } by {
                        lemma_lookup_update(self.entries@, i as int, e, k);
                    }
                }
                self.entries.set(i, e);
            },
            None => {
                proof {
                    assert forall|k: Seq<char>|
                        lookup(self.entries@.push(e), k) == if k == e.0@ {
                            Some(e.1)
                        } else {
                            lookup(self.entries@, k)
                        } by {
                        lemma_lookup_push(self.entries@, e, k);
                    }
                }
                self.entries.push(e);
            },
        }
        assert(self@ =~= old(self)@.insert(account@, allowance));
    }
}

} // verus!
