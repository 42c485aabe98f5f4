//! A small association map keyed by stable account identifier, for contract
//! state that records one value per account.

use vstd::prelude::*;

use crate::AccountId;

verus! {

/// The value recorded for `id`: the first entry whose key matches, if any.
pub open spec fn spec_assoc<V>(entries: Seq<(AccountId, V)>, id: AccountId) -> Option<V>
    decreases entries.len(),
{
    if entries.len() == 0 {
        None
    } else if entries[0].0 == id {
        Some(entries[0].1)
    } else {
        spec_assoc(entries.drop_first(), id)
    }
}

proof fn lemma_assoc_skip<V>(entries: Seq<(AccountId, V)>, i: int, id: AccountId)
    requires
        0 <= i <= entries.len(),
        forall|j: int| 0 <= j < i ==> (#[trigger] entries[j]).0 != id,
    ensures
        spec_assoc(entries, id) == spec_assoc(entries.skip(i), id),
    decreases i,
{
    if i > 0 {
        lemma_assoc_skip(entries, i - 1, id);
        let s = entries.skip(i - 1);
        assert(s.len() == entries.len() - i + 1);
        assert(s[0] == entries[i - 1]);
        assert(s[0].0 != id);
        assert(s.drop_first() =~= entries.skip(i));
        assert(spec_assoc(s, id) == spec_assoc(s.drop_first(), id));
    } else {
        assert(entries.skip(0) =~= entries);
    }
}

proof fn lemma_assoc_update<V>(entries: Seq<(AccountId, V)>, i: int, id: AccountId, value: V)
    requires
        0 <= i < entries.len(),
        entries[i].0 == id,
        forall|j: int| 0 <= j < i ==> (#[trigger] entries[j]).0 != id,
    ensures
        spec_assoc(entries.update(i, (id, value)), id) == Some(value),
        forall|x: AccountId|
            x != id ==> spec_assoc(entries.update(i, (id, value)), x) == spec_assoc(entries, x),
    decreases i,
{
    let t = entries.update(i, (id, value));
    assert(t.len() == entries.len());
    if i == 0 {
        assert(t.drop_first() =~= entries.drop_first());
        assert(t[0] == (id, value));
        assert forall|x: AccountId| x != id implies spec_assoc(t, x) == spec_assoc(
            entries,
            x,
        ) by {
            assert(spec_assoc(t, x) == spec_assoc(t.drop_first(), x));
            assert(spec_assoc(entries, x) == spec_assoc(entries.drop_first(), x));
        }
    } else {
        let rest = entries.drop_first();
        assert(rest[i - 1] == entries[i]);
        assert forall|j: int| 0 <= j < i - 1 implies (#[trigger] rest[j]).0 != id by {
            assert(rest[j] == entries[j + 1]);
        }
        lemma_assoc_update(rest, i - 1, id, value);
        assert(t.drop_first() =~= rest.update(i - 1, (id, value)));
        assert(t[0] == entries[0]);
        assert(spec_assoc(t, id) == spec_assoc(t.drop_first(), id));
        assert forall|x: AccountId| x != id implies spec_assoc(t, x) == spec_assoc(
            entries,
            x,
        ) by {
            if x == entries[0].0 {
                assert(spec_assoc(t, x) == Some(t[0].1));
                assert(spec_assoc(entries, x) == Some(entries[0].1));
            } else {
                assert(spec_assoc(t, x) == spec_assoc(t.drop_first(), x));
                assert(spec_assoc(entries, x) == spec_assoc(rest, x));
            }
        }
    }
}

proof fn lemma_assoc_push<V>(entries: Seq<(AccountId, V)>, id: AccountId, value: V)
    requires
        forall|j: int| 0 <= j < entries.len() ==> (#[trigger] entries[j]).0 != id,
    ensures
        spec_assoc(entries.push((id, value)), id) == Some(value),
        forall|x: AccountId|
            x != id ==> spec_assoc(entries.push((id, value)), x) == spec_assoc(entries, x),
    decreases entries.len(),
{
    let t = entries.push((id, value));
    assert(t.len() == entries.len() + 1);
    if entries.len() == 0 {
        assert(t[0] == (id, value));
        assert(t.drop_first() =~= Seq::<(AccountId, V)>::empty());
        assert forall|x: AccountId| x != id implies spec_assoc(t, x) == spec_assoc(
            entries,
            x,
        ) by {
            assert(spec_assoc(t, x) == spec_assoc(t.drop_first(), x));
        }
    } else {
        let rest = entries.drop_first();
        assert forall|j: int| 0 <= j < rest.len() implies (#[trigger] rest[j]).0 != id by {
            assert(rest[j] == entries[j + 1]);
        }
        lemma_assoc_push(rest, id, value);
        assert(t.drop_first() =~= rest.push((id, value)));
        assert(t[0] == entries[0]);
        assert(entries[0].0 != id);
        assert(spec_assoc(t, id) == spec_assoc(t.drop_first(), id));
        assert forall|x: AccountId| x != id implies spec_assoc(t, x) == spec_assoc(
            entries,
            x,
        ) by {
            if x == entries[0].0 {
                assert(spec_assoc(t, x) == Some(t[0].1));
                assert(spec_assoc(entries, x) == Some(entries[0].1));
            } else {
                assert(spec_assoc(t, x) == spec_assoc(t.drop_first(), x));
                assert(spec_assoc(entries, x) == spec_assoc(rest, x));
            }
        }
    }
}

/// What one appended entry does to a lookup: a key already recorded keeps
/// its first entry; a fresh key gains the appended value; every other key
/// still finds nothing.
proof fn lemma_assoc_append<V>(entries: Seq<(AccountId, V)>, e: (AccountId, V), x: AccountId)
    ensures
        spec_assoc(entries.push(e), x) == (if spec_assoc(entries, x) is Some {
            spec_assoc(entries, x)
        } else if e.0 == x {
            Some(e.1)
        } else {
            None
        }),
    decreases entries.len(),
{
    let t = entries.push(e);
    assert(t.len() == entries.len() + 1);
    if entries.len() == 0 {
        assert(t[0] == e);
        assert(t.drop_first() =~= Seq::<(AccountId, V)>::empty());
    } else {
        assert(t[0] == entries[0]);
        if entries[0].0 != x {
            lemma_assoc_append(entries.drop_first(), e, x);
            assert(t.drop_first() =~= entries.drop_first().push(e));
            assert(spec_assoc(t, x) == spec_assoc(t.drop_first(), x));
            assert(spec_assoc(entries, x) == spec_assoc(entries.drop_first(), x));
        }
    }
}

/// One value per account, looked up and overwritten by account identifier.
#[derive(Clone)]
pub struct AssocMap<V> {
    pub entries: Vec<(AccountId, V)>,
}

impl<V: Copy> AssocMap<V> {
    /// The value recorded for `id`, if any.
    pub open spec fn spec_get(self, id: AccountId) -> Option<V> {
        spec_assoc(self.entries@, id)
    }

    /// An empty map: no account has a recorded value.
    pub fn new() -> (r: AssocMap<V>)
        ensures
            forall|x: AccountId| r.spec_get(x) is None,
    {
        AssocMap { entries: Vec::new() }
    }

    /// Reads the value recorded for `id`.
    pub fn get(&self, id: AccountId) -> (r: Option<V>)
        ensures
            r == self.spec_get(id),
    {
        let n = self.entries.len();
        let mut i: usize = 0;
        while i < n
            invariant
                n == self.entries.len(),
                i <= n,
                forall|j: int| 0 <= j < i ==> (#[trigger] self.entries@[j]).0 != id,
            decreases n - i,
        {
            if self.entries[i].0 == id {
                proof {
                    lemma_assoc_skip(self.entries@, i as int, id);
                    assert(self.entries@.skip(i as int)[0] == self.entries@[i as int]);
                }
                return Some(self.entries[i].1);
            }
            i += 1;
        }
        proof {
            lemma_assoc_skip(self.entries@, n as int, id);
            assert(self.entries@.skip(n as int) =~= Seq::<(AccountId, V)>::empty());
        }
        None
    }

    /// Strikes every entry recorded for `id`, so that `id` has no value on
    /// record, leaving every other account as it was.
    pub fn remove(&mut self, id: AccountId)
        ensures
            final(self).spec_get(id) is None,
            forall|x: AccountId| x != id ==> final(self).spec_get(x) == old(self).spec_get(x),
    {
        let n = self.entries.len();
        let mut kept: Vec<(AccountId, V)> = Vec::new();
        let mut i: usize = 0;
        while i < n
            invariant
                self.entries@ == old(self).entries@,
                n == self.entries.len(),
                i <= n,
                forall|x: AccountId|
                    spec_assoc(kept@, x) == (if x == id {
                        Option::<V>::None
                    } else {
                        spec_assoc(self.entries@.take(i as int), x)
                    }),
            decreases n - i,
        {
            let entry = self.entries[i];
            let ghost kept_before = kept@;
            if entry.0 != id {
                kept.push(entry);
            }
            proof {
                let t = self.entries@.take(i + 1);
                assert(t.drop_last() =~= self.entries@.take(i as int));
                assert(t.last() == self.entries@[i as int]);
                assert(t =~= self.entries@.take(i as int).push(self.entries@[i as int]));
                assert forall|x: AccountId|
                    spec_assoc(kept@, x) == (if x == id {
                        Option::<V>::None
                    } else {
                        spec_assoc(self.entries@.take(i + 1), x)
                    }) by {
                    lemma_assoc_append(self.entries@.take(i as int), self.entries@[i as int], x);
                    if entry.0 != id {
                        lemma_assoc_append(kept_before, entry, x);
                    }
                }
            }
            i += 1;
        }
        proof {
            assert(self.entries@.take(n as int) =~= self.entries@);
        }
        self.entries = kept;
    }

    /// Writes the value recorded for `id`, leaving every other account as it
    /// was.
    pub fn set(&mut self, id: AccountId, value: V)
        ensures
            final(self).spec_get(id) == Some(value),
            forall|x: AccountId| x != id ==> final(self).spec_get(x) == old(self).spec_get(x),
    {
        let n = self.entries.len();
        let mut i: usize = 0;
        while i < n
            invariant
                self.entries@ == old(self).entries@,
                n == self.entries.len(),
                i <= n,
                forall|j: int| 0 <= j < i ==> (#[trigger] self.entries@[j]).0 != id,
            decreases n - i,
        {
            if self.entries[i].0 == id {
                proof {
                    lemma_assoc_skip(old(self).entries@, i as int, id);
                    assert(old(self).entries@.skip(i as int)[0] == old(self).entries@[i as int]);
                    lemma_assoc_update(old(self).entries@, i as int, id, value);
                }
                self.entries.set(i, (id, value));
                proof {
                    assert(self.entries@ == old(self).entries@.update(i as int, (id, value)));
                    assert forall|x: AccountId| x != id implies spec_assoc(self.entries@, x)
                        == spec_assoc(old(self).entries@, x) by {
                        assert(spec_assoc(old(self).entries@.update(i as int, (id, value)), x)
                            == spec_assoc(old(self).entries@, x));
                    }
                }
                return ;
            }
            i += 1;
        }
        proof {
            lemma_assoc_skip(old(self).entries@, n as int, id);
            assert(old(self).entries@.skip(n as int) =~= Seq::<(AccountId, V)>::empty());
            lemma_assoc_push(old(self).entries@, id, value);
        }
        self.entries.push((id, value));
        proof {
            assert(self.entries@ == old(self).entries@.push((id, value)));
            assert forall|x: AccountId| x != id implies spec_assoc(self.entries@, x) == spec_assoc(
                old(self).entries@,
                x,
            ) by {
                assert(spec_assoc(old(self).entries@.push((id, value)), x) == spec_assoc(
                    old(self).entries@,
                    x,
                ));
            }
        }
    }
}

} // verus!
