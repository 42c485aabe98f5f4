//! A toy fungible-token ledger: named accounts with balances, spending
//! allowances, minting and burning restricted to the owner account, and a
//! log of every occurrence.

use vstd::prelude::*;

verus! {

/// Why a token operation was rejected; the state is left unchanged.
#[derive(Clone, Copy, Debug, PartialEq, Eq, Structural)]
pub enum TokenError {
    /// The paying account holds less than the requested amount.
    InsufficientBalance,
    /// The spender's allowance is less than the requested amount.
    InsufficientAllowance,
    /// Only the owner account may mint.
    NotOwner,
}

/// One recorded token occurrence.
#[derive(Clone, Debug)]
pub struct Event {
    pub event_type: String,
    pub from: String,
    pub to: String,
    pub amount: u64,
}

/// The event has exactly these fields, compared by content.
pub open spec fn event_matches(
    e: Event,
    event_type: Seq<char>,
    from: Seq<char>,
    to: Seq<char>,
    amount: u64,
) -> bool {
    &&& e.event_type@ == event_type
    &&& e.from@ == from
    &&& e.to@ == to
    &&& e.amount == amount
}

/// The balance recorded for `key`: the value of the first entry whose
/// account name matches, or zero when none does.
pub open spec fn spec_balance(entries: Seq<(String, u64)>, key: Seq<char>) -> u64
    decreases entries.len(),
{
    if entries.len() == 0 {
        0
    } else if entries[0].0@ == key {
        entries[0].1
    } else {
        spec_balance(entries.drop_first(), key)
    }
}

/// Whether some entry carries the account name `key`.
pub open spec fn spec_has_balance(entries: Seq<(String, u64)>, key: Seq<char>) -> bool
    decreases entries.len(),
{
    if entries.len() == 0 {
        false
    } else if entries[0].0@ == key {
        true
    } else {
        spec_has_balance(entries.drop_first(), key)
    }
}

/// The allowance recorded for the pair `(owner, spender)`, or zero when no
/// entry carries that pair.
pub open spec fn spec_allowance(
    entries: Seq<(String, String, u64)>,
    owner: Seq<char>,
    spender: Seq<char>,
) -> u64
    decreases entries.len(),
{
    if entries.len() == 0 {
        0
    } else if entries[0].0@ == owner && entries[0].1@ == spender {
        entries[0].2
    } else {
        spec_allowance(entries.drop_first(), owner, spender)
    }
}

/// Whether some entry carries the pair `(owner, spender)`.
pub open spec fn spec_has_allowance(
    entries: Seq<(String, String, u64)>,
    owner: Seq<char>,
    spender: Seq<char>,
) -> bool
    decreases entries.len(),
{
    if entries.len() == 0 {
        false
    } else if entries[0].0@ == owner && entries[0].1@ == spender {
        true
    } else {
        spec_has_allowance(entries.drop_first(), owner, spender)
    }
}

proof fn lemma_balance_skip(entries: Seq<(String, u64)>, i: int, key: Seq<char>)
    requires
        0 <= i <= entries.len(),
        forall|j: int| 0 <= j < i ==> (#[trigger] entries[j]).0@ != key,
    ensures
        spec_balance(entries, key) == spec_balance(entries.skip(i), key),
        spec_has_balance(entries, key) == spec_has_balance(entries.skip(i), key),
    decreases i,
{
    if i > 0 {
        lemma_balance_skip(entries, i - 1, key);
        let s = entries.skip(i - 1);
        assert(s.len() == entries.len() - i + 1);
        assert(s[0] == entries[i - 1]);
        assert(s.drop_first() =~= entries.skip(i));
        assert(spec_balance(s, key) == spec_balance(s.drop_first(), key));
        assert(spec_has_balance(s, key) == spec_has_balance(s.drop_first(), key));
    } else {
        assert(entries.skip(0) =~= entries);
    }
}

proof fn lemma_balance_update(entries: Seq<(String, u64)>, i: int, key: Seq<char>, e: (String, u64))
    requires
        0 <= i < entries.len(),
        entries[i].0@ == key,
        e.0@ == key,
        forall|j: int| 0 <= j < i ==> (#[trigger] entries[j]).0@ != key,
    ensures
        spec_balance(entries.update(i, e), key) == e.1,
        forall|x: Seq<char>|
            x != key ==> spec_balance(entries.update(i, e), x) == spec_balance(entries, x),
    decreases i,
{
    let t = entries.update(i, e);
    assert(t.len() == entries.len());
    if i == 0 {
        assert(t.drop_first() =~= entries.drop_first());
        assert(t[0] == e);
        assert forall|x: Seq<char>| x != key implies spec_balance(t, x) == spec_balance(
            entries,
            x,
        ) by {
            assert(spec_balance(t, x) == spec_balance(t.drop_first(), x));
            assert(spec_balance(entries, x) == spec_balance(entries.drop_first(), x));
        }
    } else {
        let rest = entries.drop_first();
        assert(rest[i - 1] == entries[i]);
        assert forall|j: int| 0 <= j < i - 1 implies (#[trigger] rest[j]).0@ != key by {
            assert(rest[j] == entries[j + 1]);
        }
        lemma_balance_update(rest, i - 1, key, e);
        assert(t.drop_first() =~= rest.update(i - 1, e));
        assert(t[0] == entries[0]);
        assert(spec_balance(t, key) == spec_balance(t.drop_first(), key));
        assert forall|x: Seq<char>| x != key implies spec_balance(t, x) == spec_balance(
            entries,
            x,
        ) by {
            if x == entries[0].0@ {
                assert(spec_balance(t, x) == t[0].1);
                assert(spec_balance(entries, x) == entries[0].1);
            } else {
                assert(spec_balance(t, x) == spec_balance(t.drop_first(), x));
                assert(spec_balance(entries, x) == spec_balance(rest, x));
            }
        }
    }
}

proof fn lemma_balance_push(entries: Seq<(String, u64)>, key: Seq<char>, e: (String, u64))
    requires
        e.0@ == key,
        forall|j: int| 0 <= j < entries.len() ==> (#[trigger] entries[j]).0@ != key,
    ensures
        spec_balance(entries.push(e), key) == e.1,
        forall|x: Seq<char>|
            x != key ==> spec_balance(entries.push(e), x) == spec_balance(entries, x),
    decreases entries.len(),
{
    let t = entries.push(e);
    assert(t.len() == entries.len() + 1);
    if entries.len() == 0 {
        assert(t[0] == e);
        assert(t.drop_first() =~= Seq::<(String, u64)>::empty());
        assert forall|x: Seq<char>| x != key implies spec_balance(t, x) == spec_balance(
            entries,
            x,
        ) by {
            assert(spec_balance(t, x) == spec_balance(t.drop_first(), x));
        }
    } else {
        let rest = entries.drop_first();
        assert forall|j: int| 0 <= j < rest.len() implies (#[trigger] rest[j]).0@ != key by {
            assert(rest[j] == entries[j + 1]);
        }
        lemma_balance_push(rest, key, e);
        assert(t.drop_first() =~= rest.push(e));
        assert(t[0] == entries[0]);
        assert(entries[0].0@ != key);
        assert(spec_balance(t, key) == spec_balance(t.drop_first(), key));
        assert forall|x: Seq<char>| x != key implies spec_balance(t, x) == spec_balance(
            entries,
            x,
        ) by {
            if x == entries[0].0@ {
                assert(spec_balance(t, x) == t[0].1);
                assert(spec_balance(entries, x) == entries[0].1);
            } else {
                assert(spec_balance(t, x) == spec_balance(t.drop_first(), x));
                assert(spec_balance(entries, x) == spec_balance(rest, x));
            }
        }
    }
}

/// Reads the balance recorded for `account`.
fn get_balance(entries: &Vec<(String, u64)>, account: &str) -> (r: u64)
    ensures
        r == spec_balance(entries@, account@),
{
    let key: String = account.to_owned();
    let n = entries.len();
    let mut i: usize = 0;
    while i < n
        invariant
            n == entries.len(),
            i <= n,
            key@ == account@,
            forall|j: int| 0 <= j < i ==> (#[trigger] entries@[j]).0@ != account@,
        decreases n - i,
    {
        if entries[i].0 == key {
            proof {
                lemma_balance_skip(entries@, i as int, account@);
                assert(entries@.skip(i as int)[0] == entries@[i as int]);
            }
            return entries[i].1;
        }
        i += 1;
    }
    proof {
        lemma_balance_skip(entries@, n as int, account@);
        assert(entries@.skip(n as int) =~= Seq::<(String, u64)>::empty());
    }
    0
}

/// Whether `account` has an entry of its own.
fn has_balance(entries: &Vec<(String, u64)>, account: &str) -> (r: bool)
    ensures
        r == spec_has_balance(entries@, account@),
{
    let key: String = account.to_owned();
    let n = entries.len();
    let mut i: usize = 0;
    while i < n
        invariant
            n == entries.len(),
            i <= n,
            key@ == account@,
            forall|j: int| 0 <= j < i ==> (#[trigger] entries@[j]).0@ != account@,
        decreases n - i,
    {
        if entries[i].0 == key {
            proof {
                lemma_balance_skip(entries@, i as int, account@);
                assert(entries@.skip(i as int)[0] == entries@[i as int]);
            }
            return true;
        }
        i += 1;
    }
    proof {
        lemma_balance_skip(entries@, n as int, account@);
        assert(entries@.skip(n as int) =~= Seq::<(String, u64)>::empty());
    }
    false
}

/// Writes the balance recorded for `account`, leaving every other account as
/// it was.
fn set_balance(entries: &mut Vec<(String, u64)>, account: &str, value: u64)
    ensures
        spec_balance(final(entries)@, account@) == value,
        forall|x: Seq<char>|
            x != account@ ==> spec_balance(final(entries)@, x) == spec_balance(old(entries)@, x),
{
    let key: String = account.to_owned();
    let n = entries.len();
    let mut i: usize = 0;
    while i < n
        invariant
            entries@ == old(entries)@,
            n == entries.len(),
            i <= n,
            key@ == account@,
            forall|j: int| 0 <= j < i ==> (#[trigger] entries@[j]).0@ != account@,
        decreases n - i,
    {
        if entries[i].0 == key {
            proof {
                lemma_balance_skip(old(entries)@, i as int, account@);
                assert(old(entries)@.skip(i as int)[0] == old(entries)@[i as int]);
                lemma_balance_update(old(entries)@, i as int, account@, (key, value));
            }
            let ghost pair = (key, value);
            entries.set(i, (key, value));
            proof {
                assert(entries@ == old(entries)@.update(i as int, pair));
                assert(spec_balance(old(entries)@.update(i as int, pair), account@) == value);
                assert forall|x: Seq<char>| x != account@ implies spec_balance(entries@, x)
                    == spec_balance(old(entries)@, x) by {
                    assert(spec_balance(old(entries)@.update(i as int, pair), x) == spec_balance(
                        old(entries)@,
                        x,
                    ));
                }
            }
            return ;
        }
        i += 1;
    }
    proof {
        lemma_balance_skip(old(entries)@, n as int, account@);
        assert(old(entries)@.skip(n as int) =~= Seq::<(String, u64)>::empty());
        lemma_balance_push(old(entries)@, account@, (key, value));
    }
    let ghost pair = (key, value);
    entries.push((key, value));
    proof {
        assert(entries@ == old(entries)@.push(pair));
        assert(spec_balance(old(entries)@.push(pair), account@) == value);
        assert forall|x: Seq<char>| x != account@ implies spec_balance(entries@, x) == spec_balance(
            old(entries)@,
            x,
        ) by {
            assert(spec_balance(old(entries)@.push(pair), x) == spec_balance(old(entries)@, x));
        }
    }
}

proof fn lemma_allowance_skip(
    entries: Seq<(String, String, u64)>,
    i: int,
    owner: Seq<char>,
    spender: Seq<char>,
)
    requires
        0 <= i <= entries.len(),
        forall|j: int|
            0 <= j < i ==> ((#[trigger] entries[j]).0@ != owner || entries[j].1@ != spender),
    ensures
        spec_allowance(entries, owner, spender) == spec_allowance(entries.skip(i), owner, spender),
        spec_has_allowance(entries, owner, spender) == spec_has_allowance(
            entries.skip(i),
            owner,
            spender,
        ),
    decreases i,
{
    if i > 0 {
        lemma_allowance_skip(entries, i - 1, owner, spender);
        let s = entries.skip(i - 1);
        assert(s.len() == entries.len() - i + 1);
        assert(s[0] == entries[i - 1]);
        assert(s.drop_first() =~= entries.skip(i));
        assert(spec_allowance(s, owner, spender) == spec_allowance(s.drop_first(), owner, spender));
        assert(spec_has_allowance(s, owner, spender) == spec_has_allowance(
            s.drop_first(),
            owner,
            spender,
        ));
    } else {
        assert(entries.skip(0) =~= entries);
    }
}

proof fn lemma_allowance_update(
    entries: Seq<(String, String, u64)>,
    i: int,
    owner: Seq<char>,
    spender: Seq<char>,
    e: (String, String, u64),
)
    requires
        0 <= i < entries.len(),
        entries[i].0@ == owner,
        entries[i].1@ == spender,
        e.0@ == owner,
        e.1@ == spender,
        forall|j: int|
            0 <= j < i ==> ((#[trigger] entries[j]).0@ != owner || entries[j].1@ != spender),
    ensures
        spec_allowance(entries.update(i, e), owner, spender) == e.2,
        forall|x: Seq<char>, y: Seq<char>|
            x != owner || y != spender ==> spec_allowance(entries.update(i, e), x, y)
                == spec_allowance(entries, x, y),
    decreases i,
{
    let t = entries.update(i, e);
    assert(t.len() == entries.len());
    if i == 0 {
        assert(t.drop_first() =~= entries.drop_first());
        assert(t[0] == e);
        assert forall|x: Seq<char>, y: Seq<char>| x != owner || y != spender implies spec_allowance(
            t,
            x,
            y,
        ) == spec_allowance(entries, x, y) by {
            assert(spec_allowance(t, x, y) == spec_allowance(t.drop_first(), x, y));
            assert(spec_allowance(entries, x, y) == spec_allowance(entries.drop_first(), x, y));
        }
    } else {
        let rest = entries.drop_first();
        assert(rest[i - 1] == entries[i]);
        assert forall|j: int| 0 <= j < i - 1 implies ((#[trigger] rest[j]).0@ != owner || rest[j].1@
            != spender) by {
            assert(rest[j] == entries[j + 1]);
        }
        lemma_allowance_update(rest, i - 1, owner, spender, e);
        assert(t.drop_first() =~= rest.update(i - 1, e));
        assert(t[0] == entries[0]);
        assert(spec_allowance(t, owner, spender) == spec_allowance(t.drop_first(), owner, spender));
        assert forall|x: Seq<char>, y: Seq<char>| x != owner || y != spender implies spec_allowance(
            t,
            x,
            y,
        ) == spec_allowance(entries, x, y) by {
            if x == entries[0].0@ && y == entries[0].1@ {
                assert(spec_allowance(t, x, y) == t[0].2);
                assert(spec_allowance(entries, x, y) == entries[0].2);
            } else {
                assert(spec_allowance(t, x, y) == spec_allowance(t.drop_first(), x, y));
                assert(spec_allowance(entries, x, y) == spec_allowance(rest, x, y));
            }
        }
    }
}

proof fn lemma_allowance_push(
    entries: Seq<(String, String, u64)>,
    owner: Seq<char>,
    spender: Seq<char>,
    e: (String, String, u64),
)
    requires
        e.0@ == owner,
        e.1@ == spender,
        forall|j: int|
            0 <= j < entries.len() ==> ((#[trigger] entries[j]).0@ != owner || entries[j].1@
                != spender),
    ensures
        spec_allowance(entries.push(e), owner, spender) == e.2,
        forall|x: Seq<char>, y: Seq<char>|
            x != owner || y != spender ==> spec_allowance(entries.push(e), x, y) == spec_allowance(
                entries,
                x,
                y,
            ),
    decreases entries.len(),
{
    let t = entries.push(e);
    assert(t.len() == entries.len() + 1);
    if entries.len() == 0 {
        assert(t[0] == e);
        assert(t.drop_first() =~= Seq::<(String, String, u64)>::empty());
        assert forall|x: Seq<char>, y: Seq<char>| x != owner || y != spender implies spec_allowance(
            t,
            x,
            y,
        ) == spec_allowance(entries, x, y) by {
            assert(spec_allowance(t, x, y) == spec_allowance(t.drop_first(), x, y));
        }
    } else {
        let rest = entries.drop_first();
        assert forall|j: int| 0 <= j < rest.len() implies ((#[trigger] rest[j]).0@ != owner
            || rest[j].1@ != spender) by {
            assert(rest[j] == entries[j + 1]);
        }
        lemma_allowance_push(rest, owner, spender, e);
        assert(t.drop_first() =~= rest.push(e));
        assert(t[0] == entries[0]);
        assert(spec_allowance(t, owner, spender) == spec_allowance(t.drop_first(), owner, spender));
        assert forall|x: Seq<char>, y: Seq<char>| x != owner || y != spender implies spec_allowance(
            t,
            x,
            y,
        ) == spec_allowance(entries, x, y) by {
            if x == entries[0].0@ && y == entries[0].1@ {
                assert(spec_allowance(t, x, y) == t[0].2);
                assert(spec_allowance(entries, x, y) == entries[0].2);
            } else {
                assert(spec_allowance(t, x, y) == spec_allowance(t.drop_first(), x, y));
                assert(spec_allowance(entries, x, y) == spec_allowance(rest, x, y));
            }
        }
    }
}

/// Reads the allowance recorded for `(owner, spender)`.
fn get_allowance_entry(entries: &Vec<(String, String, u64)>, owner: &str, spender: &str) -> (r: u64)
    ensures
        r == spec_allowance(entries@, owner@, spender@),
{
    let owner_key: String = owner.to_owned();
    let spender_key: String = spender.to_owned();
    let n = entries.len();
    let mut i: usize = 0;
    while i < n
        invariant
            n == entries.len(),
            i <= n,
            owner_key@ == owner@,
            spender_key@ == spender@,
            forall|j: int|
                0 <= j < i ==> ((#[trigger] entries@[j]).0@ != owner@ || entries@[j].1@
                    != spender@),
        decreases n - i,
    {
        if entries[i].0 == owner_key && entries[i].1 == spender_key {
            proof {
                lemma_allowance_skip(entries@, i as int, owner@, spender@);
                assert(entries@.skip(i as int)[0] == entries@[i as int]);
            }
            return entries[i].2;
        }
        i += 1;
    }
    proof {
        lemma_allowance_skip(entries@, n as int, owner@, spender@);
        assert(entries@.skip(n as int) =~= Seq::<(String, String, u64)>::empty());
    }
    0
}

/// Whether `(owner, spender)` has an entry of its own.
fn has_allowance_entry(entries: &Vec<(String, String, u64)>, owner: &str, spender: &str) -> (r:
    bool)
    ensures
        r == spec_has_allowance(entries@, owner@, spender@),
{
    let owner_key: String = owner.to_owned();
    let spender_key: String = spender.to_owned();
    let n = entries.len();
    let mut i: usize = 0;
    while i < n
        invariant
            n == entries.len(),
            i <= n,
            owner_key@ == owner@,
            spender_key@ == spender@,
            forall|j: int|
                0 <= j < i ==> ((#[trigger] entries@[j]).0@ != owner@ || entries@[j].1@
                    != spender@),
        decreases n - i,
    {
        if entries[i].0 == owner_key && entries[i].1 == spender_key {
            proof {
                lemma_allowance_skip(entries@, i as int, owner@, spender@);
                assert(entries@.skip(i as int)[0] == entries@[i as int]);
            }
            return true;
        }
        i += 1;
    }
    proof {
        lemma_allowance_skip(entries@, n as int, owner@, spender@);
        assert(entries@.skip(n as int) =~= Seq::<(String, String, u64)>::empty());
    }
    false
}

/// Writes the allowance recorded for `(owner, spender)`, leaving every other
/// pair as it was.
fn set_allowance_entry(
    entries: &mut Vec<(String, String, u64)>,
    owner: &str,
    spender: &str,
    value: u64,
)
    ensures
        spec_allowance(final(entries)@, owner@, spender@) == value,
        forall|x: Seq<char>, y: Seq<char>|
            x != owner@ || y != spender@ ==> spec_allowance(final(entries)@, x, y)
                == spec_allowance(old(entries)@, x, y),
{
    let owner_key: String = owner.to_owned();
    let spender_key: String = spender.to_owned();
    let n = entries.len();
    let mut i: usize = 0;
    while i < n
        invariant
            entries@ == old(entries)@,
            n == entries.len(),
            i <= n,
            owner_key@ == owner@,
            spender_key@ == spender@,
            forall|j: int|
                0 <= j < i ==> ((#[trigger] entries@[j]).0@ != owner@ || entries@[j].1@
                    != spender@),
        decreases n - i,
    {
        if entries[i].0 == owner_key && entries[i].1 == spender_key {
            proof {
                lemma_allowance_skip(old(entries)@, i as int, owner@, spender@);
                assert(old(entries)@.skip(i as int)[0] == old(entries)@[i as int]);
                lemma_allowance_update(
                    old(entries)@,
                    i as int,
                    owner@,
                    spender@,
                    (owner_key, spender_key, value),
                );
            }
            let ghost triple = (owner_key, spender_key, value);
            entries.set(i, (owner_key, spender_key, value));
            proof {
                assert(entries@ == old(entries)@.update(i as int, triple));
                assert forall|x: Seq<char>, y: Seq<char>| x != owner@ || y
                    != spender@ implies spec_allowance(entries@, x, y) == spec_allowance(
                    old(entries)@,
                    x,
                    y,
                ) by {
                    assert(spec_allowance(old(entries)@.update(i as int, triple), x, y)
                        == spec_allowance(old(entries)@, x, y));
                }
            }
            return ;
        }
        i += 1;
    }
    proof {
        lemma_allowance_skip(old(entries)@, n as int, owner@, spender@);
        assert(old(entries)@.skip(n as int) =~= Seq::<(String, String, u64)>::empty());
        lemma_allowance_push(old(entries)@, owner@, spender@, (owner_key, spender_key, value));
    }
    let ghost triple = (owner_key, spender_key, value);
    entries.push((owner_key, spender_key, value));
    proof {
        assert(entries@ == old(entries)@.push(triple));
        assert forall|x: Seq<char>, y: Seq<char>| x != owner@ || y != spender@ implies spec_allowance(
            entries@,
            x,
            y,
        ) == spec_allowance(old(entries)@, x, y) by {
            assert(spec_allowance(old(entries)@.push(triple), x, y) == spec_allowance(
                old(entries)@,
                x,
                y,
            ));
        }
    }
}

/// `new_events` is `old_events` with exactly one event of the given content
/// appended.
pub open spec fn events_appended(
    old_events: Seq<Event>,
    new_events: Seq<Event>,
    event_type: Seq<char>,
    from: Seq<char>,
    to: Seq<char>,
    amount: u64,
) -> bool {
    &&& new_events.len() == old_events.len() + 1
    &&& (forall|i: int| 0 <= i < old_events.len() ==> new_events[i] == old_events[i])
    &&& event_matches(new_events[old_events.len() as int], event_type, from, to, amount)
}

/// The volume moved by `Transfer` and `TransferFrom` events.
pub open spec fn spec_transfer_volume(events: Seq<Event>) -> int
    decreases events.len(),
{
    if events.len() == 0 {
        0
    } else {
        spec_transfer_volume(events.drop_last()) + if events.last().event_type@ == "Transfer"@
            || events.last().event_type@ == "TransferFrom"@ {
            events.last().amount as int
        } else {
            0
        }
    }
}

/// The volume created by `Mint` events.
pub open spec fn spec_mint_volume(events: Seq<Event>) -> int
    decreases events.len(),
{
    if events.len() == 0 {
        0
    } else {
        spec_mint_volume(events.drop_last()) + if events.last().event_type@ == "Mint"@ {
            events.last().amount as int
        } else {
            0
        }
    }
}

/// The volume destroyed by `Burn` events.
pub open spec fn spec_burn_volume(events: Seq<Event>) -> int
    decreases events.len(),
{
    if events.len() == 0 {
        0
    } else {
        spec_burn_volume(events.drop_last()) + if events.last().event_type@ == "Burn"@ {
            events.last().amount as int
        } else {
            0
        }
    }
}

/// Every volume over a prefix of the log is bounded by the volume over the
/// whole log.
proof fn lemma_volumes_take_le(events: Seq<Event>, i: int)
    requires
        0 <= i <= events.len(),
    ensures
        spec_transfer_volume(events.take(i)) <= spec_transfer_volume(events),
        spec_mint_volume(events.take(i)) <= spec_mint_volume(events),
        spec_burn_volume(events.take(i)) <= spec_burn_volume(events),
    decreases events.len() - i,
{
    if i == events.len() {
        assert(events.take(i) =~= events);
    } else {
        lemma_volumes_take_le(events, i + 1);
        let s = events.take(i + 1);
        assert(s.drop_last() =~= events.take(i));
        assert(s.last() == events[i]);
        assert(spec_transfer_volume(events.take(i)) <= spec_transfer_volume(s));
        assert(spec_mint_volume(events.take(i)) <= spec_mint_volume(s));
        assert(spec_burn_volume(events.take(i)) <= spec_burn_volume(s));
    }
}

/// A recorded allowance is positive only where an entry exists.
proof fn lemma_allowance_pos_has(
    entries: Seq<(String, String, u64)>,
    owner: Seq<char>,
    spender: Seq<char>,
)
    ensures
        spec_allowance(entries, owner, spender) != 0 ==> spec_has_allowance(
            entries,
            owner,
            spender,
        ),
    decreases entries.len(),
{
    if entries.len() > 0 {
        lemma_allowance_pos_has(entries.drop_first(), owner, spender);
    }
}

/// The token ledger: account balances, spending allowances, the owner
/// account, and the log of every occurrence.
#[derive(Clone, Debug)]
pub struct TokenContract {
    pub name: String,
    pub symbol: String,
    pub total_supply: u64,
    pub balances: Vec<(String, u64)>,
    pub allowances: Vec<(String, String, u64)>,
    pub events: Vec<Event>,
    pub owner: String,
}

impl TokenContract {
    /// The token's name, symbol and owner are not touched by the operation.
    pub open spec fn config_unchanged(pre: TokenContract, post: TokenContract) -> bool {
        &&& post.name == pre.name
        &&& post.symbol == pre.symbol
        &&& post.owner == pre.owner
    }

    /// A fresh ledger: the whole initial supply stands on the account named
    /// `owner`, which is also the only account allowed to mint.
    pub fn new(name: String, symbol: String, initial_supply: u64) -> (r: TokenContract)
        ensures
            r.name == name,
            r.symbol == symbol,
            r.total_supply == initial_supply,
            r.owner@ == "owner"@,
            spec_balance(r.balances@, "owner"@) == initial_supply,
            spec_has_balance(r.balances@, "owner"@),
            forall|x: Seq<char>| x != "owner"@ ==> spec_balance(r.balances@, x) == 0,
            r.allowances@ == Seq::<(String, String, u64)>::empty(),
            r.events@ == Seq::<Event>::empty(),
    {
        let key: String = "owner".to_owned();
        let mut balances: Vec<(String, u64)> = Vec::new();
        let ghost pair = (key, initial_supply);
        balances.push((key, initial_supply));
        proof {
            assert(balances@ == Seq::<(String, u64)>::empty().push(pair));
            assert(balances@[0].0@ == "owner"@);
            assert(spec_balance(balances@, "owner"@) == initial_supply);
            assert(spec_has_balance(balances@, "owner"@));
            assert forall|x: Seq<char>| x != "owner"@ implies spec_balance(balances@, x) == 0 by {
                assert(spec_balance(balances@, x) == spec_balance(balances@.drop_first(), x));
                assert(balances@.drop_first() =~= Seq::<(String, u64)>::empty());
            }
        }
        TokenContract {
            name,
            symbol,
            total_supply: initial_supply,
            balances,
            allowances: Vec::new(),
            events: Vec::new(),
            owner: "owner".to_owned(),
        }
    }

    /// The balance of one account; zero for an unknown account.
    pub fn balance_of(&self, account: &str) -> (r: u64)
        ensures
            r == spec_balance(self.balances@, account@),
    {
        get_balance(&self.balances, account)
    }

    /// The allowance `owner` has granted `spender`; zero when none was
    /// granted.
    pub fn allowance(&self, owner: &str, spender: &str) -> (r: u64)
        ensures
            r == spec_allowance(self.allowances@, owner@, spender@),
    {
        get_allowance_entry(&self.allowances, owner, spender)
    }

    /// The name, the symbol and the total supply, in one tuple.
    pub fn get_token_info(&self) -> (r: (String, String, u64))
        ensures
            r.0@ == self.name@,
            r.1@ == self.symbol@,
            r.2 == self.total_supply,
    {
        (self.name.clone(), self.symbol.clone(), self.total_supply)
    }

    /// Succeeds exactly when `account` holds at least `amount`.
    pub fn check_balance(&self, account: &str, amount: u64) -> (r: Result<(), TokenError>)
        ensures
            match r {
                Ok(()) => spec_balance(self.balances@, account@) >= amount,
                Err(TokenError::InsufficientBalance) => spec_balance(self.balances@, account@)
                    < amount,
                _ => false,
            },
    {
        let balance = self.balance_of(account);
        if balance < amount {
            Err(TokenError::InsufficientBalance)
        } else {
            Ok(())
        }
    }

    /// Succeeds exactly when `spender` may spend at least `amount` on behalf
    /// of `owner`.
    pub fn check_allowance(&self, owner: &str, spender: &str, amount: u64) -> (r: Result<
        (),
        TokenError,
    >)
        ensures
            match r {
                Ok(()) => spec_allowance(self.allowances@, owner@, spender@) >= amount,
                Err(TokenError::InsufficientAllowance) => spec_allowance(
                    self.allowances@,
                    owner@,
                    spender@,
                ) < amount,
                _ => false,
            },
    {
        let allowed = self.allowance(owner, spender);
        if allowed < amount {
            Err(TokenError::InsufficientAllowance)
        } else {
            Ok(())
        }
    }

    /// Moves `amount` from `from` to `to` in the balance table; balances of
    /// other accounts, and everything else, stay as they were.
    ///
    /// The growing balance must not overflow; `from` must hold `amount`.
    pub fn update_balances(&mut self, from: &str, to: &str, amount: u64) -> (r: Result<
        (),
        TokenError,
    >)
        requires
            spec_balance(old(self).balances@, from@) >= amount,
            from@ == to@ || spec_balance(old(self).balances@, to@) + amount <= u64::MAX,
        ensures
            r is Ok,
            from@ != to@ ==> spec_balance(final(self).balances@, from@) == spec_balance(
                old(self).balances@,
                from@,
            ) - amount,
            from@ != to@ ==> spec_balance(final(self).balances@, to@) == spec_balance(
                old(self).balances@,
                to@,
            ) + amount,
            from@ == to@ ==> spec_balance(final(self).balances@, from@) == spec_balance(
                old(self).balances@,
                from@,
            ),
            forall|x: Seq<char>|
                x != from@ && x != to@ ==> spec_balance(final(self).balances@, x) == spec_balance(
                    old(self).balances@,
                    x,
                ),
            final(self).allowances@ == old(self).allowances@,
            final(self).events@ == old(self).events@,
            final(self).total_supply == old(self).total_supply,
            Self::config_unchanged(*old(self), *final(self)),
    {
        let from_balance = get_balance(&self.balances, from);
        set_balance(&mut self.balances, from, from_balance - amount);
        let to_balance = get_balance(&self.balances, to);
        set_balance(&mut self.balances, to, to_balance + amount);
        Ok(())
    }

    /// Lowers the allowance `(owner, spender)` by `amount`; an entry must
    /// exist and must cover the amount.
    pub fn update_allowance(&mut self, owner: &str, spender: &str, amount: u64) -> (r: Result<
        (),
        TokenError,
    >)
        requires
            spec_has_allowance(old(self).allowances@, owner@, spender@),
            spec_allowance(old(self).allowances@, owner@, spender@) >= amount,
        ensures
            r is Ok,
            spec_allowance(final(self).allowances@, owner@, spender@) == spec_allowance(
                old(self).allowances@,
                owner@,
                spender@,
            ) - amount,
            forall|x: Seq<char>, y: Seq<char>|
                x != owner@ || y != spender@ ==> spec_allowance(final(self).allowances@, x, y)
                    == spec_allowance(old(self).allowances@, x, y),
            final(self).balances@ == old(self).balances@,
            final(self).events@ == old(self).events@,
            final(self).total_supply == old(self).total_supply,
            Self::config_unchanged(*old(self), *final(self)),
    {
        let current = get_allowance_entry(&self.allowances, owner, spender);
        set_allowance_entry(&mut self.allowances, owner, spender, current - amount);
        Ok(())
    }

    /// Appends one event of the given content to the log; nothing else
    /// changes.
    pub fn emit_event(&mut self, event_type: &str, from: &str, to: &str, amount: u64)
        ensures
            events_appended(
                old(self).events@,
                final(self).events@,
                event_type@,
                from@,
                to@,
                amount,
            ),
            final(self).balances@ == old(self).balances@,
            final(self).allowances@ == old(self).allowances@,
            final(self).total_supply == old(self).total_supply,
            Self::config_unchanged(*old(self), *final(self)),
    {
        self.events.push(
            Event {
                event_type: event_type.to_owned(),
                from: from.to_owned(),
                to: to.to_owned(),
                amount,
            },
        );
    }

    /// Moves `amount` from `from` to `to` and records a `Transfer` event.
    /// Fails, changing nothing, exactly when `from` holds less than
    /// `amount`.
    pub fn transfer(&mut self, from: &str, to: &str, amount: u64) -> (r: Result<(), TokenError>)
        requires
            from@ == to@ || spec_balance(old(self).balances@, to@) + amount <= u64::MAX,
        ensures
            match r {
                Ok(()) => {
                    &&& spec_balance(old(self).balances@, from@) >= amount
                    &&& from@ != to@ ==> spec_balance(final(self).balances@, from@)
                        == spec_balance(old(self).balances@, from@) - amount
                    &&& from@ != to@ ==> spec_balance(final(self).balances@, to@) == spec_balance(
                        old(self).balances@,
                        to@,
                    ) + amount
                    &&& from@ == to@ ==> spec_balance(final(self).balances@, from@)
                        == spec_balance(old(self).balances@, from@)
                    &&& forall|x: Seq<char>|
                        x != from@ && x != to@ ==> spec_balance(final(self).balances@, x)
                            == spec_balance(old(self).balances@, x)
                    &&& events_appended(
                        old(self).events@,
                        final(self).events@,
                        "Transfer"@,
                        from@,
                        to@,
                        amount,
                    )
                    &&& final(self).allowances@ == old(self).allowances@
                    &&& final(self).total_supply == old(self).total_supply
                    &&& Self::config_unchanged(*old(self), *final(self))
                },
                Err(TokenError::InsufficientBalance) => spec_balance(old(self).balances@, from@)
                    < amount && *final(self) == *old(self),
                _ => false,
            },
    {
        match self.check_balance(from, amount) {
            Ok(()) => {},
            Err(e) => {
                return Err(e);
            },
        }
        match self.update_balances(from, to, amount) {
            Ok(()) => {},
            Err(e) => {
                return Err(e);
            },
        }
        self.emit_event("Transfer", from, to, amount);
        Ok(())
    }

    /// Moves `amount` from `from` to `to` on behalf of `spender`, burning
    /// that much of the allowance, and records a `TransferFrom` event.
    /// Fails, changing nothing, when the balance or the allowance is too
    /// small; the balance is checked first.
    pub fn transfer_from(&mut self, from: &str, to: &str, spender: &str, amount: u64) -> (r:
        Result<(), TokenError>)
        requires
            from@ == to@ || spec_balance(old(self).balances@, to@) + amount <= u64::MAX,
            amount == 0 ==> spec_has_allowance(old(self).allowances@, from@, spender@),
        ensures
            match r {
                Ok(()) => {
                    &&& spec_balance(old(self).balances@, from@) >= amount
                    &&& spec_allowance(old(self).allowances@, from@, spender@) >= amount
                    &&& from@ != to@ ==> spec_balance(final(self).balances@, from@)
                        == spec_balance(old(self).balances@, from@) - amount
                    &&& from@ != to@ ==> spec_balance(final(self).balances@, to@) == spec_balance(
                        old(self).balances@,
                        to@,
                    ) + amount
                    &&& from@ == to@ ==> spec_balance(final(self).balances@, from@)
                        == spec_balance(old(self).balances@, from@)
                    &&& forall|x: Seq<char>|
                        x != from@ && x != to@ ==> spec_balance(final(self).balances@, x)
                            == spec_balance(old(self).balances@, x)
                    &&& spec_allowance(final(self).allowances@, from@, spender@) == spec_allowance(
                        old(self).allowances@,
                        from@,
                        spender@,
                    ) - amount
                    &&& forall|x: Seq<char>, y: Seq<char>|
                        x != from@ || y != spender@ ==> spec_allowance(
                            final(self).allowances@,
                            x,
                            y,
                        ) == spec_allowance(old(self).allowances@, x, y)
                    &&& events_appended(
                        old(self).events@,
                        final(self).events@,
                        "TransferFrom"@,
                        from@,
                        to@,
                        amount,
                    )
                    &&& final(self).total_supply == old(self).total_supply
                    &&& Self::config_unchanged(*old(self), *final(self))
                },
                Err(TokenError::InsufficientBalance) => spec_balance(old(self).balances@, from@)
                    < amount && *final(self) == *old(self),
                Err(TokenError::InsufficientAllowance) => {
                    &&& spec_balance(old(self).balances@, from@) >= amount
                    &&& spec_allowance(old(self).allowances@, from@, spender@) < amount
                    &&& *final(self) == *old(self)
                },
                _ => false,
            },
    {
        match self.check_balance(from, amount) {
            Ok(()) => {},
            Err(e) => {
                return Err(e);
            },
        }
        match self.check_allowance(from, spender, amount) {
            Ok(()) => {},
            Err(e) => {
                return Err(e);
            },
        }
        proof {
            lemma_allowance_pos_has(self.allowances@, from@, spender@);
        }
        match self.update_balances(from, to, amount) {
            Ok(()) => {},
            Err(e) => {
                return Err(e);
            },
        }
        match self.update_allowance(from, spender, amount) {
            Ok(()) => {},
            Err(e) => {
                return Err(e);
            },
        }
        self.emit_event("TransferFrom", from, to, amount);
        Ok(())
    }

    /// Grants `spender` an allowance of exactly `amount` on behalf of
    /// `owner`, overwriting any earlier grant, and records an `Approval`
    /// event.
    pub fn approve(&mut self, owner: &str, spender: &str, amount: u64) -> (r: Result<
        (),
        TokenError,
    >)
        ensures
            r is Ok,
            spec_allowance(final(self).allowances@, owner@, spender@) == amount,
            forall|x: Seq<char>, y: Seq<char>|
                x != owner@ || y != spender@ ==> spec_allowance(final(self).allowances@, x, y)
                    == spec_allowance(old(self).allowances@, x, y),
            final(self).balances@ == old(self).balances@,
            final(self).total_supply == old(self).total_supply,
            events_appended(
                old(self).events@,
                final(self).events@,
                "Approval"@,
                owner@,
                spender@,
                amount,
            ),
            Self::config_unchanged(*old(self), *final(self)),
    {
        set_allowance_entry(&mut self.allowances, owner, spender, amount);
        self.emit_event("Approval", owner, spender, amount);
        Ok(())
    }

    /// Creates `amount` new tokens on the owner account and records a `Mint`
    /// event from the null account. Fails, changing nothing, exactly when
    /// `to` is not the owner account.
    pub fn mint(&mut self, to: &str, amount: u64) -> (r: Result<(), TokenError>)
        requires
            to@ == old(self).owner@ ==> spec_balance(old(self).balances@, to@) + amount
                <= u64::MAX && old(self).total_supply + amount <= u64::MAX,
        ensures
            match r {
                Ok(()) => {
                    &&& to@ == old(self).owner@
                    &&& spec_balance(final(self).balances@, to@) == spec_balance(
                        old(self).balances@,
                        to@,
                    ) + amount
                    &&& forall|x: Seq<char>|
                        x != to@ ==> spec_balance(final(self).balances@, x) == spec_balance(
                            old(self).balances@,
                            x,
                        )
                    &&& final(self).total_supply == old(self).total_supply + amount
                    &&& final(self).allowances@ == old(self).allowances@
                    &&& events_appended(
                        old(self).events@,
                        final(self).events@,
                        "Mint"@,
                        "0x0"@,
                        to@,
                        amount,
                    )
                    &&& Self::config_unchanged(*old(self), *final(self))
                },
                Err(TokenError::NotOwner) => to@ != old(self).owner@ && *final(self) == *old(self),
                _ => false,
            },
    {
        let to_key: String = to.to_owned();
        if to_key != self.owner {
            return Err(TokenError::NotOwner);
        }
        let balance = get_balance(&self.balances, to);
        set_balance(&mut self.balances, to, balance + amount);
        self.total_supply = self.total_supply + amount;
        self.emit_event("Mint", "0x0", to, amount);
        Ok(())
    }

    /// Destroys `amount` tokens held by `from` and records a `Burn` event to
    /// the null account. Fails, changing nothing, exactly when `from` holds
    /// less than `amount`.
    pub fn burn(&mut self, from: &str, amount: u64) -> (r: Result<(), TokenError>)
        requires
            amount == 0 ==> spec_has_balance(old(self).balances@, from@),
            spec_balance(old(self).balances@, from@) >= amount ==> amount <= old(
                self,
            ).total_supply,
        ensures
            match r {
                Ok(()) => {
                    &&& spec_balance(old(self).balances@, from@) >= amount
                    &&& spec_balance(final(self).balances@, from@) == spec_balance(
                        old(self).balances@,
                        from@,
                    ) - amount
                    &&& forall|x: Seq<char>|
                        x != from@ ==> spec_balance(final(self).balances@, x) == spec_balance(
                            old(self).balances@,
                            x,
                        )
                    &&& final(self).total_supply == old(self).total_supply - amount
                    &&& final(self).allowances@ == old(self).allowances@
                    &&& events_appended(
                        old(self).events@,
                        final(self).events@,
                        "Burn"@,
                        from@,
                        "0x0"@,
                        amount,
                    )
                    &&& Self::config_unchanged(*old(self), *final(self))
                },
                Err(TokenError::InsufficientBalance) => spec_balance(old(self).balances@, from@)
                    < amount && *final(self) == *old(self),
                _ => false,
            },
    {
        match self.check_balance(from, amount) {
            Ok(()) => {},
            Err(e) => {
                return Err(e);
            },
        }
        let balance = get_balance(&self.balances, from);
        set_balance(&mut self.balances, from, balance - amount);
        self.total_supply = self.total_supply - amount;
        self.emit_event("Burn", from, "0x0", amount);
        Ok(())
    }

    /// Every event recorded so far, oldest first.
    pub fn get_events(&self) -> (r: &Vec<Event>)
        ensures
            r@ == self.events@,
    {
        &self.events
    }

    /// The total transferred, minted and burned volumes over the whole log,
    /// in that order; the host prints them. Each total must fit in `u64`.
    pub fn event_volumes(&self) -> (r: (u64, u64, u64))
        requires
            spec_transfer_volume(self.events@) <= u64::MAX,
            spec_mint_volume(self.events@) <= u64::MAX,
            spec_burn_volume(self.events@) <= u64::MAX,
        ensures
            r.0 == spec_transfer_volume(self.events@),
            r.1 == spec_mint_volume(self.events@),
            r.2 == spec_burn_volume(self.events@),
    {
        let transfer_name: String = "Transfer".to_owned();
        let transfer_from_name: String = "TransferFrom".to_owned();
        let mint_name: String = "Mint".to_owned();
        let burn_name: String = "Burn".to_owned();
        let mut transfer_volume: u64 = 0;
        let mut mint_volume: u64 = 0;
        let mut burn_volume: u64 = 0;
        let n = self.events.len();
        let mut i: usize = 0;
        proof {
            assert(self.events@.take(0) =~= Seq::<Event>::empty());
        }
        while i < n
            invariant
                n == self.events.len(),
                i <= n,
                transfer_name@ == "Transfer"@,
                transfer_from_name@ == "TransferFrom"@,
                mint_name@ == "Mint"@,
                burn_name@ == "Burn"@,
                spec_transfer_volume(self.events@) <= u64::MAX,
                spec_mint_volume(self.events@) <= u64::MAX,
                spec_burn_volume(self.events@) <= u64::MAX,
                transfer_volume == spec_transfer_volume(self.events@.take(i as int)),
                mint_volume == spec_mint_volume(self.events@.take(i as int)),
                burn_volume == spec_burn_volume(self.events@.take(i as int)),
            decreases n - i,
        {
            proof {
                reveal_strlit("Transfer");
                reveal_strlit("TransferFrom");
                reveal_strlit("Mint");
                reveal_strlit("Burn");
                assert("Mint"@[0] != "Burn"@[0]);
                assert("Mint"@ != "Burn"@);
                lemma_volumes_take_le(self.events@, i + 1);
                let s = self.events@.take(i + 1);
                assert(s.len() == i + 1);
                assert(s.drop_last() =~= self.events@.take(i as int));
                assert(s.last() == self.events@[i as int]);
                assert(spec_transfer_volume(s) == spec_transfer_volume(s.drop_last()) + if s.last().event_type@ == "Transfer"@ || s.last().event_type@ == "TransferFrom"@ { s.last().amount as int } else { 0 });
                assert(spec_mint_volume(s) == spec_mint_volume(s.drop_last()) + if s.last().event_type@ == "Mint"@ { s.last().amount as int } else { 0 });
                assert(spec_burn_volume(s) == spec_burn_volume(s.drop_last()) + if s.last().event_type@ == "Burn"@ { s.last().amount as int } else { 0 });
            }
            let event = &self.events[i];
            if event.event_type == transfer_name || event.event_type == transfer_from_name {
                transfer_volume = transfer_volume + event.amount;
            } else if event.event_type == mint_name {
                mint_volume = mint_volume + event.amount;
            } else if event.event_type == burn_name {
                burn_volume = burn_volume + event.amount;
            }
            i += 1;
        }
        proof {
            assert(self.events@.take(n as int) =~= self.events@);
        }
        (transfer_volume, mint_volume, burn_volume)
    }
}

} // verus!
