//! The liquidity engine: the share-minting and withdrawal formulas, and the
//! provider ledger that records each provider's proportional claim.

use vstd::prelude::*;

use vstd::arithmetic::div_mod::lemma_div_multiples_vanish;
use vstd::arithmetic::div_mod::lemma_fundamental_div_mod;
use vstd::arithmetic::div_mod::lemma_mod_division_less_than_divisor;
use vstd::arithmetic::div_mod::lemma_multiply_divide_le;
use vstd::arithmetic::div_mod::lemma_multiply_divide_lt;
use vstd::arithmetic::mul::lemma_mul_inequality;
use vstd::arithmetic::mul::lemma_mul_is_commutative;
use vstd::arithmetic::mul::lemma_mul_strict_inequality;

use crate::AccountId;
use crate::Balance;

verus! {

/// Shares minted for the very first deposit: the smaller of the two deposited
/// amounts. This deterministic policy lets the first depositor set the
/// initial exchange rate.
pub open spec fn spec_first_shares(amount_a: int, amount_b: int) -> int {
    if amount_a <= amount_b {
        amount_a
    } else {
        amount_b
    }
}

/// Shares minted for a deposit into an active pool:
/// `floor(amount_a * total_shares / reserve_a)`.
pub open spec fn spec_minted_shares(amount_a: int, total_shares: int, reserve_a: int) -> int {
    (amount_a * total_shares) / reserve_a
}

/// The amount of one asset paid out for burning `shares`:
/// `floor(shares * reserve / total_shares)`. The remainder stays in the pool,
/// so a withdrawer is never over-paid.
pub open spec fn spec_withdraw_amount(shares: int, reserve: int, total_shares: int) -> int {
    (shares * reserve) / total_shares
}

/// A withdrawal never pays out more than the reserve holds.
pub proof fn lemma_withdraw_le_reserve(shares: int, reserve: int, total_shares: int)
    requires
        0 <= shares <= total_shares,
        0 < total_shares,
        0 <= reserve,
    ensures
        0 <= spec_withdraw_amount(shares, reserve, total_shares) <= reserve,
{
    lemma_mul_inequality(shares, total_shares, reserve);
    lemma_mul_is_commutative(total_shares, reserve);
    lemma_multiply_divide_le(shares * reserve, total_shares, reserve);
    lemma_fundamental_div_mod(shares * reserve, total_shares);
    lemma_mod_division_less_than_divisor(shares * reserve, total_shares);
    assert(shares * reserve >= 0) by (nonlinear_arith)
        requires
            shares >= 0,
            reserve >= 0,
    ;
    assert((shares * reserve) / total_shares >= 0) by (nonlinear_arith)
        requires
            total_shares > 0,
            shares * reserve >= 0,
            shares * reserve == total_shares * ((shares * reserve) / total_shares) + (shares
                * reserve) % total_shares,
            0 <= (shares * reserve) % total_shares < total_shares,
    ;
}

/// A partial withdrawal leaves part of a positive reserve behind.
pub proof fn lemma_withdraw_lt_reserve(shares: int, reserve: int, total_shares: int)
    requires
        0 <= shares < total_shares,
        0 < reserve,
    ensures
        spec_withdraw_amount(shares, reserve, total_shares) < reserve,
{
    lemma_mul_strict_inequality(shares, total_shares, reserve);
    lemma_mul_is_commutative(total_shares, reserve);
    lemma_multiply_divide_lt(shares * reserve, total_shares, reserve);
}

/// Burning every outstanding share pays out the whole reserve.
pub proof fn lemma_withdraw_all(reserve: int, total_shares: int)
    requires
        0 < total_shares,
        0 <= reserve,
    ensures
        spec_withdraw_amount(total_shares, reserve, total_shares) == reserve,
{
    lemma_mul_is_commutative(total_shares, reserve);
    lemma_div_multiples_vanish(reserve, total_shares);
}

/// Law: a first deposit of `(amount_a, amount_b)` into an empty pool,
/// immediately followed by a withdrawal of every minted share, pays back
/// exactly `(amount_a, amount_b)` and leaves no outstanding claim.
pub proof fn lemma_first_deposit_round_trip(amount_a: int, amount_b: int)
    requires
        amount_a > 0,
        amount_b > 0,
    ensures
        spec_first_shares(amount_a, amount_b) > 0,
        spec_withdraw_amount(spec_first_shares(amount_a, amount_b), amount_a, spec_first_shares(amount_a, amount_b)) == amount_a,
        spec_withdraw_amount(spec_first_shares(amount_a, amount_b), amount_b, spec_first_shares(amount_a, amount_b)) == amount_b,
{
    let s = spec_first_shares(amount_a, amount_b);
    lemma_withdraw_all(amount_a, s);
    lemma_withdraw_all(amount_b, s);
}

/// The shares a ledger records for `id`: the value of the first entry whose
/// key matches, or zero when none does.
spec fn spec_shares(entries: Seq<(AccountId, Balance)>, id: AccountId) -> Balance
    decreases entries.len(),
{
    if entries.len() == 0 {
        0
    } else if entries[0].0 == id {
        entries[0].1
    } else {
        spec_shares(entries.drop_first(), id)
    }
}

/// The sum of every recorded share value.
spec fn spec_sum(entries: Seq<(AccountId, Balance)>) -> int
    decreases entries.len(),
{
    if entries.len() == 0 {
        0
    } else {
        entries[0].1 + spec_sum(entries.drop_first())
    }
}

proof fn lemma_sum_nonneg(entries: Seq<(AccountId, Balance)>)
    ensures
        spec_sum(entries) >= 0,
    decreases entries.len(),
{
    if entries.len() > 0 {
        lemma_sum_nonneg(entries.drop_first());
    }
}

/// No single position exceeds the ledger total.
proof fn lemma_shares_le_sum(entries: Seq<(AccountId, Balance)>, id: AccountId)
    ensures
        spec_shares(entries, id) <= spec_sum(entries),
    decreases entries.len(),
{
    if entries.len() > 0 {
        if entries[0].0 == id {
            lemma_sum_nonneg(entries.drop_first());
        } else {
            lemma_shares_le_sum(entries.drop_first(), id);
        }
    }
}

/// Skipping entries whose keys do not match leaves the looked-up value
/// unchanged.
proof fn lemma_shares_skip(entries: Seq<(AccountId, Balance)>, i: int, id: AccountId)
    requires
        0 <= i <= entries.len(),
        forall|j: int| 0 <= j < i ==> (#[trigger] entries[j]).0 != id,
    ensures
        spec_shares(entries, id) == spec_shares(entries.skip(i), id),
    decreases i,
{
    if i > 0 {
        lemma_shares_skip(entries, i - 1, id);
        let s = entries.skip(i - 1);
        assert(s.len() == entries.len() - i + 1);
        assert(s[0] == entries[i - 1]);
        assert(s[0].0 != id);
        assert(s.drop_first() =~= entries.skip(i));
        assert(spec_shares(s, id) == spec_shares(s.drop_first(), id));
    } else {
        assert(entries.skip(0) =~= entries);
    }
}

/// Overwriting the first entry for a key changes that key's value, nothing
/// else, and moves the sum by the difference.
proof fn lemma_update_entry(entries: Seq<(AccountId, Balance)>, i: int, id: AccountId, value: Balance)
    requires
        0 <= i < entries.len(),
        entries[i].0 == id,
        forall|j: int| 0 <= j < i ==> (#[trigger] entries[j]).0 != id,
    ensures
        spec_shares(entries.update(i, (id, value)), id) == value,
        forall|x: AccountId|
            x != id ==> spec_shares(entries.update(i, (id, value)), x) == spec_shares(entries, x),
        spec_sum(entries.update(i, (id, value))) == spec_sum(entries) - entries[i].1 + value,
    decreases i,
{
    let t = entries.update(i, (id, value));
    assert(t.len() == entries.len());
    if i == 0 {
        assert(t.drop_first() =~= entries.drop_first());
        assert(t[0] == (id, value));
        assert(spec_shares(t, id) == value);
        assert forall|x: AccountId| x != id implies spec_shares(t, x) == spec_shares(
            entries,
            x,
        ) by {
            assert(spec_shares(t, x) == spec_shares(t.drop_first(), x));
            assert(spec_shares(entries, x) == spec_shares(entries.drop_first(), x));
        }
        assert(spec_sum(t) == value + spec_sum(t.drop_first()));
        assert(spec_sum(entries) == entries[0].1 + spec_sum(entries.drop_first()));
    } else {
        let e = entries.drop_first();
        assert(e[i - 1] == entries[i]);
        assert forall|j: int| 0 <= j < i - 1 implies (#[trigger] e[j]).0 != id by {
            assert(e[j] == entries[j + 1]);
        }
        lemma_update_entry(e, i - 1, id, value);
        assert(t.drop_first() =~= e.update(i - 1, (id, value)));
        assert(t[0] == entries[0]);
        assert(entries[0].0 != id);
        assert(spec_shares(t, id) == spec_shares(t.drop_first(), id));
        assert forall|x: AccountId| x != id implies spec_shares(t, x) == spec_shares(
            entries,
            x,
        ) by {
            if x == entries[0].0 {
                assert(spec_shares(t, x) == t[0].1);
                assert(spec_shares(entries, x) == entries[0].1);
            } else {
                assert(spec_shares(t, x) == spec_shares(t.drop_first(), x));
                assert(spec_shares(entries, x) == spec_shares(e, x));
            }
        }
        assert(spec_sum(t) == t[0].1 + spec_sum(t.drop_first()));
        assert(spec_sum(entries) == entries[0].1 + spec_sum(e));
    }
}

/// Appending an entry for a key the ledger does not hold yet gives that key
/// the appended value, leaves every other key unchanged, and adds the value
/// to the sum.
proof fn lemma_push_entry(entries: Seq<(AccountId, Balance)>, id: AccountId, value: Balance)
    requires
        forall|j: int| 0 <= j < entries.len() ==> (#[trigger] entries[j]).0 != id,
    ensures
        spec_shares(entries.push((id, value)), id) == value,
        forall|x: AccountId|
            x != id ==> spec_shares(entries.push((id, value)), x) == spec_shares(entries, x),
        spec_sum(entries.push((id, value))) == spec_sum(entries) + value,
    decreases entries.len(),
{
    let t = entries.push((id, value));
    assert(t.len() == entries.len() + 1);
    if entries.len() == 0 {
        assert(t[0] == (id, value));
        assert(t.drop_first() =~= Seq::<(AccountId, Balance)>::empty());
        assert(spec_shares(t, id) == value);
        assert forall|x: AccountId| x != id implies spec_shares(t, x) == spec_shares(
            entries,
            x,
        ) by {
            assert(spec_shares(t, x) == spec_shares(t.drop_first(), x));
        }
        assert(spec_sum(t) == value + spec_sum(t.drop_first()));
    } else {
        let e = entries.drop_first();
        assert forall|j: int| 0 <= j < e.len() implies (#[trigger] e[j]).0 != id by {
            assert(e[j] == entries[j + 1]);
        }
        lemma_push_entry(e, id, value);
        assert(t.drop_first() =~= e.push((id, value)));
        assert(t[0] == entries[0]);
        assert(entries[0].0 != id);
        assert(spec_shares(t, id) == spec_shares(t.drop_first(), id));
        assert forall|x: AccountId| x != id implies spec_shares(t, x) == spec_shares(
            entries,
            x,
        ) by {
            if x == entries[0].0 {
                assert(spec_shares(t, x) == t[0].1);
                assert(spec_shares(entries, x) == entries[0].1);
            } else {
                assert(spec_shares(t, x) == spec_shares(t.drop_first(), x));
                assert(spec_shares(entries, x) == spec_shares(e, x));
            }
        }
        assert(spec_sum(t) == t[0].1 + spec_sum(t.drop_first()));
        assert(spec_sum(entries) == entries[0].1 + spec_sum(e));
    }
}

/// A ledger of one balance per account, looked up and updated by stable
/// account identifier. The pool uses it for liquidity-share positions, the
/// market maker for deposited token balances.
#[derive(Clone)]
pub struct AccountLedger {
    entries: Vec<(AccountId, Balance)>,
}

impl AccountLedger {
    /// The shares recorded for `id`; zero when `id` holds no position.
    pub closed spec fn balance_of(self, id: AccountId) -> Balance {
        spec_shares(self.entries@, id)
    }

    /// The sum of all recorded positions.
    pub closed spec fn total(self) -> int {
        spec_sum(self.entries@)
    }

    /// The ledger total is never negative.
    pub proof fn lemma_total_nonneg(self)
        ensures
            self.total() >= 0,
    {
        lemma_sum_nonneg(self.entries@);
    }

    /// No single position exceeds the ledger total.
    pub proof fn lemma_position_le_total(self, id: AccountId)
        ensures
            self.balance_of(id) <= self.total(),
    {
        lemma_shares_le_sum(self.entries@, id);
    }

    /// An empty ledger: nobody holds anything.
    pub fn new() -> (r: AccountLedger)
        ensures
            r.total() == 0,
            forall|x: AccountId| r.balance_of(x) == 0,
    {
        AccountLedger { entries: Vec::new() }
    }

    /// Reads one position.
    pub fn get(&self, id: AccountId) -> (r: Balance)
        ensures
            r == self.balance_of(id),
    {
        let n = self.entries.len();
        let mut i: usize = 0;
        while i < n
            invariant
                n == self.entries.len(),
                i <= n,
                forall|j: int| 0 <= j < i ==> (#[trigger] self.entries@[j]).0 != id,
            decreases n - i,
        {
            if self.entries[i].0 == id {
                proof {
                    lemma_shares_skip(self.entries@, i as int, id);
                    assert(self.entries@.skip(i as int)[0] == self.entries@[i as int]);
                }
                return self.entries[i].1;
            }
            i += 1;
        }
        proof {
            lemma_shares_skip(self.entries@, n as int, id);
            assert(self.entries@.skip(n as int) =~= Seq::<(AccountId, Balance)>::empty());
        }
        0
    }

    /// Writes one position, leaving every other position as it was.
    pub fn set(&mut self, id: AccountId, value: Balance)
        ensures
            final(self).balance_of(id) == value,
            forall|x: AccountId| x != id ==> final(self).balance_of(x) == old(self).balance_of(x),
            final(self).total() == old(self).total() - old(self).balance_of(id) + value,
    {
        let n = self.entries.len();
        let mut i: usize = 0;
        while i < n
            invariant
                self.entries@ == old(self).entries@,
                n == self.entries.len(),
                i <= n,
                forall|j: int| 0 <= j < i ==> (#[trigger] self.entries@[j]).0 != id,
            decreases n - i,
        {
            if self.entries[i].0 == id {
                proof {
                    lemma_shares_skip(old(self).entries@, i as int, id);
                    assert(old(self).entries@.skip(i as int)[0] == old(self).entries@[i as int]);
                    lemma_update_entry(old(self).entries@, i as int, id, value);
                }
                self.entries.set(i, (id, value));
                proof {
                    assert(self.entries@ == old(self).entries@.update(i as int, (id, value)));
                    assert forall|x: AccountId| x != id implies spec_shares(self.entries@, x)
                        == spec_shares(old(self).entries@, x) by {
                        assert(spec_shares(
                            old(self).entries@.update(i as int, (id, value)),
                            x,
                        ) == spec_shares(old(self).entries@, x));
                    }
                }
                return ;
            }
            i += 1;
        }
        proof {
            lemma_shares_skip(old(self).entries@, n as int, id);
            assert(old(self).entries@.skip(n as int) =~= Seq::<(AccountId, Balance)>::empty());
            lemma_push_entry(old(self).entries@, id, value);
        }
        self.entries.push((id, value));
        proof {
            assert(self.entries@ == old(self).entries@.push((id, value)));
            assert forall|x: AccountId| x != id implies spec_shares(self.entries@, x)
                == spec_shares(old(self).entries@, x) by {
                assert(spec_shares(old(self).entries@.push((id, value)), x) == spec_shares(
                    old(self).entries@,
                    x,
                ));
            }
        }
    }
}

} // verus!
