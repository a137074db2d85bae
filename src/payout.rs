use vstd::arithmetic::div_mod::{
    lemma_div_is_ordered, lemma_fundamental_div_mod, lemma_fundamental_div_mod_converse,
};
use vstd::prelude::*;

verus! {

/// The sum of the shares of a royalty table.
pub open spec fn total_shares(accounts: Seq<(String, u32)>) -> int
    decreases accounts.len(),
{
    if accounts.len() == 0 {
        0
    } else {
        total_shares(accounts.drop_last()) + accounts.last().1
    }
}

/// The sum of the amounts of a list of transfers.
pub open spec fn total_paid(transfers: Seq<(String, u128)>) -> int
    decreases transfers.len(),
{
    if transfers.len() == 0 {
        0
    } else {
        total_paid(transfers.drop_last()) + transfers.last().1
    }
}

/// What a share of `share` out of `percent` earns of `amount`, rounded down.
pub open spec fn share_of(amount: int, share: int, percent: int) -> int {
    amount * share / percent
}

/// One transfer to each account of the table, of its share of `amount`.
pub open spec fn share_payouts(accounts: Seq<(String, u32)>, percent: u32, amount: u128) -> Seq<
    (String, u128),
> {
    accounts.map_values(
        |e: (String, u32)| (e.0, share_of(amount as int, e.1 as int, percent as int) as u128),
    )
}

/// The transfers of a split of `amount`: the shares, then what rounding left
/// over, to `remainder_to`.
pub open spec fn payouts(
    accounts: Seq<(String, u32)>,
    percent: u32,
    amount: u128,
    remainder_to: String,
) -> Seq<(String, u128)> {
    let shares = share_payouts(accounts, percent, amount);
    shares.push((remainder_to, (amount - total_paid(shares)) as u128))
}

/// A table of payees, each with a share out of `percent`.
#[derive(Debug, Clone)]
pub struct Royalties {
    pub accounts: Vec<(String, u32)>,
    pub percent: u32,
}

impl Royalties {
    /// A table is valid when its shares add up to a positive `percent`.
    pub open spec fn valid(&self) -> bool {
        self.percent > 0 && total_shares(self.accounts@) == self.percent
    }

    /// Whether the shares add up to a positive `percent`.
    pub fn validate(&self) -> (r: bool)
        ensures
            r == self.valid(),
    {
        let n = self.accounts.len();
        let mut sum: u64 = 0;
        let mut i: usize = 0;
        while i < n
            invariant
                n == self.accounts@.len(),
                i <= n,
                sum == total_shares(self.accounts@.take(i as int)),
                sum <= self.percent,
            decreases n - i,
        {
            proof {
                assert(self.accounts@.take(i + 1).drop_last() =~= self.accounts@.take(i as int));
            }
            sum = sum + self.accounts[i].1 as u64;
            if sum > self.percent as u64 {
                proof {
                    lemma_total_shares_prefix(self.accounts@, i + 1, n as int);
                    assert(self.accounts@.take(n as int) =~= self.accounts@);
                }
                return false;
            }
            i = i + 1;
        }
        proof {
            assert(self.accounts@.take(n as int) =~= self.accounts@);
        }
        self.percent > 0 && sum == self.percent as u64
    }

    /// Splits `amount` among the accounts by their shares, rounding each
    /// down, and gives what is left over to `remainder_to`, so that the
    /// transfers add up to `amount` exactly.
    pub fn split(&self, amount: u128, remainder_to: &String) -> (r: Vec<(String, u128)>)
        requires
            self.valid(),
        ensures
            r@ == payouts(self.accounts@, self.percent, amount, *remainder_to),
            total_paid(r@) == amount,
    {
        let n = self.accounts.len();
        let percent = self.percent as u128;
        let q = amount / percent;
        let rem = amount % percent;
        let mut out: Vec<(String, u128)> = Vec::new();
        let mut paid: u128 = 0;
        let mut i: usize = 0;
        proof {
            lemma_payouts_sum(self.accounts@, self.percent, amount, *remainder_to);
            lemma_shares_bounded(self.accounts@, self.percent);
            lemma_fundamental_div_mod(amount as int, percent as int);
        }
        while i < n
            invariant
                self.valid(),
                n == self.accounts@.len(),
                percent == self.percent,
                q == amount / percent,
                rem == amount % percent,
                i <= n,
                out@ == share_payouts(self.accounts@.take(i as int), self.percent, amount),
                paid == total_paid(out@),
                forall|j: int| 0 <= j < n ==> #[trigger] self.accounts@[j].1 <= self.percent,
            decreases n - i,
        {
            let ghost accounts = self.accounts@;
            let share = self.accounts[i].1 as u128;
            proof {
                lemma_total_shares_prefix(accounts, i + 1, n as int);
                assert(accounts.take(n as int) =~= accounts);
                assert(accounts.take(i + 1).drop_last() =~= accounts.take(i as int));
                assert(share <= percent);
                lemma_fundamental_div_mod(amount as int, percent as int);
                assert forall|j: int| 0 <= j < i + 1 implies #[trigger] accounts.take(i + 1)[j].1
                    <= self.percent by {
                    assert(accounts.take(i + 1)[j] == accounts[j]);
                }
                lemma_payout_bounds(accounts.take(i + 1), self.percent, amount);
                assert(share_payouts(accounts.take(i + 1), self.percent, amount).drop_last()
                    =~= share_payouts(accounts.take(i as int), self.percent, amount));
                lemma_share_parts(amount as int, share as int, percent as int, q as int, rem as int);
                assert(rem * share < percent * percent) by (nonlinear_arith)
                    requires
                        rem < percent,
                        share <= percent,
                ;
                assert(percent * percent <= 0xffff_ffff_ffff_ffff_ffff_ffff_ffff_ffff) by (
                nonlinear_arith)
                    requires
                        percent <= 0xffff_ffff,
                ;
                assert(q * share <= q * percent) by (nonlinear_arith)
                    requires
                        share <= percent,
                ;
                assert(q * percent <= amount) by (nonlinear_arith)
                    requires
                        amount == percent * q + rem,
                        rem >= 0,
                ;
                lemma_total_shares_nonneg(accounts.take(i + 1));
                lemma_scaled_le(amount as int, total_shares(accounts.take(i + 1)), percent as int);
                lemma_scaled_le(amount as int, share as int, percent as int);
            }
            let part = q * share + (rem * share) / percent;
            let account = self.accounts[i].0.clone();
            out.push((account, part));
            paid = paid + part;
            i = i + 1;
            proof {
                assert(out@ =~= share_payouts(accounts.take(i as int), self.percent, amount));
            }
        }
        proof {
            assert(self.accounts@.take(n as int) =~= self.accounts@);
        }
        let leftover = amount - paid;
        out.push((remainder_to.clone(), leftover));
        proof {
            assert(out@.drop_last() =~= share_payouts(self.accounts@, self.percent, amount));
        }
        out
    }
}

/// What is left of `deposit` once `storage_used` bytes, at `byte_cost`
/// each, are paid for; None where the deposit does not cover them.
pub fn proceeds_after_storage(deposit: u128, byte_cost: u128, storage_used: u64) -> (r: Option<
    u128,
>)
    ensures
        byte_cost * storage_used <= deposit ==> r == Some((deposit - byte_cost * storage_used) as u128),
        byte_cost * storage_used > deposit ==> r is None,
{
    match byte_cost.checked_mul(storage_used as u128) {
        Some(cost) => if cost <= deposit {
            Some(deposit - cost)
        } else {
            None
        },
        None => None,
    }
}

/// `amount * share / percent` computed without overflow, from the quotient
/// and remainder of `amount` by `percent`.
proof fn lemma_share_parts(amount: int, share: int, percent: int, q: int, rem: int)
    requires
        percent > 0,
        share >= 0,
        q == amount / percent,
        rem == amount % percent,
    ensures
        share_of(amount, share, percent) == q * share + (rem * share) / percent,
{
    lemma_fundamental_div_mod(amount, percent);
    lemma_fundamental_div_mod(rem * share, percent);
    let x = rem * share;
    assert(amount * share == (q * share + x / percent) * percent + x % percent) by (nonlinear_arith)
        requires
            amount == percent * q + rem,
            x == rem * share,
            x == percent * (x / percent) + x % percent,
    ;
    lemma_fundamental_div_mod_converse(
        amount * share,
        percent,
        q * share + x / percent,
        x % percent,
    );
}

/// A share of at most the whole earns at most the whole amount.
proof fn lemma_scaled_le(amount: int, share: int, percent: int)
    requires
        amount >= 0,
        0 <= share <= percent,
        percent > 0,
    ensures
        0 <= share_of(amount, share, percent) <= amount,
{
    assert(amount * share <= amount * percent) by (nonlinear_arith)
        requires
            share <= percent,
            amount >= 0,
    ;
    assert(0 <= amount * share) by (nonlinear_arith)
        requires
            share >= 0,
            amount >= 0,
    ;
    lemma_div_is_ordered(amount * share, amount * percent, percent);
    lemma_div_is_ordered(0, amount * share, percent);
    lemma_fundamental_div_mod_converse(amount * percent, percent, amount, 0);
}

/// Prefix sums of a royalty table never decrease.
proof fn lemma_total_shares_prefix(accounts: Seq<(String, u32)>, j: int, k: int)
    requires
        0 <= j <= k <= accounts.len(),
    ensures
        total_shares(accounts.take(j)) <= total_shares(accounts.take(k)),
        j > 0 ==> accounts[j - 1].1 <= total_shares(accounts.take(k)),
    decreases k - j,
{
    if j < k {
        lemma_total_shares_prefix(accounts, j, k - 1);
        assert(accounts.take(k).drop_last() =~= accounts.take(k - 1));
    } else if j > 0 {
        assert(accounts.take(j).drop_last() =~= accounts.take(j - 1));
        lemma_total_shares_nonneg(accounts.take(j - 1));
    }
}

proof fn lemma_total_shares_nonneg(accounts: Seq<(String, u32)>)
    ensures
        total_shares(accounts) >= 0,
    decreases accounts.len(),
{
    if accounts.len() > 0 {
        lemma_total_shares_nonneg(accounts.drop_last());
    }
}

/// Rounding down each of two parts loses at least as much as rounding down
/// their sum.
proof fn lemma_floor_add(x: int, y: int, d: int)
    requires
        d > 0,
    ensures
        x / d + y / d <= (x + y) / d,
{
    lemma_fundamental_div_mod(x, d);
    lemma_fundamental_div_mod(y, d);
    lemma_fundamental_div_mod(x + y, d);
    let a = x / d + y / d;
    let b = (x + y) / d;
    assert(a * d <= x + y) by (nonlinear_arith)
        requires
            x == d * (x / d) + x % d,
            y == d * (y / d) + y % d,
            x % d >= 0,
            y % d >= 0,
            a == x / d + y / d,
    ;
    assert(a <= b) by (nonlinear_arith)
        requires
            a * d <= x + y,
            x + y == d * b + (x + y) % d,
            (x + y) % d < d,
            d > 0,
    ;
}

/// The shares paid out on a table whose shares are each at most `percent`
/// add up to at most `amount` times the table's total over `percent`.
proof fn lemma_payout_bounds(accounts: Seq<(String, u32)>, percent: u32, amount: u128)
    requires
        percent > 0,
        forall|j: int| 0 <= j < accounts.len() ==> #[trigger] accounts[j].1 <= percent,
    ensures
        0 <= total_paid(share_payouts(accounts, percent, amount)) <= (amount as int)
            * total_shares(accounts) / (percent as int),
    decreases accounts.len(),
{
    if accounts.len() > 0 {
        let init = accounts.drop_last();
        let s = accounts.last().1 as int;
        let p = percent as int;
        let a = amount as int;
        lemma_payout_bounds(init, percent, amount);
        assert(share_payouts(accounts, percent, amount).drop_last() =~= share_payouts(
            init,
            percent,
            amount,
        ));
        lemma_total_shares_nonneg(init);
        assert(a * s <= a * p) by (nonlinear_arith)
            requires
                s <= p,
                a >= 0,
        ;
        lemma_div_is_ordered(a * s, a * p, p);
        lemma_fundamental_div_mod_converse(a * p, p, a, 0);
        assert(0 <= a * s) by (nonlinear_arith)
            requires
                s >= 0,
                a >= 0,
        ;
        lemma_div_is_ordered(0, a * s, p);
        lemma_floor_add(a * total_shares(init), a * s, p);
        assert(a * total_shares(init) + a * s == a * total_shares(accounts)) by (nonlinear_arith)
            requires
                total_shares(accounts) == total_shares(init) + s,
        ;
    }
}

/// In a table whose shares add up to `percent`, no share exceeds `percent`.
proof fn lemma_shares_bounded(accounts: Seq<(String, u32)>, percent: u32)
    requires
        total_shares(accounts) == percent,
    ensures
        forall|j: int| 0 <= j < accounts.len() ==> #[trigger] accounts[j].1 <= percent,
{
    assert forall|j: int| 0 <= j < accounts.len() implies #[trigger] accounts[j].1 <= percent by {
        lemma_total_shares_prefix(accounts, j + 1, accounts.len() as int);
        assert(accounts.take(accounts.len() as int) =~= accounts);
    }
}

/// Whatever the amount, the transfers of a split of a valid table add up to
/// the amount exactly, and the shares alone never exceed it.
pub proof fn lemma_payouts_sum(
    accounts: Seq<(String, u32)>,
    percent: u32,
    amount: u128,
    remainder_to: String,
)
    requires
        percent > 0,
        total_shares(accounts) == percent,
    ensures
        total_paid(share_payouts(accounts, percent, amount)) <= amount,
        total_paid(payouts(accounts, percent, amount, remainder_to)) == amount,
{
    lemma_shares_bounded(accounts, percent);
    lemma_payout_bounds(accounts, percent, amount);
    lemma_fundamental_div_mod_converse((amount as int) * (percent as int), percent as int, amount as int, 0);
    let shares = share_payouts(accounts, percent, amount);
    assert(payouts(accounts, percent, amount, remainder_to).drop_last() =~= shares);
}

} // verus!
