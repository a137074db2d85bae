use crate::allowance::Allowance;
use crate::payout::{payouts, total_paid, total_shares, Royalties};
use crate::raffle::{draws, Raffle};
use crate::sale::{ConfigError, Sale, Status};
use crate::whitelist::Whitelist;
use vstd::prelude::*;
use vstd::string::StrSliceExecFns;

verus! {

/// One unit of the ledger's currency, in its smallest unit.
pub const ONE_NEAR: u128 = 1_000_000_000_000_000_000_000_000;

/// What an account other than the owner pays for a claim link, on top of
/// the deposit the link itself holds.
pub const LINK_FEE: u128 = 8_000_000_000_000_000_000_000;

/// Why a mint was refused. A refused mint changes nothing.
#[derive(Debug, Clone, Copy, PartialEq, Eq, Structural)]
pub enum MintError {
    /// More items were asked for in one call than the sale allows.
    OverMintLimit,
    /// No items are left to mint.
    SoldOut,
    /// The sale has not started.
    Closed,
    /// During the presale, the account has no allowance.
    NotWhitelisted,
    /// The account has used up its allowance.
    NoAllowanceLeft,
    /// The attached deposit does not pay for the items.
    NotEnoughDeposit,
}

/// Why a step of a deferred mint was refused. A refused step changes nothing.
#[derive(Debug, Clone, Copy, PartialEq, Eq, Structural)]
pub enum ReservationError {
    /// No item is left that is not already reserved.
    SoldOut,
    /// The attached deposit does not pay for the claim link.
    NotEnoughDeposit,
    /// No reservation is waiting to be resolved.
    NonePending,
}

/// How a claimed link was resolved.
#[derive(Debug, Clone, Copy, PartialEq, Eq, Structural)]
pub enum LinkOutcome {
    /// The step succeeded and this item was drawn.
    Minted(u64),
    /// The step failed and this deposit is to be refunded.
    Refunded(u128),
}

/// Why an administrative call was refused.
#[derive(Debug, Clone, Copy, PartialEq, Eq, Structural)]
pub enum AccessError {
    /// Only the owner may do this.
    NotOwner,
    /// Only the owner or an admin may do this.
    NotOwnerOrAdmin,
}

/// Whether `c` is the first character of `s`.
fn starts_with_char(s: &String, c: char) -> (r: bool)
    ensures
        r == (s@.len() > 0 && s@[0] == c),
{
    let t = s.as_str();
    t.unicode_len() > 0 && t.get_char(0) == c
}

/// The state of the sale: the pool of items, the reservations in flight,
/// the allowances, the terms and the admins.
pub struct Contract {
    owner_id: String,
    raffle: Raffle,
    pending_tokens: u32,
    whitelist: Whitelist,
    sale: Sale,
    admins: Vec<String>,
    media_extension: Option<String>,
}

/// No allowance in `wl` is overdrawn.
pub open spec fn allowances_bounded(wl: Map<Seq<char>, Allowance>) -> bool {
    forall|k: Seq<char>| wl.contains_key(k) ==> #[trigger] wl[k].used() <= wl[k].max()
}

impl Contract {
    pub closed spec fn owner(&self) -> Seq<char> {
        self.owner_id@
    }

    pub closed spec fn owner_account(&self) -> String {
        self.owner_id
    }

    /// The pool of items not yet issued.
    pub closed spec fn pool(&self) -> Raffle {
        self.raffle
    }

    /// The reservations dispatched and not yet resolved.
    pub closed spec fn pending(&self) -> nat {
        self.pending_tokens as nat
    }

    pub closed spec fn whitelist(&self) -> Map<Seq<char>, Allowance> {
        self.whitelist@
    }

    pub closed spec fn sale(&self) -> Sale {
        self.sale
    }

    pub closed spec fn admins(&self) -> Seq<String> {
        self.admins@
    }

    pub closed spec fn media_extension(&self) -> Option<String> {
        self.media_extension
    }

    /// This state with `pending` reservations in flight.
    pub closed spec fn with_pending(self, pending: u32) -> Contract {
        Contract { pending_tokens: pending, ..self }
    }

    pub closed spec fn wf(&self) -> bool {
        &&& self.raffle.wf()
        &&& self.raffle.size() <= u32::MAX
        &&& self.pending_tokens <= self.raffle@.len()
        &&& self.sale.valid()
        &&& allowances_bounded(self.whitelist@)
    }

    pub open spec fn spec_is_owner(&self, account: Seq<char>) -> bool {
        account == self.owner()
    }

    /// What a claim link costs `minter`: the link's deposit, plus a fee for
    /// anyone but the owner.
    pub open spec fn spec_link_price(&self, minter: Seq<char>, linkdrop_deposit: u128) -> int {
        linkdrop_deposit + if self.spec_is_owner(minter) {
            0
        } else {
            LINK_FEE
        }
    }

    /// Whether this state and `other` differ at most in the count of
    /// reservations in flight.
    pub open spec fn same_but_pending(&self, other: Contract) -> bool {
        &&& self.pool() == other.pool()
        &&& self.whitelist() == other.whitelist()
        &&& self.sale() == other.sale()
        &&& self.owner() == other.owner()
        &&& self.owner_account() == other.owner_account()
        &&& self.admins() == other.admins()
        &&& self.media_extension() == other.media_extension()
    }

    /// Whether `after` is this state with one reservation released.
    pub open spec fn released(&self, after: Contract) -> bool {
        &&& self.pending() > 0
        &&& after == self.with_pending((self.pending() - 1) as u32)
        &&& after.pending() == self.pending() - 1
        &&& after.same_but_pending(*self)
    }

    /// What a reservation's dispatch does: with `minter` paying `attached`
    /// for a link holding `linkdrop_deposit`, it yields `r` and `after`.
    pub open spec fn dispatch_outcome(
        &self,
        minter: Seq<char>,
        attached: u128,
        linkdrop_deposit: u128,
        after: Contract,
        r: Result<u128, ReservationError>,
    ) -> bool {
        let price = self.spec_link_price(minter, linkdrop_deposit);
        &&& r is Ok <==> self.spec_tokens_left() > 0 && attached >= price
        &&& self.spec_tokens_left() == 0 ==> r == Err::<u128, ReservationError>(
            ReservationError::SoldOut,
        )
        &&& self.spec_tokens_left() > 0 && attached < price ==> r == Err::<u128, ReservationError>(
            ReservationError::NotEnoughDeposit,
        )
        &&& r is Err ==> after == *self
        &&& r matches Ok(charged) ==> {
            &&& charged == price
            &&& charged <= attached
            &&& after == self.with_pending((self.pending() + 1) as u32)
            &&& after.pending() == self.pending() + 1
            &&& after.same_but_pending(*self)
        }
    }

    /// What resolving a failed step does: with `attached` coming back with
    /// it, it yields `r` and `after`.
    pub open spec fn failed_send_outcome(
        &self,
        attached: u128,
        after: Contract,
        r: Result<u128, ReservationError>,
    ) -> bool {
        &&& self.pending() == 0 ==> r == Err::<u128, ReservationError>(
            ReservationError::NonePending,
        ) && after == *self
        &&& self.pending() > 0 ==> r == Ok::<u128, ReservationError>(attached) && self.released(
            after,
        )
    }

    pub open spec fn spec_is_admin(&self, account: Seq<char>) -> bool {
        exists|i: int| 0 <= i < self.admins().len() && #[trigger] self.admins()[i]@ == account
    }

    /// Items that may still be minted: the pool less what is reserved.
    pub open spec fn spec_tokens_left(&self) -> int {
        self.pool()@.len() - self.pending()
    }

    pub open spec fn spec_status(&self, now: u64) -> Status {
        self.sale().spec_status(now, self.spec_tokens_left() as nat)
    }

    /// The allowance an account other than the owner mints against in phase
    /// `status`: its own in the presale; in the public sale, where every
    /// account has one, its own (or a fresh one) raised to the sale's.
    pub open spec fn spec_entry(&self, account: Seq<char>, status: Status) -> Option<Allowance> {
        let wl = self.whitelist();
        match status {
            Status::Presale => if wl.contains_key(account) {
                Some(wl[account])
            } else {
                None
            },
            Status::Open => match self.sale().allowance {
                Some(p) => Some(
                    (if wl.contains_key(account) {
                        wl[account]
                    } else {
                        Allowance::fresh(p)
                    }).raised(p),
                ),
                None => None,
            },
            _ => None,
        }
    }

    /// How many of `num` items the account may mint at `now`, before what
    /// is available and the deposit are looked at.
    pub open spec fn spec_quota(&self, account: Seq<char>, num: u16, now: u64) -> Result<
        u16,
        MintError,
    > {
        let status = self.spec_status(now);
        if self.spec_is_owner(account) {
            Ok(num)
        } else if status == Status::SoldOut {
            Err(MintError::SoldOut)
        } else if status == Status::Closed {
            Err(MintError::Closed)
        } else if status == Status::Presale && !self.whitelist().contains_key(account) {
            Err(MintError::NotWhitelisted)
        } else {
            let granted: int = match self.spec_entry(account, status) {
                Some(a) => if a.spec_left() < num {
                    a.spec_left() as int
                } else {
                    num as int
                },
                None => num as int,
            };
            if granted == 0 {
                Err(MintError::NoAllowanceLeft)
            } else {
                Ok(granted as u16)
            }
        }
    }

    /// What `n` items cost the account at `now`: nothing for the owner.
    pub open spec fn spec_cost(&self, account: Seq<char>, n: u16, now: u64) -> int {
        if self.spec_is_owner(account) {
            0
        } else {
            n * self.sale().spec_price(self.spec_status(now))
        }
    }

    /// The number of items a mint of `num` by `account` at `now` with
    /// `attached` paid issues, or why it is refused.
    pub open spec fn spec_mint_plan(&self, account: Seq<char>, num: u16, now: u64, attached: u128) -> Result<
        u16,
        MintError,
    > {
        if self.sale().mint_rate_limit is Some && num > self.sale().mint_rate_limit->0 {
            Err(MintError::OverMintLimit)
        } else {
            match self.spec_quota(account, num, now) {
                Err(e) => Err(e),
                Ok(n) => if self.spec_tokens_left() < n {
                    Err(MintError::SoldOut)
                } else if attached < self.spec_cost(account, n, now) {
                    Err(MintError::NotEnoughDeposit)
                } else {
                    Ok(n)
                },
            }
        }
    }

    /// The allowances after `account` minted `n` items at `now`.
    pub open spec fn spec_whitelist_after(&self, account: Seq<char>, n: u16, now: u64) -> Map<
        Seq<char>,
        Allowance,
    > {
        if self.spec_is_owner(account) {
            self.whitelist()
        } else {
            match self.spec_entry(account, self.spec_status(now)) {
                Some(a) => self.whitelist().insert(account, a.consumed(n)),
                None => self.whitelist(),
            }
        }
    }

    /// A sale owned by `owner_id` of `size` items. Fails where a royalty
    /// table is not valid or the media extension starts with a dot.
    pub fn new(owner_id: String, size: u32, sale: Sale, media_extension: Option<String>) -> (r:
        Result<Contract, ConfigError>)
        ensures
            r is Ok <==> sale.valid() && !(media_extension matches Some(e) && e@.len() > 0
                && e@[0] == '.'),
            !sale.valid() ==> r is Err && r->Err_0 != ConfigError::MediaExtensionStartsWithDot,
            sale.valid() && !(r is Ok) ==> r == Err::<Contract, ConfigError>(
                ConfigError::MediaExtensionStartsWithDot,
            ),
            r matches Ok(c) ==> {
                &&& c.wf()
                &&& c.owner() == owner_id@
                &&& c.pool()@.len() == size
                &&& c.pool().issued() == Set::<u64>::empty()
                &&& c.pending() == 0
                &&& c.whitelist() == Map::<Seq<char>, Allowance>::empty()
                &&& c.sale() == sale
                &&& c.admins().len() == 0
                &&& c.media_extension() == media_extension
            },
    {
        match sale.validate() {
            Err(e) => {
                return Err(e);
            },
            Ok(()) => {},
        }
        if let Some(ext) = &media_extension {
            if starts_with_char(ext, '.') {
                return Err(ConfigError::MediaExtensionStartsWithDot);
            }
        }
        Ok(Contract {
            owner_id,
            raffle: Raffle::new(size as u64),
            pending_tokens: 0,
            whitelist: Whitelist::new(),
            sale,
            admins: Vec::new(),
            media_extension,
        })
    }

    /// Whether `account` is the owner.
    pub fn is_owner(&self, account: &String) -> (r: bool)
        ensures
            r == self.spec_is_owner(account@),
    {
        *account == self.owner_id
    }

    /// Whether `account` is an admin.
    pub fn is_admin(&self, account: &String) -> (r: bool)
        ensures
            r == self.spec_is_admin(account@),
    {
        let n = self.admins.len();
        let mut i: usize = 0;
        while i < n
            invariant
                n == self.admins@.len(),
                i <= n,
                forall|j: int| 0 <= j < i ==> #[trigger] self.admins@[j]@ != account@,
            decreases n - i,
        {
            if self.admins[i] == *account {
                proof {
                    assert(self.admins()[i as int]@ == account@);
                }
                return true;
            }
            i = i + 1;
        }
        false
    }

    /// Whether `account` is the owner or an admin.
    pub fn is_owner_or_admin(&self, account: &String) -> (r: bool)
        ensures
            r == (self.spec_is_owner(account@) || self.spec_is_admin(account@)),
    {
        self.is_owner(account) || self.is_admin(account)
    }

    /// Items that may still be minted: the pool less what is reserved.
    pub fn tokens_left(&self) -> (n: u64)
        requires
            self.wf(),
        ensures
            n == self.spec_tokens_left(),
    {
        self.raffle.len() - self.pending_tokens as u64
    }

    /// The phase of the sale at `now`.
    pub fn get_status(&self, now: u64) -> (r: Status)
        requires
            self.wf(),
        ensures
            r == self.spec_status(now),
    {
        self.sale.status(now, self.tokens_left())
    }

    /// The price of one item at `now`.
    pub fn price(&self, now: u64) -> (r: u128)
        requires
            self.wf(),
        ensures
            r == self.sale().spec_price(self.spec_status(now)),
    {
        self.sale.price(self.get_status(now))
    }

    /// Whether mints at `now` count against allowances: where the sale
    /// gives every account one, or during the presale.
    pub fn has_allowance(&self, now: u64) -> (r: bool)
        requires
            self.wf(),
        ensures
            r == (self.sale().allowance is Some || self.spec_status(now) == Status::Presale),
    {
        self.sale.allowance.is_some() || self.is_presale(now)
    }

    /// Whether the sale is in its presale at `now`.
    pub fn is_presale(&self, now: u64) -> (r: bool)
        requires
            self.wf(),
        ensures
            r == (self.spec_status(now) == Status::Presale),
    {
        match self.get_status(now) {
            Status::Presale => true,
            _ => false,
        }
    }

    /// The allowance `account` holds, where it holds one.
    pub fn get_whitelist_allowance(&self, account: &String) -> (r: Option<Allowance>)
        ensures
            r == (if self.whitelist().contains_key(account@) {
                Some(self.whitelist()[account@])
            } else {
                None
            }),
    {
        self.whitelist.get(account)
    }

    /// The allowance `account` would mint against in the public sale: its
    /// own, or a fresh one, raised to the sale's; none where the sale sets
    /// none. This only reads: the allowance is stored, used, when a mint
    /// succeeds.
    pub fn public_sale_allowance(&self, account: &String) -> (r: Option<Allowance>)
        ensures
            r == self.spec_entry(account@, Status::Open),
    {
        match self.sale.allowance {
            None => None,
            Some(public_allowance) => {
                let current = match self.whitelist.get(account) {
                    Some(a) => a,
                    None => Allowance::new(public_allowance),
                };
                Some(current.raise_max(public_allowance))
            },
        }
    }

    /// Whether `attached` pays for `num` items for `account` at `now`.
    fn assert_deposit(&self, num: u16, account: &String, now: u64, attached: u128) -> (r: bool)
        requires
            self.wf(),
        ensures
            r == (attached >= self.spec_cost(account@, num, now)),
    {
        if self.is_owner(account) {
            return true;
        }
        let price = self.price(now);
        match (num as u128).checked_mul(price) {
            Some(cost) => attached >= cost,
            None => false,
        }
    }

    /// How many of `num` items `account` may mint at `now` with `attached`
    /// paid, and the allowance it then mints against.
    fn assert_can_mint(&self, account: &String, num: u16, now: u64, attached: u128) -> (r: Result<
        (u16, Option<Allowance>),
        MintError,
    >)
        requires
            self.wf(),
            !(self.sale().mint_rate_limit is Some && num > self.sale().mint_rate_limit->0),
        ensures
            match r {
                Ok((n, entry)) => {
                    &&& self.spec_mint_plan(account@, num, now, attached) == Ok::<u16, MintError>(n)
                    &&& entry == (if self.spec_is_owner(account@) {
                        None
                    } else {
                        self.spec_entry(account@, self.spec_status(now))
                    })
                    &&& entry matches Some(a) ==> n <= a.spec_left()
                },
                Err(e) => self.spec_mint_plan(account@, num, now, attached) == Err::<u16, MintError>(
                    e,
                ),
            },
    {
        let mut n = num;
        let mut entry: Option<Allowance> = None;
        if !self.is_owner(account) {
            let status = self.get_status(now);
            entry = match status {
                Status::SoldOut => {
                    return Err(MintError::SoldOut);
                },
                Status::Closed => {
                    return Err(MintError::Closed);
                },
                Status::Presale => match self.get_whitelist_allowance(account) {
                    None => {
                        return Err(MintError::NotWhitelisted);
                    },
                    Some(a) => Some(a),
                },
                Status::Open => self.public_sale_allowance(account),
            };
            if let Some(a) = entry {
                let left = a.left();
                if left < n {
                    n = left;
                }
            }
            if n == 0 {
                return Err(MintError::NoAllowanceLeft);
            }
        }
        if self.tokens_left() < n as u64 {
            return Err(MintError::SoldOut);
        }
        if !self.assert_deposit(n, account, now, attached) {
            return Err(MintError::NotEnoughDeposit);
        }
        Ok((n, entry))
    }

    /// Records `num` items as minted against `entry`, the allowance of
    /// `account`.
    fn record_allowance_use(&mut self, account: &String, entry: Option<Allowance>, num: u16)
        requires
            entry matches Some(a) ==> num <= a.spec_left(),
        ensures
            *final(self) == (Contract {
                whitelist: final(self).whitelist,
                ..*old(self)
            }),
            final(self).whitelist() == match entry {
                Some(a) => old(self).whitelist().insert(account@, a.consumed(num)),
                None => old(self).whitelist(),
            },
            allowances_bounded(old(self).whitelist()) ==> allowances_bounded(final(self).whitelist()),
    {
        if let Some(a) = entry {
            let mut used = a;
            let _ = used.use_num(num);
            self.whitelist.insert(account, used);
        }
    }

    /// Records `num` items as minted by `account` at `now`, where mints then
    /// count against allowances and `account` is not the owner. Fails, and
    /// changes nothing, where the account has no allowance or less than
    /// `num` left of it.
    pub fn use_whitelist_allowance(&mut self, account: &String, num: u16, now: u64) -> (r: Result<
        (),
        MintError,
    >)
        requires
            old(self).wf(),
        ensures
            final(self).wf(),
            ({
                let counted = (old(self).sale().allowance is Some || old(self).spec_status(now)
                    == Status::Presale) && !old(self).spec_is_owner(account@);
                let wl = old(self).whitelist();
                &&& !counted ==> r == Ok::<(), MintError>(()) && *final(self) == *old(self)
                &&& counted && !wl.contains_key(account@) ==> r == Err::<(), MintError>(
                    MintError::NotWhitelisted,
                ) && *final(self) == *old(self)
                &&& counted && wl.contains_key(account@) && num > wl[account@].spec_left()
                    ==> r == Err::<(), MintError>(MintError::NoAllowanceLeft) && *final(self)
                    == *old(self)
                &&& counted && wl.contains_key(account@) && num <= wl[account@].spec_left() ==> {
                    &&& r == Ok::<(), MintError>(())
                    &&& final(self).whitelist() == wl.insert(account@, wl[account@].consumed(num))
                    &&& final(self).whitelist()[account@].used() == wl[account@].used() + num
                    &&& final(self).whitelist()[account@].used() <= final(self).whitelist()[account@].max()
                    &&& final(self).pool() == old(self).pool()
                    &&& final(self).pending() == old(self).pending()
                    &&& final(self).sale() == old(self).sale()
                    &&& final(self).owner() == old(self).owner()
                    &&& final(self).admins() == old(self).admins()
                }
            }),
    {
        if !self.has_allowance(now) || self.is_owner(account) {
            return Ok(());
        }
        let mut allowance = match self.whitelist.get(account) {
            Some(a) => a,
            None => {
                return Err(MintError::NotWhitelisted);
            },
        };
        match allowance.use_num(num) {
            Ok(()) => {},
            Err(_) => {
                return Err(MintError::NoAllowanceLeft);
            },
        }
        self.whitelist.insert(account, allowance);
        Ok(())
    }

    /// Mints up to `num` items for `signer` at `now`, with `attached` paid
    /// and `seed` as the host's entropy, and returns their ids in the order
    /// drawn. The owner mints for free and without an allowance; anyone
    /// else mints only while the sale is in presale or open, at most what
    /// is left of their allowance. On any refusal nothing changes.
    pub fn nft_mint_many(
        &mut self,
        signer: &String,
        num: u16,
        now: u64,
        attached: u128,
        seed: u64,
    ) -> (r: Result<Vec<u64>, MintError>)
        requires
            old(self).wf(),
        ensures
            final(self).wf(),
            match r {
                Ok(ids) => {
                    &&& old(self).spec_mint_plan(signer@, num, now, attached) == Ok::<
                        u16,
                        MintError,
                    >(ids@.len() as u16)
                    &&& 0 < ids@.len() <= num || (ids@.len() == 0 && num == 0)
                    &&& (ids@, final(self).pool()@) == draws(
                        old(self).pool()@,
                        seed,
                        ids@.len(),
                    )
                    &&& ids@.no_duplicates()
                    &&& final(self).pool().issued() == old(self).pool().issued().union(
                        ids@.to_set(),
                    )
                    &&& final(self).whitelist() == old(self).spec_whitelist_after(
                        signer@,
                        ids@.len() as u16,
                        now,
                    )
                    &&& final(self).pending() == old(self).pending()
                    &&& final(self).sale() == old(self).sale()
                    &&& final(self).owner() == old(self).owner()
                    &&& final(self).admins() == old(self).admins()
                    &&& final(self).media_extension() == old(self).media_extension()
                },
                Err(e) => {
                    &&& old(self).spec_mint_plan(signer@, num, now, attached) == Err::<
                        u16,
                        MintError,
                    >(e)
                    &&& *final(self) == *old(self)
                },
            },
    {
        if let Some(limit) = self.sale.mint_rate_limit {
            if num > limit {
                return Err(MintError::OverMintLimit);
            }
        }
        let (n, entry) = match self.assert_can_mint(signer, num, now, attached) {
            Ok(plan) => plan,
            Err(e) => {
                return Err(e);
            },
        };
        let ids = self.raffle.draw_many(seed, n as u64);
        self.record_allowance_use(signer, entry, n);
        Ok(ids)
    }

    /// Mints one item for `signer`; see `nft_mint_many`.
    pub fn nft_mint_one(&mut self, signer: &String, now: u64, attached: u128, seed: u64) -> (r:
        Result<u64, MintError>)
        requires
            old(self).wf(),
        ensures
            final(self).wf(),
            match r {
                Ok(id) => {
                    &&& old(self).spec_mint_plan(signer@, 1, now, attached) == Ok::<u16, MintError>(
                        1,
                    )
                    &&& (seq![id], final(self).pool()@) == draws(old(self).pool()@, seed, 1)
                    &&& final(self).pool().issued() == old(self).pool().issued().insert(id)
                    &&& final(self).whitelist() == old(self).spec_whitelist_after(signer@, 1, now)
                    &&& final(self).pending() == old(self).pending()
                    &&& final(self).sale() == old(self).sale()
                    &&& final(self).owner() == old(self).owner()
                    &&& final(self).admins() == old(self).admins()
                    &&& final(self).media_extension() == old(self).media_extension()
                },
                Err(e) => {
                    &&& old(self).spec_mint_plan(signer@, 1, now, attached) == Err::<
                        u16,
                        MintError,
                    >(e)
                    &&& *final(self) == *old(self)
                },
            },
    {
        let ids = match self.nft_mint_many(signer, 1, now, attached, seed) {
            Ok(ids) => ids,
            Err(e) => {
                return Err(e);
            },
        };
        proof {
            assert(ids@.len() == 1);
            assert(ids@ =~= seq![ids@[0]]);
            assert(ids@.to_set() =~= Set::<u64>::empty().insert(ids@[0]));
        }
        Ok(ids[0])
    }

    /// The standard entry point for a mint: mints one item for `signer`.
    pub fn nft_mint(&mut self, signer: &String, now: u64, attached: u128, seed: u64) -> (r: Result<
        u64,
        MintError,
    >)
        requires
            old(self).wf(),
        ensures
            final(self).wf(),
            match r {
                Ok(id) => {
                    &&& old(self).spec_mint_plan(signer@, 1, now, attached) == Ok::<u16, MintError>(
                        1,
                    )
                    &&& (seq![id], final(self).pool()@) == draws(old(self).pool()@, seed, 1)
                    &&& final(self).pool().issued() == old(self).pool().issued().insert(id)
                    &&& final(self).whitelist() == old(self).spec_whitelist_after(signer@, 1, now)
                    &&& final(self).pending() == old(self).pending()
                    &&& final(self).sale() == old(self).sale()
                    &&& final(self).owner() == old(self).owner()
                    &&& final(self).admins() == old(self).admins()
                    &&& final(self).media_extension() == old(self).media_extension()
                },
                Err(e) => {
                    &&& old(self).spec_mint_plan(signer@, 1, now, attached) == Err::<
                        u16,
                        MintError,
                    >(e)
                    &&& *final(self) == *old(self)
                },
            },
    {
        self.nft_mint_one(signer, now, attached, seed)
    }

    /// The owner's account.
    pub fn owner_id(&self) -> (r: &String)
        ensures
            r@ == self.owner(),
    {
        &self.owner_id
    }

    /// The reservations dispatched and not yet resolved.
    pub fn pending_tokens(&self) -> (r: u32)
        ensures
            r == self.pending(),
    {
        self.pending_tokens
    }

    /// The terms of the sale.
    pub fn get_sale(&self) -> (r: &Sale)
        ensures
            *r == self.sale(),
    {
        &self.sale
    }

    /// The extension of media links, where one is set.
    pub fn get_media_extension(&self) -> (r: &Option<String>)
        ensures
            *r == self.media_extension(),
    {
        &self.media_extension
    }

    /// What a claim link costs `minter`: the deposit the link holds, plus
    /// a fee for anyone but the owner.
    pub fn full_link_price(&self, minter: &String, linkdrop_deposit: u128) -> (r: u128)
        requires
            linkdrop_deposit <= u128::MAX - LINK_FEE,
        ensures
            r == linkdrop_deposit + if self.spec_is_owner(minter@) {
                0
            } else {
                LINK_FEE
            },
    {
        linkdrop_deposit + if self.is_owner(minter) {
            0
        } else {
            LINK_FEE
        }
    }

    /// Reserves one item for a mint that waits on an outside step, which
    /// `attached` must pay for. Returns what the step is charged; the item
    /// is drawn only when the step succeeds.
    pub fn dispatch_reservation(&mut self, minter: &String, attached: u128, linkdrop_deposit: u128) -> (r:
        Result<u128, ReservationError>)
        requires
            old(self).wf(),
        ensures
            final(self).wf(),
            old(self).dispatch_outcome(minter@, attached, linkdrop_deposit, *final(self), r),
    {
        if self.tokens_left() == 0 {
            return Err(ReservationError::SoldOut);
        }
        let fee: u128 = if self.is_owner(minter) {
            0
        } else {
            LINK_FEE
        };
        let charged = match linkdrop_deposit.checked_add(fee) {
            Some(c) => c,
            None => {
                return Err(ReservationError::NotEnoughDeposit);
            },
        };
        if attached < charged {
            return Err(ReservationError::NotEnoughDeposit);
        }
        proof {
            crate::raffle::lemma_partition(&self.raffle);
        }
        self.pending_tokens = self.pending_tokens + 1;
        Ok(charged)
    }

    /// Resolves the outside step of a reservation: where it failed, the
    /// reservation is released, nothing is drawn, and the deposit that came
    /// back with the step, `attached`, is returned for refunding. Where the
    /// step succeeded nothing happens here and nothing is refunded; the item
    /// is drawn when the link is claimed.
    pub fn on_send_with_callback(&mut self, succeeded: bool, attached: u128) -> (r: Result<
        u128,
        ReservationError,
    >)
        requires
            old(self).wf(),
        ensures
            final(self).wf(),
            succeeded ==> r == Ok::<u128, ReservationError>(0) && *final(self) == *old(self),
            !succeeded ==> old(self).failed_send_outcome(attached, *final(self), r),
    {
        if succeeded {
            return Ok(0);
        }
        if self.pending_tokens == 0 {
            return Err(ReservationError::NonePending);
        }
        self.pending_tokens = self.pending_tokens - 1;
        Ok(attached)
    }

    /// Resolves a reservation when its link is claimed. Where the step
    /// before the claim succeeded, the reservation is released and its item
    /// drawn with `seed`. Where it failed, the reservation is released,
    /// nothing is drawn, and the deposit that came back with the step,
    /// `attached`, is returned for refunding. Fails, changing nothing, where
    /// no reservation is waiting.
    pub fn link_callback(&mut self, succeeded: bool, attached: u128, seed: u64) -> (r: Result<
        LinkOutcome,
        ReservationError,
    >)
        requires
            old(self).wf(),
        ensures
            final(self).wf(),
            old(self).pending() == 0 ==> r == Err::<LinkOutcome, ReservationError>(
                ReservationError::NonePending,
            ) && *final(self) == *old(self),
            old(self).pending() > 0 && !succeeded ==> r == Ok::<LinkOutcome, ReservationError>(
                LinkOutcome::Refunded(attached),
            ) && old(self).released(*final(self)),
            old(self).pending() > 0 && succeeded ==> (r matches Ok(LinkOutcome::Minted(id)) && {
                &&& (seq![id], final(self).pool()@) == draws(old(self).pool()@, seed, 1)
                &&& final(self).pool().issued() == old(self).pool().issued().insert(id)
                &&& final(self).pending() == old(self).pending() - 1
                &&& final(self).whitelist() == old(self).whitelist()
                &&& final(self).sale() == old(self).sale()
                &&& final(self).owner() == old(self).owner()
                &&& final(self).owner_account() == old(self).owner_account()
                &&& final(self).admins() == old(self).admins()
                &&& final(self).media_extension() == old(self).media_extension()
            }),
    {
        if self.pending_tokens == 0 {
            return Err(ReservationError::NonePending);
        }
        self.pending_tokens = self.pending_tokens - 1;
        if !succeeded {
            return Ok(LinkOutcome::Refunded(attached));
        }
        let ids = self.raffle.draw_many(seed, 1);
        proof {
            assert(ids@ =~= seq![ids@[0]]);
            assert(ids@.to_set() =~= Set::<u64>::empty().insert(ids@[0]));
        }
        Ok(LinkOutcome::Minted(ids[0]))
    }

    /// Makes `account` an admin, where it is not one already. Only the owner
    /// may.
    pub fn add_admin(&mut self, signer: &String, account: String) -> (r: Result<(), AccessError>)
        requires
            old(self).wf(),
        ensures
            final(self).wf(),
            r is Ok <==> old(self).spec_is_owner(signer@),
            r is Err ==> r == Err::<(), AccessError>(AccessError::NotOwner) && *final(self) == *old(self),
            r is Ok ==> {
                &&& final(self).admins() == if old(self).spec_is_admin(account@) {
                    old(self).admins()
                } else {
                    old(self).admins().push(account)
                }
                &&& final(self).whitelist() == old(self).whitelist()
                &&& final(self).pool() == old(self).pool()
                &&& final(self).pending() == old(self).pending()
                &&& final(self).sale() == old(self).sale()
                &&& final(self).owner() == old(self).owner()
                &&& final(self).owner_account() == old(self).owner_account()
                &&& final(self).media_extension() == old(self).media_extension()
            },
    {
        if !self.is_owner(signer) {
            return Err(AccessError::NotOwner);
        }
        if !self.is_admin(&account) {
            self.admins.push(account);
        }
        Ok(())
    }

    /// Gives `account` an allowance of `allowance` items, or raises the one
    /// it holds to that; an allowance is never lowered. Only the owner or an
    /// admin may.
    pub fn add_whitelist_account(&mut self, signer: &String, account: &String, allowance: u16) -> (r:
        Result<(), AccessError>)
        requires
            old(self).wf(),
        ensures
            final(self).wf(),
            r is Ok <==> old(self).spec_is_owner(signer@) || old(self).spec_is_admin(signer@),
            r is Err ==> r == Err::<(), AccessError>(AccessError::NotOwnerOrAdmin) && *final(self)
                == *old(self),
            r is Ok ==> {
                &&& final(self).whitelist() == old(self).whitelist().insert(
                    account@,
                    (if old(self).whitelist().contains_key(account@) {
                        old(self).whitelist()[account@]
                    } else {
                        Allowance::fresh(allowance)
                    }).raised(allowance),
                )
                &&& final(self).pool() == old(self).pool()
                &&& final(self).pending() == old(self).pending()
                &&& final(self).sale() == old(self).sale()
                &&& final(self).owner() == old(self).owner()
                &&& final(self).owner_account() == old(self).owner_account()
                &&& final(self).admins() == old(self).admins()
                &&& final(self).media_extension() == old(self).media_extension()
            },
    {
        if !self.is_owner_or_admin(signer) {
            return Err(AccessError::NotOwnerOrAdmin);
        }
        let current = match self.whitelist.get(account) {
            Some(a) => a,
            None => Allowance::new(allowance),
        };
        let raised = current.raise_max(allowance);
        self.whitelist.insert(account, raised);
        Ok(())
    }

    /// How the proceeds `amount` of a mint are split where the sale sets a
    /// table for them: by the table, with what rounding leaves to the owner.
    /// None where the sale sets no table.
    pub fn split_proceeds(&self, amount: u128) -> (r: Option<Vec<(String, u128)>>)
        requires
            self.wf(),
        ensures
            self.sale().initial_royalties is None ==> r is None,
            self.sale().initial_royalties matches Some(t) ==> r matches Some(v) && v@ == payouts(
                t.accounts@,
                t.percent,
                amount,
                self.owner_account(),
            ) && total_paid(v@) == amount,
    {
        match &self.sale.initial_royalties {
            Some(t) => Some(t.split(amount, &self.owner_id)),
            None => None,
        }
    }

    /// A sale of `size` items with the default terms: five units each,
    /// open to the public from `now`, one item per account and at most five
    /// per call, with royalties split seven to three.
    pub fn new_default_meta(owner_id: String, size: u32, media_extension: Option<String>, now: u64) -> (r:
        Result<Contract, ConfigError>)
        ensures
            r is Ok <==> !(media_extension matches Some(e) && e@.len() > 0 && e@[0] == '.'),
            r is Err ==> r == Err::<Contract, ConfigError>(ConfigError::MediaExtensionStartsWithDot),
            r matches Ok(c) ==> {
                &&& c.wf()
                &&& c.owner() == owner_id@
                &&& c.pool()@.len() == size
                &&& c.pending() == 0
                &&& c.sale().price == 5 * ONE_NEAR
                &&& c.sale().presale_price == Some((5 * ONE_NEAR) as u128)
                &&& c.sale().mint_rate_limit == Some(5u16)
                &&& c.sale().public_sale_start == Some(now)
                &&& c.sale().presale_start is None
                &&& c.sale().allowance == Some(1u16)
                &&& c.sale().initial_royalties is None
                &&& c.sale().royalties matches Some(t) && t.percent == 10_000 && t.accounts@.len()
                    == 2 && t.accounts@[0].0@ == "one.testingdo.testnet"@ && t.accounts@[0].1
                    == 7_000 && t.accounts@[1].0@ == "two.testingdo.testnet"@ && t.accounts@[1].1
                    == 3_000
                &&& c.pool().issued() == Set::<u64>::empty()
                &&& c.whitelist() == Map::<Seq<char>, Allowance>::empty()
                &&& c.admins().len() == 0
                &&& c.media_extension() == media_extension
            },
    {
        let mut accounts: Vec<(String, u32)> = Vec::new();
        accounts.push(("one.testingdo.testnet".to_owned(), 7_000));
        accounts.push(("two.testingdo.testnet".to_owned(), 3_000));
        let royalties = Royalties { accounts, percent: 10_000 };
        proof {
            let s = royalties.accounts@;
            assert(s.drop_last().drop_last() =~= Seq::<(String, u32)>::empty());
            reveal_with_fuel(total_shares, 3);
            assert(total_shares(s) == 10_000);
        }
        let sale = Sale {
            price: 5 * ONE_NEAR,
            mint_rate_limit: Some(5),
            public_sale_start: Some(now),
            allowance: Some(1),
            royalties: Some(royalties),
            initial_royalties: None,
            presale_price: Some(5 * ONE_NEAR),
            presale_start: None,
        };
        Self::new(owner_id, size, sale, media_extension)
    }
}

/// A reservation that is dispatched and then resolved as failed leaves the
/// state as it was before the dispatch, and refunds what the dispatch
/// charged: the host hands the charged deposit to the outside step, and it
/// comes back with the failure. The count of reservations in flight is back
/// where it was, and no item has been drawn.
pub proof fn lemma_reservation_rollback(
    before: Contract,
    minter: Seq<char>,
    attached: u128,
    linkdrop_deposit: u128,
    after_dispatch: Contract,
    charged: u128,
    after_failure: Contract,
    refund: Result<u128, ReservationError>,
)
    requires
        before.wf(),
        before.dispatch_outcome(
            minter,
            attached,
            linkdrop_deposit,
            after_dispatch,
            Ok::<u128, ReservationError>(charged),
        ),
        after_dispatch.failed_send_outcome(charged, after_failure, refund),
    ensures
        charged == before.spec_link_price(minter, linkdrop_deposit),
        refund == Ok::<u128, ReservationError>(charged),
        after_failure == before,
        after_failure.pending() == before.pending(),
        after_failure.pool()@ == before.pool()@,
        after_failure.pool().issued() == before.pool().issued(),
{
}

/// What a well-formed state guarantees of its parts: a pool without
/// repeated ids whose issued and remaining ids make up every id, no more
/// reservations than items, and valid royalty tables.
pub proof fn lemma_wf_parts(c: Contract)
    requires
        c.wf(),
    ensures
        c.pool().wf(),
        c.pool()@.no_duplicates(),
        c.pool()@.to_set().union(c.pool().issued()) == crate::raffle::id_space(c.pool().size()),
        c.pending() <= c.pool()@.len(),
        c.spec_tokens_left() >= 0,
        c.sale().valid(),
        allowances_bounded(c.whitelist()),
{
    crate::raffle::lemma_partition(&c.raffle);
}

} // verus!
