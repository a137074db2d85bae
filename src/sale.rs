use crate::payout::Royalties;
use vstd::prelude::*;

verus! {

/// The phase of the sale.
#[derive(Debug, Clone, Copy, PartialEq, Eq, Structural)]
pub enum Status {
    Closed,
    Presale,
    Open,
    SoldOut,
}

/// Why a sale's configuration was refused.
#[derive(Debug, Clone, Copy, PartialEq, Eq, Structural)]
pub enum ConfigError {
    /// The royalty table's shares do not add up to its positive total.
    InvalidRoyalties,
    /// The table that splits the proceeds of a mint is not valid.
    InvalidInitialRoyalties,
    /// The media extension starts with a dot.
    MediaExtensionStartsWithDot,
}

/// The phase at time `now` with `remaining` items available: sold out when
/// nothing remains, whatever the time; else open from the public start on,
/// before anything else is looked at; else presale from the presale start
/// on; else closed.
pub open spec fn spec_status(
    now: u64,
    remaining: nat,
    presale_start: Option<u64>,
    public_sale_start: Option<u64>,
) -> Status {
    if remaining == 0 {
        Status::SoldOut
    } else if public_sale_start is Some && now >= public_sale_start->0 {
        Status::Open
    } else if presale_start is Some && now >= presale_start->0 {
        Status::Presale
    } else {
        Status::Closed
    }
}

/// The terms of the sale.
#[derive(Debug, Clone)]
pub struct Sale {
    /// Price of one item, in the ledger's smallest unit.
    pub price: u128,
    /// The most items one call may mint.
    pub mint_rate_limit: Option<u16>,
    /// When the public sale opens, in milliseconds since the epoch.
    pub public_sale_start: Option<u64>,
    /// The allowance of every account in the public sale.
    pub allowance: Option<u16>,
    /// Royalties on resales.
    pub royalties: Option<Royalties>,
    /// How the proceeds of a mint are split.
    pub initial_royalties: Option<Royalties>,
    /// Price of one item before the public sale.
    pub presale_price: Option<u128>,
    /// When the presale opens, in milliseconds since the epoch.
    pub presale_start: Option<u64>,
}

impl Sale {
    /// Both royalty tables, where given, are valid.
    pub open spec fn valid(&self) -> bool {
        &&& (self.royalties matches Some(r) ==> r.valid())
        &&& (self.initial_royalties matches Some(r) ==> r.valid())
    }

    /// The phase at `now` with `remaining` items available.
    pub open spec fn spec_status(&self, now: u64, remaining: nat) -> Status {
        spec_status(now, remaining, self.presale_start, self.public_sale_start)
    }

    /// The price of one item in phase `status`: before the public sale the
    /// presale price where one is set, else the base price.
    pub open spec fn spec_price(&self, status: Status) -> u128 {
        match status {
            Status::Presale | Status::Closed => match self.presale_price {
                Some(p) => p,
                None => self.price,
            },
            Status::Open | Status::SoldOut => self.price,
        }
    }

    /// Checks the royalty tables.
    pub fn validate(&self) -> (r: Result<(), ConfigError>)
        ensures
            r is Ok <==> self.valid(),
            self.royalties matches Some(t) && !t.valid() ==> r == Err::<(), ConfigError>(
                ConfigError::InvalidRoyalties,
            ),
            (self.royalties matches Some(t) ==> t.valid()) && self.initial_royalties is Some
                && !self.initial_royalties->0.valid() ==> r == Err::<(), ConfigError>(
                ConfigError::InvalidInitialRoyalties,
            ),
    {
        if let Some(t) = &self.royalties {
            if !t.validate() {
                return Err(ConfigError::InvalidRoyalties);
            }
        }
        if let Some(t) = &self.initial_royalties {
            if !t.validate() {
                return Err(ConfigError::InvalidInitialRoyalties);
            }
        }
        Ok(())
    }

    /// The phase at `now` with `remaining` items available.
    pub fn status(&self, now: u64, remaining: u64) -> (r: Status)
        ensures
            r == self.spec_status(now, remaining as nat),
    {
        if remaining == 0 {
            return Status::SoldOut;
        }
        if let Some(public) = self.public_sale_start {
            if now >= public {
                return Status::Open;
            }
        }
        if let Some(pre) = self.presale_start {
            if now >= pre {
                return Status::Presale;
            }
        }
        Status::Closed
    }

    /// The price of one item in phase `status`.
    pub fn price(&self, status: Status) -> (r: u128)
        ensures
            r == self.spec_price(status),
    {
        match status {
            Status::Presale | Status::Closed => match self.presale_price {
                Some(p) => p,
                None => self.price,
            },
            Status::Open | Status::SoldOut => self.price,
        }
    }
}

/// The phase depends on nothing but the time, the items available and the
/// two start times. Nothing available means sold out at any time; with items
/// available, from the public start on the sale is open whatever the presale
/// start says.
pub proof fn lemma_status_order(
    now: u64,
    remaining: nat,
    presale_start: Option<u64>,
    public_sale_start: Option<u64>,
)
    ensures
        remaining == 0 ==> spec_status(now, remaining, presale_start, public_sale_start)
            == Status::SoldOut,
        remaining > 0 && public_sale_start is Some && now >= public_sale_start->0 ==> spec_status(
            now,
            remaining,
            presale_start,
            public_sale_start,
        ) == Status::Open,
        spec_status(now, remaining, presale_start, public_sale_start) == Status::Presale
            ==> presale_start is Some && now >= presale_start->0,
        spec_status(now, remaining, presale_start, public_sale_start) == Status::Closed
            ==> remaining > 0 && !(presale_start is Some && now >= presale_start->0) && !(
        public_sale_start is Some && now >= public_sale_start->0),
{
}

} // verus!
