use tenk::payout::Royalties;
use tenk::sale::{ConfigError, Sale, Status};

fn sale(presale_start: Option<u64>, public_sale_start: Option<u64>) -> Sale {
    Sale {
        price: 10,
        mint_rate_limit: None,
        public_sale_start,
        allowance: None,
        royalties: None,
        initial_royalties: None,
        presale_price: Some(4),
        presale_start,
    }
}

#[test]
fn open_is_checked_before_presale() {
    let t0 = 1_000;
    let t1 = 2_000;
    let s = sale(Some(t0), Some(t1));
    assert_eq!(s.status(t1 + 1, 5), Status::Open);
}

#[test]
fn phases_follow_the_start_times() {
    let s = sale(Some(1_000), Some(2_000));
    assert_eq!(s.status(999, 5), Status::Closed);
    assert_eq!(s.status(1_000, 5), Status::Presale);
    assert_eq!(s.status(1_999, 5), Status::Presale);
    assert_eq!(s.status(2_000, 5), Status::Open);
}

#[test]
fn sold_out_overrides_every_time() {
    let s = sale(Some(1_000), Some(2_000));
    for now in [0u64, 1_000, 2_000, u64::MAX] {
        assert_eq!(s.status(now, 0), Status::SoldOut);
    }
    assert_eq!(sale(None, None).status(5, 0), Status::SoldOut);
}

#[test]
fn without_start_times_the_sale_is_closed() {
    assert_eq!(sale(None, None).status(u64::MAX, 1), Status::Closed);
    assert_eq!(sale(Some(10), None).status(11, 1), Status::Presale);
    assert_eq!(sale(None, Some(10)).status(9, 1), Status::Closed);
}

#[test]
fn presale_price_applies_before_the_public_sale() {
    let s = sale(None, None);
    assert_eq!(s.price(Status::Closed), 4);
    assert_eq!(s.price(Status::Presale), 4);
    assert_eq!(s.price(Status::Open), 10);
    assert_eq!(s.price(Status::SoldOut), 10);
    let mut s = sale(None, None);
    s.presale_price = None;
    assert_eq!(s.price(Status::Presale), 10);
}

#[test]
fn invalid_royalty_tables_are_refused() {
    let bad = Royalties { accounts: vec![("a".to_string(), 10)], percent: 100 };
    let good = Royalties { accounts: vec![("a".to_string(), 100)], percent: 100 };
    let mut s = sale(None, None);
    s.royalties = Some(bad.clone());
    assert_eq!(s.validate(), Err(ConfigError::InvalidRoyalties));
    s.royalties = Some(good.clone());
    assert_eq!(s.validate(), Ok(()));
    s.initial_royalties = Some(bad);
    assert_eq!(s.validate(), Err(ConfigError::InvalidInitialRoyalties));
    s.initial_royalties = Some(good);
    assert_eq!(s.validate(), Ok(()));
}
