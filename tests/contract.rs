use tenk::contract::{
    AccessError, Contract, LinkOutcome, MintError, ReservationError, LINK_FEE, ONE_NEAR,
};
use tenk::payout::proceeds_after_storage;
use tenk::payout::Royalties;
use tenk::sale::{ConfigError, Sale, Status};

const PRESALE: u64 = 1_000;
const PUBLIC: u64 = 2_000;

fn owner() -> String {
    "owner.near".to_string()
}

fn alice() -> String {
    "alice.near".to_string()
}

fn sale(allowance: Option<u16>) -> Sale {
    Sale {
        price: 10,
        mint_rate_limit: Some(3),
        public_sale_start: Some(PUBLIC),
        allowance,
        royalties: None,
        initial_royalties: None,
        presale_price: Some(4),
        presale_start: Some(PRESALE),
    }
}

fn contract(size: u32, allowance: Option<u16>) -> Contract {
    Contract::new(owner(), size, sale(allowance), None).unwrap()
}

#[test]
fn media_extension_must_not_start_with_a_dot() {
    assert_eq!(
        Contract::new(owner(), 3, sale(None), Some(".png".to_string())).err(),
        Some(ConfigError::MediaExtensionStartsWithDot)
    );
    let c = Contract::new(owner(), 3, sale(None), Some("png".to_string())).unwrap();
    assert_eq!(c.get_media_extension(), &Some("png".to_string()));
    assert!(Contract::new(owner(), 3, sale(None), Some(String::new())).is_ok());
}

#[test]
fn invalid_royalties_are_refused_at_construction() {
    let mut s = sale(None);
    s.royalties = Some(Royalties { accounts: vec![("a".to_string(), 1)], percent: 2 });
    assert_eq!(Contract::new(owner(), 3, s, None).err(), Some(ConfigError::InvalidRoyalties));
}

#[test]
fn default_terms() {
    let c = Contract::new_default_meta(owner(), 10, None, 500).unwrap();
    let s = c.get_sale();
    assert_eq!(s.price, 5 * ONE_NEAR);
    assert_eq!(s.mint_rate_limit, Some(5));
    assert_eq!(s.allowance, Some(1));
    assert_eq!(c.get_status(499), Status::Closed);
    assert_eq!(c.get_status(500), Status::Open);
    assert_eq!(c.tokens_left(), 10);
    assert!(Contract::new_default_meta(owner(), 10, Some(".jpg".to_string()), 0).is_err());
}

#[test]
fn mint_errors() {
    let mut c = contract(5, Some(2));
    assert_eq!(c.nft_mint_many(&alice(), 4, PUBLIC, 1_000, 1), Err(MintError::OverMintLimit));
    assert_eq!(c.nft_mint_many(&alice(), 1, PRESALE - 1, 1_000, 1), Err(MintError::Closed));
    assert_eq!(c.nft_mint_many(&alice(), 1, PRESALE, 1_000, 1), Err(MintError::NotWhitelisted));
    assert_eq!(c.nft_mint_many(&alice(), 2, PUBLIC, 19, 1), Err(MintError::NotEnoughDeposit));
    assert_eq!(c.nft_mint_many(&alice(), 0, PUBLIC, 0, 1), Err(MintError::NoAllowanceLeft));
    // refusals change nothing
    assert_eq!(c.tokens_left(), 5);
    assert_eq!(c.get_whitelist_allowance(&alice()), None);
}

#[test]
fn public_mint_is_capped_by_the_allowance() {
    let mut c = contract(5, Some(2));
    let ids = c.nft_mint_many(&alice(), 3, PUBLIC, 30, 7).unwrap();
    assert_eq!(ids.len(), 2);
    assert_eq!(c.tokens_left(), 3);
    assert_eq!(c.get_whitelist_allowance(&alice()).unwrap().left(), 0);
    assert_eq!(c.nft_mint_one(&alice(), PUBLIC, 10, 7), Err(MintError::NoAllowanceLeft));
}

#[test]
fn presale_needs_a_whitelist_entry_and_uses_the_presale_price() {
    let mut c = contract(5, None);
    assert_eq!(c.add_whitelist_account(&alice(), &alice(), 2), Err(AccessError::NotOwnerOrAdmin));
    assert_eq!(c.add_whitelist_account(&owner(), &alice(), 2), Ok(()));
    assert_eq!(c.price(PRESALE), 4);
    assert_eq!(c.nft_mint_many(&alice(), 2, PRESALE, 7, 3), Err(MintError::NotEnoughDeposit));
    let ids = c.nft_mint_many(&alice(), 2, PRESALE, 8, 3).unwrap();
    assert_eq!(ids.len(), 2);
    assert_eq!(c.get_whitelist_allowance(&alice()).unwrap().left(), 0);
    // raising the allowance later adds to what is left
    assert_eq!(c.add_whitelist_account(&owner(), &alice(), 3), Ok(()));
    assert_eq!(c.get_whitelist_allowance(&alice()).unwrap().left(), 1);
    // a lower value never lowers it
    assert_eq!(c.add_whitelist_account(&owner(), &alice(), 1), Ok(()));
    assert_eq!(c.get_whitelist_allowance(&alice()).unwrap().left(), 1);
}

#[test]
fn admins_may_whitelist_and_only_the_owner_adds_admins() {
    let mut c = contract(5, None);
    let bob = "bob.near".to_string();
    assert_eq!(c.add_admin(&alice(), bob.clone()), Err(AccessError::NotOwner));
    assert!(!c.is_admin(&bob));
    assert_eq!(c.add_admin(&owner(), bob.clone()), Ok(()));
    assert!(c.is_admin(&bob));
    assert!(c.is_owner_or_admin(&bob));
    assert_eq!(c.add_whitelist_account(&bob, &alice(), 1), Ok(()));
    assert!(c.is_owner(&owner()));
    assert!(!c.is_owner(&bob));
    let outsider = "testingdo.testnet".to_string();
    assert!(!c.is_owner(&outsider));
    assert!(!c.is_owner_or_admin(&outsider));
    assert_eq!(c.add_admin(&outsider, alice()), Err(AccessError::NotOwner));
}

#[test]
fn owner_mints_for_free_in_any_phase() {
    let mut c = contract(3, Some(1));
    let mut ids = c.nft_mint_many(&owner(), 3, 0, 0, 5).unwrap();
    ids.sort();
    assert_eq!(ids, vec![1, 2, 3]);
    assert_eq!(c.get_status(PUBLIC), Status::SoldOut);
    assert_eq!(c.nft_mint_one(&owner(), PUBLIC, 0, 5), Err(MintError::SoldOut));
    assert_eq!(c.nft_mint(&alice(), PUBLIC, 100, 5), Err(MintError::SoldOut));
}

#[test]
fn mint_beyond_what_is_left_is_refused() {
    let mut c = contract(2, None);
    assert_eq!(c.nft_mint_many(&alice(), 3, PUBLIC, 100, 1), Err(MintError::SoldOut));
    assert_eq!(c.nft_mint_many(&alice(), 2, PUBLIC, 20, 1).unwrap().len(), 2);
}

#[test]
fn dispatch_then_failure_restores_the_count_and_refunds_the_charge() {
    let mut c = contract(2, None);
    let before = c.tokens_left();
    let charged = c.dispatch_reservation(&alice(), 100 + LINK_FEE, 100).unwrap();
    assert_eq!(charged, 100 + LINK_FEE);
    assert_eq!(c.pending_tokens(), 1);
    assert_eq!(c.tokens_left(), before - 1);
    assert_eq!(c.on_send_with_callback(false, charged), Ok(charged));
    assert_eq!(c.pending_tokens(), 0);
    assert_eq!(c.tokens_left(), before);
    assert_eq!(c.on_send_with_callback(false, 1), Err(ReservationError::NonePending));
}

#[test]
fn confirmed_reservation_draws_one_item() {
    let mut c = contract(2, None);
    assert_eq!(c.full_link_price(&owner(), 100), 100);
    assert_eq!(c.dispatch_reservation(&owner(), 99, 100), Err(ReservationError::NotEnoughDeposit));
    assert_eq!(c.dispatch_reservation(&owner(), 100, 100), Ok(100));
    assert_eq!(c.on_send_with_callback(true, 100), Ok(0));
    assert_eq!(c.pending_tokens(), 1);
    let id = match c.link_callback(true, 0, 0).unwrap() {
        LinkOutcome::Minted(id) => id,
        LinkOutcome::Refunded(_) => panic!("a successful step mints"),
    };
    assert!(id == 1 || id == 2);
    assert_eq!(c.pending_tokens(), 0);
    assert_eq!(c.tokens_left(), 1);
    assert_eq!(c.link_callback(true, 0, 0), Err(ReservationError::NonePending));
}

#[test]
fn reservations_count_against_what_is_left() {
    let mut c = contract(1, None);
    assert_eq!(c.dispatch_reservation(&alice(), LINK_FEE, 0), Ok(LINK_FEE));
    assert_eq!(c.tokens_left(), 0);
    assert_eq!(c.dispatch_reservation(&alice(), LINK_FEE, 0), Err(ReservationError::SoldOut));
    assert_eq!(c.nft_mint_one(&alice(), PUBLIC, 10, 0), Err(MintError::SoldOut));
}

#[test]
fn proceeds_split_with_remainder_to_the_owner() {
    let mut s = sale(None);
    s.initial_royalties = Some(Royalties {
        accounts: vec![("a".to_string(), 6667), ("b".to_string(), 3333)],
        percent: 10_000,
    });
    let c = Contract::new(owner(), 3, s, None).unwrap();
    let out = c.split_proceeds(10).unwrap();
    assert_eq!(out[2], (owner(), 1));
    assert!(contract(3, None).split_proceeds(10).is_none());
}

#[test]
fn allowances_count_with_a_public_allowance_or_in_the_presale() {
    let c = contract(5, None);
    assert!(!c.has_allowance(PRESALE - 1));
    assert!(c.has_allowance(PRESALE));
    assert!(!c.has_allowance(PUBLIC));
    assert!(c.is_presale(PRESALE));
    let c = contract(5, Some(1));
    assert!(c.has_allowance(PUBLIC));
    assert!(c.has_allowance(0));
}

#[test]
fn using_an_allowance_records_it_and_refuses_an_overdraw() {
    let mut c = contract(5, None);
    // outside the presale with no public allowance nothing is counted
    assert_eq!(c.use_whitelist_allowance(&alice(), 9, PUBLIC), Ok(()));
    assert_eq!(c.get_whitelist_allowance(&alice()), None);
    assert_eq!(c.use_whitelist_allowance(&alice(), 1, PRESALE), Err(MintError::NotWhitelisted));
    assert_eq!(c.add_whitelist_account(&owner(), &alice(), 2), Ok(()));
    assert_eq!(c.use_whitelist_allowance(&alice(), 3, PRESALE), Err(MintError::NoAllowanceLeft));
    assert_eq!(c.get_whitelist_allowance(&alice()).unwrap().left(), 2);
    assert_eq!(c.use_whitelist_allowance(&alice(), 2, PRESALE), Ok(()));
    assert_eq!(c.get_whitelist_allowance(&alice()).unwrap().left(), 0);
    // the owner is never counted
    assert_eq!(c.use_whitelist_allowance(&owner(), 7, PRESALE), Ok(()));
}

#[test]
fn link_price_beyond_the_largest_amount_cannot_be_paid() {
    let mut c = contract(2, None);
    assert_eq!(
        c.dispatch_reservation(&alice(), u128::MAX, u128::MAX),
        Err(ReservationError::NotEnoughDeposit)
    );
    assert_eq!(c.dispatch_reservation(&owner(), u128::MAX, u128::MAX), Ok(u128::MAX));
    assert_eq!(c.pending_tokens(), 1);
}

#[test]
fn failed_link_step_releases_the_reservation_and_refunds() {
    let mut c = contract(2, None);
    let charged = c.dispatch_reservation(&alice(), 500 + LINK_FEE, 500).unwrap();
    assert_eq!(c.tokens_left(), 1);
    assert_eq!(c.link_callback(false, charged, 0), Ok(LinkOutcome::Refunded(charged)));
    assert_eq!(c.pending_tokens(), 0);
    assert_eq!(c.tokens_left(), 2);
    assert_eq!(c.link_callback(false, charged, 0), Err(ReservationError::NonePending));
    // nothing was drawn: both items can still be minted
    assert_eq!(c.nft_mint_many(&owner(), 2, 0, 0, 1).unwrap().len(), 2);
}

#[test]
fn adding_an_admin_twice_keeps_one_entry() {
    let mut c = contract(1, None);
    let bob = "bob.near".to_string();
    assert_eq!(c.add_admin(&owner(), bob.clone()), Ok(()));
    assert_eq!(c.add_admin(&owner(), bob.clone()), Ok(()));
    assert!(c.is_admin(&bob));
}

#[test]
fn storage_is_paid_out_of_the_deposit() {
    assert_eq!(proceeds_after_storage(1_000, 10, 30), Some(700));
    assert_eq!(proceeds_after_storage(300, 10, 30), Some(0));
    assert_eq!(proceeds_after_storage(299, 10, 30), None);
    assert_eq!(proceeds_after_storage(u128::MAX, u128::MAX, 2), None);
    assert_eq!(proceeds_after_storage(5, 0, u64::MAX), Some(5));
}
