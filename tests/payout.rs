use tenk::payout::Royalties;

fn table(entries: &[(&str, u32)], percent: u32) -> Royalties {
    Royalties {
        accounts: entries.iter().map(|(a, s)| (a.to_string(), *s)).collect(),
        percent,
    }
}

#[test]
fn seventy_thirty_split_of_one_hundred() {
    let t = table(&[("a.near", 7000), ("b.near", 3000)], 10_000);
    assert!(t.validate());
    let out = t.split(100, &"owner.near".to_string());
    assert_eq!(
        out,
        vec![
            ("a.near".to_string(), 70),
            ("b.near".to_string(), 30),
            ("owner.near".to_string(), 0)
        ]
    );
}

#[test]
fn rounding_remainder_goes_to_the_remainder_recipient() {
    let t = table(&[("a.near", 6667), ("b.near", 3333)], 10_000);
    assert!(t.validate());
    let out = t.split(10, &"owner.near".to_string());
    assert_eq!(
        out,
        vec![
            ("a.near".to_string(), 6),
            ("b.near".to_string(), 3),
            ("owner.near".to_string(), 1)
        ]
    );
    assert_eq!(out.iter().map(|(_, v)| *v).sum::<u128>(), 10);
}

#[test]
fn transfers_add_up_to_the_amount() {
    let t = table(&[("a", 1), ("b", 2), ("c", 9997)], 10_000);
    for amount in [0u128, 1, 7, 9_999, 10_001, 123_456_789, u128::MAX / 3, u128::MAX] {
        let out = t.split(amount, &"o".to_string());
        assert_eq!(out.len(), 4);
        let mut total: u128 = 0;
        for (_, v) in &out {
            total = total.checked_add(*v).unwrap();
        }
        assert_eq!(total, amount);
    }
}

#[test]
fn split_of_largest_amount_is_exact_per_share() {
    let t = table(&[("a", 7000), ("b", 3000)], 10_000);
    let out = t.split(u128::MAX, &"o".to_string());
    let q = u128::MAX / 10_000;
    let r = u128::MAX % 10_000;
    assert_eq!(out[0].1, q * 7000 + r * 7000 / 10_000);
    assert_eq!(out[1].1, q * 3000 + r * 3000 / 10_000);
    assert_eq!(out[0].1 + out[1].1 + out[2].1, u128::MAX);
}

#[test]
fn zero_amount_pays_nothing() {
    let t = table(&[("a", 5000), ("b", 5000)], 10_000);
    let out = t.split(0, &"o".to_string());
    assert!(out.iter().all(|(_, v)| *v == 0));
}

#[test]
fn tables_that_do_not_add_up_are_invalid() {
    assert!(!table(&[("a", 7000), ("b", 2000)], 10_000).validate());
    assert!(!table(&[("a", 7000), ("b", 4000)], 10_000).validate());
    assert!(!table(&[], 0).validate());
    assert!(!table(&[("a", u32::MAX), ("b", u32::MAX)], 10_000).validate());
    assert!(table(&[("a", 10_000)], 10_000).validate());
}
