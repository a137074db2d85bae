use tenk::allowance::{Allowance, AllowanceError};
use tenk::raffle::{DrawError, Raffle};

#[test]
fn pool_of_three_gives_three_distinct_ids_then_fails() {
    let mut pool = Raffle::new(3);
    let mut ids = vec![
        pool.draw(11).unwrap(),
        pool.draw(4).unwrap(),
        pool.draw(9).unwrap(),
    ];
    ids.sort();
    assert_eq!(ids, vec![1, 2, 3]);
    assert_eq!(pool.draw(0), Err(DrawError::Exhausted));
}

#[test]
fn draw_takes_the_slot_the_seed_picks_and_moves_the_last_id_in() {
    let mut pool = Raffle::new(5);
    // slot 7 % 5 = 2 holds id 3; id 5 moves into slot 2
    assert_eq!(pool.draw(7), Ok(3));
    // pool is now [1, 2, 5, 4]; slot 7 % 4 = 3 holds id 4
    assert_eq!(pool.draw(7), Ok(4));
    // pool is now [1, 2, 5]; slot 2 holds id 5
    assert_eq!(pool.draw(2), Ok(5));
    assert_eq!(pool.len(), 2);
}

#[test]
fn no_id_is_drawn_twice_and_the_next_draw_fails() {
    let size: u64 = 50;
    let mut pool = Raffle::new(size);
    let mut seen = vec![false; size as usize + 1];
    let mut seed: u64 = 12345;
    for _ in 0..size {
        seed = seed.wrapping_mul(6364136223846793005).wrapping_add(1442695040888963407);
        let id = pool.draw(seed).unwrap();
        assert!(id >= 1 && id <= size);
        assert!(!seen[id as usize]);
        seen[id as usize] = true;
    }
    assert_eq!(pool.draw(seed), Err(DrawError::Exhausted));
}

#[test]
fn drawn_and_remaining_ids_make_up_the_whole_pool() {
    let size: u64 = 20;
    let mut pool = Raffle::new(size);
    let first = pool.draw_many(99, 8);
    assert_eq!(first.len(), 8);
    assert_eq!(pool.len(), size - 8);
    let rest = pool.draw_many(3, size - 8);
    assert_eq!(pool.len(), 0);
    let mut all: Vec<u64> = first.into_iter().chain(rest).collect();
    all.sort();
    assert_eq!(all, (1..=size).collect::<Vec<u64>>());
}

#[test]
fn empty_pool_cannot_be_drawn_from() {
    let mut pool = Raffle::new(0);
    assert_eq!(pool.len(), 0);
    assert_eq!(pool.draw(1), Err(DrawError::Exhausted));
}

#[test]
fn allowance_over_use_fails_and_changes_nothing() {
    let mut a = Allowance::new(3);
    assert_eq!(a.use_num(2), Ok(()));
    assert_eq!(a.left(), 1);
    assert_eq!(a.use_num(2), Err(AllowanceError::OverAllowance));
    assert_eq!(a.left(), 1);
    assert_eq!(a.use_num(1), Ok(()));
    assert_eq!(a.left(), 0);
    assert_eq!(a.use_num(1), Err(AllowanceError::OverAllowance));
}

#[test]
fn allowance_max_is_raised_never_lowered() {
    let mut a = Allowance::new(2);
    assert_eq!(a.use_num(2), Ok(()));
    let a = a.raise_max(1);
    assert_eq!(a.left(), 0);
    let a = a.raise_max(5);
    assert_eq!(a.left(), 3);
}
