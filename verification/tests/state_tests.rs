use agent_reputation::state::calculate_decay;
use agent_reputation::state::calculate_vouch_bonus;

#[test]
fn decay_single_day_subtracts_floor() {
    // 1000 bps over one day: subtract floor(1000 * 1000 / 10000) = 100.
    assert_eq!(calculate_decay(1000, 1, 1000), 900);
}

#[test]
fn decay_compounds_day_by_day() {
    // The second day's reduction is computed on the already-reduced balance.
    assert_eq!(calculate_decay(900, 1, 1000), 810);
    assert_eq!(calculate_decay(1000, 2, 1000), 810);
}

#[test]
fn decay_zero_days_is_identity() {
    assert_eq!(calculate_decay(1000, 0, 1000), 1000);
    assert_eq!(calculate_decay(1000, -5, 1000), 1000);
}

#[test]
fn decay_zero_rate_is_identity() {
    assert_eq!(calculate_decay(12345, 30, 0), 12345);
}

#[test]
fn decay_full_rate_empties_in_one_day() {
    assert_eq!(calculate_decay(5000, 1, 10000), 0);
}

#[test]
fn decay_never_increases() {
    let mut days: i64 = 0;
    while days <= 40 {
        assert!(calculate_decay(987654321, days, 250) <= 987654321);
        days += 1;
    }
}

#[test]
fn decay_saturates_on_huge_balances() {
    // The per-day product saturates at u64::MAX before the division, so even
    // a balance near the top of the range decays without wrapping.
    let decayed = calculate_decay(u64::MAX, 3, 10000);
    assert!(decayed <= u64::MAX);
    assert!(calculate_decay(u64::MAX, 1, 10000) <= u64::MAX);
}

#[test]
fn vouch_bonus_no_vouches_is_zero() {
    assert_eq!(calculate_vouch_bonus(0, 0), 0);
}

#[test]
fn vouch_bonus_all_positive_is_plus_25() {
    assert_eq!(calculate_vouch_bonus(10, 0), 25);
}

#[test]
fn vouch_bonus_all_negative_is_minus_25() {
    assert_eq!(calculate_vouch_bonus(0, 10), -25);
}

#[test]
fn vouch_bonus_even_split_is_zero() {
    assert_eq!(calculate_vouch_bonus(7, 7), 0);
}

#[test]
fn vouch_bonus_stays_in_band() {
    let mut p: u64 = 0;
    while p <= 20 {
        let mut n: u64 = 0;
        while n <= 20 {
            let b = calculate_vouch_bonus(p, n);
            assert!(-25 <= b && b <= 25);
            n += 1;
        }
        p += 1;
    }
}
