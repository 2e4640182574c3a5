use vstd::prelude::*;

verus! {

/// The level of a creature, always within `Level::MIN..=Level::MAX`.
#[derive(Debug, Clone, Copy, PartialEq, Eq, PartialOrd, Structural)]
pub struct Level(u8);

impl View for Level {
    type V = int;

    closed spec fn view(&self) -> int {
        self.0 as int
    }
}

impl Level {
    pub const MIN: u8 = 1;

    pub const MAX: u8 = 100;

    #[verifier::type_invariant]
    spec fn in_range(self) -> bool {
        1 <= self.0 <= 100
    }

    /// Two levels are the same exactly when their numbers are.
    pub proof fn lemma_same_level(a: Level, b: Level)
        ensures
            a == b <==> a@ == b@,
    {
    }

    pub fn new(value: u8) -> (r: Option<Self>)
        ensures
            r is Some <==> 1 <= value <= 100,
            r matches Some(l) ==> l@ == value,
    {
        if Self::MIN <= value && value <= Self::MAX {
            Some(Level(value))
        } else {
            None
        }
    }

    pub fn get(self) -> (r: u8)
        ensures
            r == self@,
            1 <= r <= 100,
    {
        proof { use_type_invariant(self); }
        self.0
    }

    pub fn is_max(self) -> (r: bool)
        ensures
            r <==> self@ == 100,
    {
        self.0 == Self::MAX
    }

    /// The level right above this one, or `None` at the maximum level.
    pub fn next(self) -> (r: Option<Self>)
        ensures
            r is None <==> self@ == 100,
            r matches Some(n) ==> n@ == self@ + 1,
    {
        proof { use_type_invariant(self); }
        if self.is_max() {
            None
        } else {
            Self::new(self.0 + 1)
        }
    }
}

/// How much experience a species needs to climb the levels.
#[derive(Debug, Clone, Copy, PartialEq, Eq, Structural)]
pub enum GrowthRate {
    Erratic,
    Fast,
    MediumFast,
    MediumSlow,
    Slow,
    Fluctuating,
}

pub open spec fn cube(l: int) -> int {
    l * l * l
}

/// The total experience needed to reach level `l` (for `1 <= l <= 100`) at the given rate.
///
/// The medium-slow formula is negative at level 1; its value there wraps around
/// to `2^32 - 54`, as the 32-bit result type gives it.
pub open spec fn exp_threshold(rate: GrowthRate, l: int) -> int {
    match rate {
        GrowthRate::Fast => (4 * cube(l)) / 5,
        GrowthRate::MediumFast => cube(l),
        GrowthRate::MediumSlow => {
            let v = (6 * cube(l)) / 5 - 15 * (l * l) + 100 * l - 140;
            if v < 0 {
                v + 0x1_0000_0000
            } else {
                v
            }
        },
        GrowthRate::Slow => (5 * cube(l)) / 4,
        GrowthRate::Erratic => if l <= 50 {
            (cube(l) * (100 - l)) / 50
        } else if l <= 68 {
            (cube(l) * (l + 14)) / 50
        } else if l <= 98 {
            (cube(l) * ((1911 - 10 * l) / 3)) / 500
        } else {
            (cube(l) * (160 - l)) / 100
        },
        GrowthRate::Fluctuating => if l <= 15 {
            (cube(l) * ((l + 1) / 3 + 24)) / 50
        } else if l <= 36 {
            (cube(l) * (l + 14)) / 50
        } else {
            (cube(l) * (l / 2 + 32)) / 50
        },
    }
}

/// The level that a halving search over `low..=high` settles on for `exp`: it keeps the
/// upper half whenever `exp` reaches the threshold of the middle level (rounded up).
pub open spec fn level_search(rate: GrowthRate, low: int, high: int, exp: int) -> int
    decreases high - low,
{
    if low >= high {
        low
    } else {
        let mid = (low + high + 1) / 2;
        if exp >= exp_threshold(rate, mid) {
            level_search(rate, mid, high, exp)
        } else {
            level_search(rate, low, mid - 1, exp)
        }
    }
}

proof fn lemma_cube_step(a: int)
    requires
        a >= 1,
    ensures
        cube(a + 1) == cube(a) + 3 * a * a + 3 * a + 1,
        cube(a) >= a * a,
        cube(a) >= 1,
{
    assert(cube(a + 1) == cube(a) + 3 * a * a + 3 * a + 1) by (nonlinear_arith);
    assert(cube(a) >= a * a && a * a >= 1) by (nonlinear_arith)
        requires
            a >= 1,
    ;
}

proof fn lemma_div_gap(x: int, y: int, d: int)
    requires
        0 < d,
        x + d <= y,
    ensures
        x / d < y / d,
{
    vstd::arithmetic::div_mod::lemma_div_plus_one(x, d);
    vstd::arithmetic::div_mod::lemma_div_is_ordered(d + x, y, d);
}

proof fn lemma_div_bounds(x: int, d: int)
    requires
        0 < d,
    ensures
        d * (x / d) <= x < d * (x / d) + d,
{
    vstd::arithmetic::div_mod::lemma_fundamental_div_mod(x, d);
    vstd::arithmetic::div_mod::lemma_mod_bound(x, d);
}

proof fn lemma_div_exact(x: int, d: int, q: int)
    requires
        0 < d,
        d * q <= x < d * q + d,
    ensures
        x / d == q,
{
    assert(d * q == q * d) by (nonlinear_arith);
    vstd::arithmetic::div_mod::lemma_fundamental_div_mod_converse_div(x, d, q, x - d * q);
}

/// `cube(a) * k / d` rises from `a` to `a + 1` when the factor does not fall and the
/// growth of the cube outweighs the divisor.
proof fn lemma_scaled_cube_rises(a: int, k: int, k2: int, d: int)
    requires
        a >= 1,
        1 <= k <= k2,
        1 <= d <= 7 * k,
    ensures
        (cube(a) * k) / d < (cube(a + 1) * k2) / d,
{
    lemma_cube_step(a);
    let x = cube(a);
    let t = 3 * a * a + 3 * a + 1;
    assert(x * k + d <= (x + t) * k2) by (nonlinear_arith)
        requires
            x >= 1,
            t >= 7,
            1 <= k <= k2,
            d <= 7 * k,
    ;
    lemma_div_gap(x * k, cube(a + 1) * k2, d);
}

/// The threshold of level `a + 1` lies strictly above that of level `a`, for every
/// step from level 2 on but the erratic step from 68 to 69.
proof fn lemma_threshold_step(rate: GrowthRate, a: int)
    requires
        2 <= a < 100,
        !(rate == GrowthRate::Erratic && a == 68),
    ensures
        exp_threshold(rate, a) < exp_threshold(rate, a + 1),
{
    lemma_cube_step(a);
    let x = cube(a);
    let t = 3 * a * a + 3 * a + 1;
    match rate {
        GrowthRate::Fast => lemma_scaled_cube_rises(a, 4, 4, 5),
        GrowthRate::MediumFast => {},
        GrowthRate::Slow => lemma_scaled_cube_rises(a, 5, 5, 4),
        GrowthRate::MediumSlow => {
            let p = (6 * x) / 5;
            let q = (6 * cube(a + 1)) / 5;
            lemma_div_bounds(6 * x, 5);
            lemma_div_bounds(6 * cube(a + 1), 5);
            assert(p - 15 * (a * a) + 100 * a - 140 >= 0 && q - 15 * ((a + 1) * (a + 1)) + 100 * (a + 1)
                - 140 > p - 15 * (a * a) + 100 * a - 140) by (nonlinear_arith)
                requires
                    a >= 2,
                    x >= a * a,
                    x == a * a * a,
                    cube(a + 1) == x + t,
                    t == 3 * a * a + 3 * a + 1,
                    5 * p <= 6 * x < 5 * p + 5,
                    5 * q <= 6 * cube(a + 1) < 5 * q + 5,
            ;
        },
        GrowthRate::Erratic => {
            if a < 50 {
                assert(x * (100 - a) + 50 <= (x + t) * (99 - a)) by (nonlinear_arith)
                    requires
                        2 <= a < 50,
                        x == a * a * a,
                        t == 3 * a * a + 3 * a + 1,
                ;
                lemma_div_gap(x * (100 - a), cube(a + 1) * (100 - (a + 1)), 50);
            } else if a == 50 {
                assert(cube(50) == 125000 && cube(51) == 132651) by (nonlinear_arith);
                lemma_div_gap(cube(50) * 50, cube(51) * 65, 50);
            } else if a < 68 {
                lemma_scaled_cube_rises(a, a + 14, a + 15, 50);
            } else if a < 98 {
                let k = (1911 - 10 * a) / 3;
                let k2 = (1911 - 10 * (a + 1)) / 3;
                lemma_div_bounds(1911 - 10 * a, 3);
                lemma_div_bounds(1911 - 10 * (a + 1), 3);
                assert(x * k + 500 <= (x + t) * k2) by (nonlinear_arith)
                    requires
                        69 <= a < 98,
                        x == a * a * a,
                        t == 3 * a * a + 3 * a + 1,
                        3 * k <= 1911 - 10 * a < 3 * k + 3,
                        3 * k2 <= 1911 - 10 * (a + 1) < 3 * k2 + 3,
                ;
                lemma_div_gap(x * k, cube(a + 1) * k2, 500);
            } else if a == 98 {
                assert(cube(98) == 941192 && cube(99) == 970299) by (nonlinear_arith);
                lemma_div_exact(931, 3, 310);
                lemma_div_exact(cube(98) * 310, 500, 583539);
                lemma_div_exact(cube(99) * 61, 100, 591882);
            } else {
                assert(cube(99) == 970299 && cube(100) == 1000000) by (nonlinear_arith);
                lemma_div_gap(cube(99) * 61, cube(100) * 60, 100);
            }
        },
        GrowthRate::Fluctuating => {
            if a < 15 {
                lemma_div_bounds(a + 1, 3);
                lemma_div_bounds(a + 2, 3);
                lemma_scaled_cube_rises(a, (a + 1) / 3 + 24, (a + 2) / 3 + 24, 50);
            } else if a == 15 {
                lemma_div_exact(16, 3, 5);
                assert(cube(15) == 3375 && cube(16) == 4096) by (nonlinear_arith);
                lemma_div_gap(cube(15) * 29, cube(16) * 30, 50);
            } else if a < 36 {
                lemma_scaled_cube_rises(a, a + 14, a + 15, 50);
            } else if a == 36 {
                lemma_div_exact(37, 2, 18);
                assert(cube(36) == 46656 && cube(37) == 50653) by (nonlinear_arith);
                lemma_div_gap(cube(36) * 50, cube(37) * 50, 50);
            } else {
                lemma_div_bounds(a, 2);
                lemma_div_bounds(a + 1, 2);
                lemma_scaled_cube_rises(a, a / 2 + 32, (a + 1) / 2 + 32, 50);
            }
        },
    }
}

/// From level 2 on, a higher level always needs strictly more experience, with one
/// exception: the erratic rate needs less for level 69 than for level 68.
pub proof fn lemma_thresholds_increase(rate: GrowthRate, a: int, b: int)
    requires
        2 <= a < b <= 100,
        !(rate == GrowthRate::Erratic && a <= 68 < b),
    ensures
        exp_threshold(rate, a) < exp_threshold(rate, b),
    decreases b - a,
{
    if b == a + 1 {
        lemma_threshold_step(rate, a);
    } else {
        lemma_thresholds_increase(rate, a, b - 1);
        lemma_threshold_step(rate, b - 1);
    }
}

/// The halving search keeps the level it settles on bracketed: its threshold is within
/// `exp` (or it is level 1), and the threshold above it is beyond `exp` (or it is level 100).
proof fn lemma_search_brackets(rate: GrowthRate, low: int, high: int, exp: int)
    requires
        1 <= low <= high <= 100,
        low == 1 || exp_threshold(rate, low) <= exp,
        high == 100 || exp < exp_threshold(rate, high + 1),
    ensures
        low <= level_search(rate, low, high, exp) <= high,
        level_search(rate, low, high, exp) == 1 || exp_threshold(rate, level_search(rate, low, high, exp)) <= exp,
        level_search(rate, low, high, exp) == 100 || exp < exp_threshold(rate, level_search(rate, low, high, exp) + 1),
    decreases high - low,
{
    if low < high {
        let mid = (low + high + 1) / 2;
        if exp >= exp_threshold(rate, mid) {
            lemma_search_brackets(rate, mid, high, exp);
        } else {
            lemma_search_brackets(rate, low, mid - 1, exp);
        }
    }
}

/// Erratic thresholds around the dip after level 68.
proof fn lemma_erratic_landmarks()
    ensures
        exp_threshold(GrowthRate::Erratic, 51) == 172446,
        exp_threshold(GrowthRate::Erratic, 57) == 262974,
        exp_threshold(GrowthRate::Erratic, 60) == 319680,
        exp_threshold(GrowthRate::Erratic, 63) == 385072,
        exp_threshold(GrowthRate::Erratic, 68) == 515668,
        exp_threshold(GrowthRate::Erratic, 69) == 267406,
        exp_threshold(GrowthRate::Erratic, 76) == 336255,
        exp_threshold(GrowthRate::Erratic, 93) == 526049,
{
    assert(cube(51) == 132651 && cube(60) == 216000 && cube(63) == 250047 && cube(76) == 438976)
        by (nonlinear_arith);
    lemma_div_exact(cube(51) * 65, 50, 172446);
    lemma_div_exact(cube(60) * 74, 50, 319680);
    lemma_div_exact(cube(63) * 77, 50, 385072);
    lemma_div_exact(1151, 3, 383);
    lemma_div_exact(cube(76) * 383, 500, 336255);
    assert(cube(57) == 185193 && cube(68) == 314432 && cube(69) == 328509 && cube(93) == 804357)
        by (nonlinear_arith);
    lemma_div_exact(cube(57) * 71, 50, 262974);
    lemma_div_exact(cube(68) * 82, 50, 515668);
    lemma_div_exact(1221, 3, 407);
    lemma_div_exact(cube(69) * 407, 500, 267406);
    lemma_div_exact(981, 3, 327);
    lemma_div_exact(cube(93) * 327, 500, 526049);
}

/// Once the halving search is confined to `low..=high`, a stretch over which thresholds
/// strictly increase and which holds level `l`, it finds `l` for the threshold of `l`.
proof fn lemma_search_pins_within(rate: GrowthRate, low: int, high: int, l: int)
    requires
        2 <= low <= l <= high <= 100,
        exp_threshold(rate, low) <= exp_threshold(rate, l),
        high == 100 || exp_threshold(rate, l) < exp_threshold(rate, high + 1),
        forall|a: int, b: int|
            low <= a < b <= high ==> exp_threshold(rate, a) < exp_threshold(rate, b),
    ensures
        level_search(rate, low, high, exp_threshold(rate, l)) == l,
{
    let exp = exp_threshold(rate, l);
    lemma_search_brackets(rate, low, high, exp);
    let r = level_search(rate, low, high, exp);
    if r < l {
        assert(exp_threshold(rate, r + 1) <= exp_threshold(rate, l));
    } else if r > l {
        assert(exp_threshold(rate, l) < exp_threshold(rate, r));
    }
}

/// The level that the threshold of level `l` corresponds to is `l` itself, for every
/// level from 2 on, except erratic levels 61 to 75: there the search is drawn past the
/// dip after level 68 and lands elsewhere.
pub proof fn lemma_level_of_threshold(rate: GrowthRate, l: int)
    requires
        2 <= l <= 100,
        !(rate == GrowthRate::Erratic && 61 <= l <= 75),
    ensures
        level_search(rate, 1, 100, exp_threshold(rate, l)) == l,
{
    let exp = exp_threshold(rate, l);
    if rate != GrowthRate::Erratic {
        lemma_search_finds_highest_reached(rate, exp);
        if l < 100 {
            lemma_thresholds_increase(rate, l, l + 1);
        }
    } else {
        lemma_erratic_landmarks();
        assert forall|a: int, b: int| 2 <= a < b <= 68 implies exp_threshold(rate, a)
            < exp_threshold(rate, b) by {
            lemma_thresholds_increase(rate, a, b);
        }
        assert forall|a: int, b: int| 69 <= a < b <= 100 implies exp_threshold(rate, a)
            < exp_threshold(rate, b) by {
            lemma_thresholds_increase(rate, a, b);
        }
        lemma_div_exact(102, 2, 51);
        if l <= 50 {
            assert(exp < exp_threshold(rate, 51));
            assert(level_search(rate, 1, 100, exp) == level_search(rate, 1, 50, exp));
            lemma_search_brackets(rate, 1, 50, exp);
            assert(exp_threshold(rate, 2) <= exp);
        } else if l <= 60 {
            lemma_div_exact(152, 2, 76);
            lemma_div_exact(127, 2, 63);
            assert(level_search(rate, 1, 100, exp) == level_search(rate, 51, 100, exp));
            assert(level_search(rate, 51, 100, exp) == level_search(rate, 51, 75, exp));
            assert(level_search(rate, 51, 75, exp) == level_search(rate, 51, 62, exp));
            lemma_search_pins_within(rate, 51, 62, l);
        } else {
            lemma_div_exact(152, 2, 76);
            assert(level_search(rate, 1, 100, exp) == level_search(rate, 51, 100, exp));
            assert(level_search(rate, 51, 100, exp) == level_search(rate, 76, 100, exp));
            lemma_search_pins_within(rate, 76, 100, l);
        }
    }
}

/// For every rate but the erratic one, the search settles on the highest level whose
/// threshold `exp` reaches: a level from 2 on is within reach exactly when it is at most
/// the level found.
pub proof fn lemma_search_finds_highest_reached(rate: GrowthRate, exp: int)
    requires
        rate != GrowthRate::Erratic,
    ensures
        1 <= level_search(rate, 1, 100, exp) <= 100,
        forall|l: int|
            2 <= l <= 100 ==> (exp_threshold(rate, l) <= exp <==> l <= level_search(rate, 1, 100, exp)),
{
    lemma_search_brackets(rate, 1, 100, exp);
    let r = level_search(rate, 1, 100, exp);
    assert forall|l: int| 2 <= l <= 100 implies (exp_threshold(rate, l) <= exp <==> l <= r) by {
        if l < r {
            lemma_thresholds_increase(rate, l, r);
        } else if l > r + 1 {
            lemma_thresholds_increase(rate, r + 1, l);
        }
    }
}

impl GrowthRate {
    /// Total experience at which a creature of this rate reaches `level`.
    pub fn exp_for_level(self, level: Level) -> (r: u32)
        ensures
            r == exp_threshold(self, level@),
    {
        let l = level.get() as u32;
        assert(l * l <= 10000 && l * l * l <= 1000000) by (nonlinear_arith)
            requires
                1 <= l <= 100,
        ;
        let l3 = l * l * l;
        match self {
            GrowthRate::Fast => (4 * l3) / 5,
            GrowthRate::MediumFast => l3,
            GrowthRate::MediumSlow => {
                let li = l as i32;
                let v: i32 = ((6 * l3) / 5) as i32 - 15 * (li * li) + 100 * li - 140;
                assert(v < 0 ==> v as u32 == v + 0x1_0000_0000) by (bit_vector);
                assert(v >= 0 ==> v as u32 == v) by (bit_vector);
                v as u32
            },
            GrowthRate::Slow => (5 * l3) / 4,
            GrowthRate::Erratic => {
                if l <= 50 {
                    assert(l3 * (100 - l) <= 1000000 * 100) by (nonlinear_arith)
                        requires
                            l3 <= 1000000,
                            1 <= l <= 100,
                    ;
                    l3 * (100 - l) / 50
                } else if l <= 68 {
                    assert(l3 * (l + 14) <= 1000000 * 114) by (nonlinear_arith)
                        requires
                            l3 <= 1000000,
                            1 <= l <= 100,
                    ;
                    l3 * (l + 14) / 50
                } else if l <= 98 {
                    assert(l3 * ((1911 - 10 * l) / 3) <= 1000000 * 637) by (nonlinear_arith)
                        requires
                            l3 <= 1000000,
                            1 <= l <= 100,
                    ;
                    l3 * ((1911 - 10 * l) / 3) / 500
                } else {
                    assert(l3 * (160 - l) <= 1000000 * 160) by (nonlinear_arith)
                        requires
                            l3 <= 1000000,
                            1 <= l <= 100,
                    ;
                    l3 * (160 - l) / 100
                }
            },
            GrowthRate::Fluctuating => {
                if l <= 15 {
                    assert(l3 * ((l + 1) / 3 + 24) <= 1000000 * 100) by (nonlinear_arith)
                        requires
                            l3 <= 1000000,
                            1 <= l <= 100,
                    ;
                    l3 * ((l + 1) / 3 + 24) / 50
                } else if l <= 36 {
                    assert(l3 * (l + 14) <= 1000000 * 114) by (nonlinear_arith)
                        requires
                            l3 <= 1000000,
                            1 <= l <= 100,
                    ;
                    l3 * (l + 14) / 50
                } else {
                    assert(l3 * (l / 2 + 32) <= 1000000 * 82) by (nonlinear_arith)
                        requires
                            l3 <= 1000000,
                            1 <= l <= 100,
                    ;
                    l3 * (l / 2 + 32) / 50
                }
            },
        }
    }

    /// Experience that separates `level` from the level above, or `None` at the maximum level.
    pub fn exp_to_next_level(self, level: Level) -> (r: Option<u32>)
        requires
            level@ != 100 ==> exp_threshold(self, level@) <= exp_threshold(self, level@ + 1),
        ensures
            r is None <==> level@ == 100,
            r matches Some(d) ==> d == exp_threshold(self, level@ + 1) - exp_threshold(self, level@),
    {
        match level.next() {
            Some(next) => Some(self.exp_for_level(next) - self.exp_for_level(level)),
            None => None,
        }
    }

    /// The level that a total of `exp` experience corresponds to.
    pub fn level_from_exp(self, exp: u32) -> (r: Level)
        ensures
            r@ == level_search(self, 1, 100, exp as int),
            r@ == 1 || exp_threshold(self, r@) <= exp,
            r@ == 100 || exp < exp_threshold(self, r@ + 1),
            self != GrowthRate::Erratic ==> forall|l: int|
                2 <= l <= 100 ==> (exp_threshold(self, l) <= exp <==> l <= r@),
    {
        let mut low: u8 = Level::MIN;
        let mut high: u8 = Level::MAX;
        while low < high
            invariant
                1 <= low <= high <= 100,
                level_search(self, low as int, high as int, exp as int) == level_search(self, 1, 100, exp as int),
                low == 1 || exp_threshold(self, low as int) <= exp,
                high == 100 || exp < exp_threshold(self, high + 1),
            decreases high - low,
        {
            let mid = (low + high + 1) / 2;
            if exp >= self.exp_for_level(Level::new(mid).expect("Mid always valid")) {
                low = mid;
            } else {
                high = mid - 1;
            }
        }
        proof {
            if self != GrowthRate::Erratic {
                lemma_search_finds_highest_reached(self, exp as int);
            }
        }
        Level::new(low).expect("Level always valid")
    }
}

} // verus!
