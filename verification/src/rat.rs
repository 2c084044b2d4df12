//! Exact rational arithmetic with bounded, sign-and-magnitude representation.
//!
//! Every physical quantity in the rover model (speeds, voltages, powers,
//! distances) is an exact rational number.  A `Rat` stores a sign, a numerator
//! magnitude and a positive denominator, both at most `RAT_BOUND`, so that any
//! product of two stored components fits comfortably in a `u128`.  Each
//! arithmetic operation computes the exact result in `u128`, divides out the
//! greatest common divisor, and succeeds exactly when the reduced components
//! are back within `RAT_BOUND`.

use vstd::prelude::*;

verus! {

/// Largest magnitude allowed for a stored numerator or denominator.
pub const RAT_BOUND: u64 = 0x8000_0000_0000_0000;

/// Mathematical value of a rational, as a (numerator, denominator) pair of
/// unbounded integers.  All spec-level reasoning happens on such pairs; two
/// pairs denote the same rational exactly when `rat_eq` holds.
pub open spec fn rat_eq(a: (int, int), b: (int, int)) -> bool {
    a.0 * b.1 == b.0 * a.1
}

/// `a <= b` as rationals; meaningful when both denominators are positive.
pub open spec fn rat_le(a: (int, int), b: (int, int)) -> bool {
    a.0 * b.1 <= b.0 * a.1
}

/// `a < b` as rationals; meaningful when both denominators are positive.
pub open spec fn rat_lt(a: (int, int), b: (int, int)) -> bool {
    a.0 * b.1 < b.0 * a.1
}

/// Exact sum of two rational pairs.
pub open spec fn add_v(a: (int, int), b: (int, int)) -> (int, int) {
    (a.0 * b.1 + b.0 * a.1, a.1 * b.1)
}

/// Exact product of two rational pairs.
pub open spec fn mul_v(a: (int, int), b: (int, int)) -> (int, int) {
    (a.0 * b.0, a.1 * b.1)
}

/// Exact negation of a rational pair.
pub open spec fn neg_v(a: (int, int)) -> (int, int) {
    (-a.0, a.1)
}

/// Exact difference of two rational pairs.
pub open spec fn sub_v(a: (int, int), b: (int, int)) -> (int, int) {
    add_v(a, neg_v(b))
}

/// Exact quotient of two rational pairs, with the sign moved into the
/// numerator so that a positive-denominator argument yields a
/// positive-denominator result.  Meaningful when `b.0 != 0`.
pub open spec fn div_v(a: (int, int), b: (int, int)) -> (int, int) {
    if b.0 >= 0 {
        (a.0 * b.1, a.1 * b.0)
    } else {
        (-(a.0 * b.1), -(a.1 * b.0))
    }
}

/// Integer absolute value.
pub open spec fn rat_abs(x: int) -> int {
    if x < 0 {
        -x
    } else {
        x
    }
}

/// Euclid's greatest common divisor.
pub open spec fn gcd_nat(a: nat, b: nat) -> nat
    decreases b,
{
    if b == 0 {
        a
    } else {
        gcd_nat(b, a % b)
    }
}

/// `g` divides `x`.
pub open spec fn divides(g: int, x: int) -> bool {
    exists|k: int| x == #[trigger] (g * k)
}

/// `gcd_nat(a, b)` divides both arguments and is positive unless both are zero.
pub proof fn lemma_gcd_divides(a: nat, b: nat)
    ensures
        divides(gcd_nat(a, b) as int, a as int),
        divides(gcd_nat(a, b) as int, b as int),
        a > 0 || b > 0 ==> gcd_nat(a, b) >= 1,
    decreases b,
{
    let g = gcd_nat(a, b) as int;
    if b == 0 {
        assert(a as int == g * 1);
        assert(b as int == g * 0);
    } else {
        lemma_gcd_divides(b, a % b);
        let k1 = choose|k: int| b as int == #[trigger] (g * k);
        let k2 = choose|k: int| (a % b) as int == #[trigger] (g * k);
        let q = a as int / b as int;
        vstd::arithmetic::div_mod::lemma_fundamental_div_mod(a as int, b as int);
        assert(a as int == g * (k1 * q + k2)) by (nonlinear_arith)
            requires
                b as int == g * k1,
                (a % b) as int == g * k2,
                a as int == (b as int) * q + (a % b) as int,
        ;
    }
}

/// The canonical reduced form of a pair: both components divided by their
/// greatest common divisor.  Meaningful when `p.1 >= 1`.
pub open spec fn norm(p: (int, int)) -> (int, int) {
    let g = gcd_nat(rat_abs(p.0) as nat, p.1 as nat) as int;
    (p.0 / g, p.1 / g)
}

/// Whether a pair is representable in a well-formed `Rat`.
pub open spec fn fits(p: (int, int)) -> bool {
    &&& -(RAT_BOUND as int) <= p.0 <= RAT_BOUND as int
    &&& 1 <= p.1 <= RAT_BOUND as int
}

/// What a checked operation returns: the reduced form when it is
/// representable, nothing otherwise.
pub open spec fn norm_opt(p: (int, int)) -> Option<(int, int)> {
    if fits(norm(p)) {
        Some(norm(p))
    } else {
        None
    }
}

/// Checked addition on pair specifications.
pub open spec fn nadd(x: Option<(int, int)>, y: Option<(int, int)>) -> Option<(int, int)> {
    match (x, y) {
        (Option::Some(a), Option::Some(b)) => norm_opt(add_v(a, b)),
        _ => None,
    }
}

/// Checked subtraction on pair specifications.
pub open spec fn nsub(x: Option<(int, int)>, y: Option<(int, int)>) -> Option<(int, int)> {
    match (x, y) {
        (Option::Some(a), Option::Some(b)) => norm_opt(sub_v(a, b)),
        _ => None,
    }
}

/// Checked multiplication on pair specifications.
pub open spec fn nmul(x: Option<(int, int)>, y: Option<(int, int)>) -> Option<(int, int)> {
    match (x, y) {
        (Option::Some(a), Option::Some(b)) => norm_opt(mul_v(a, b)),
        _ => None,
    }
}

/// Checked division on pair specifications; a zero divisor fails.
pub open spec fn ndiv(x: Option<(int, int)>, y: Option<(int, int)>) -> Option<(int, int)> {
    match (x, y) {
        (Option::Some(a), Option::Some(b)) => if b.0 == 0 {
            None
        } else {
            norm_opt(div_v(a, b))
        },
        _ => None,
    }
}

/// Relates a checked operation's executable result to its specification.
pub open spec fn lift_matches(r: Option<Rat>, o: Option<(int, int)>) -> bool {
    match (r, o) {
        (Option::Some(q), Option::Some(p)) => q.wf() && q@ == p,
        (Option::None, Option::None) => true,
        _ => false,
    }
}

/// Reducing a pair preserves its rational value and keeps the denominator
/// positive; the numerator keeps its sign.
pub proof fn lemma_norm(p: (int, int))
    requires
        p.1 >= 1,
    ensures
        norm(p).1 >= 1,
        rat_eq(norm(p), p),
        norm(p).0 == 0 <==> p.0 == 0,
        norm(p).0 > 0 <==> p.0 > 0,
        norm(p).0 < 0 <==> p.0 < 0,
{
    let a = rat_abs(p.0) as nat;
    let b = p.1 as nat;
    lemma_gcd_divides(a, b);
    let g = gcd_nat(a, b) as int;
    let ka = choose|k: int| a as int == #[trigger] (g * k);
    let kb = choose|k: int| b as int == #[trigger] (g * k);
    // p.0 is g * ka or g * (-ka); division by g is exact either way.
    vstd::arithmetic::div_mod::lemma_div_multiples_vanish(ka, g);
    vstd::arithmetic::div_mod::lemma_div_multiples_vanish(-ka, g);
    vstd::arithmetic::div_mod::lemma_div_multiples_vanish(kb, g);
    if p.0 < 0 {
        lemma_neg_mul(g, ka);
        assert(p.0 == g * (-ka));
    } else {
        assert(p.0 == g * ka);
    }
    assert(p.1 == g * kb);
    assert(norm(p).0 * p.1 == p.0 * norm(p).1) by (nonlinear_arith)
        requires
            g >= 1,
            norm(p).0 == p.0 / g,
            norm(p).1 == p.1 / g,
            (p.0 < 0 ==> p.0 / g == -ka) && (p.0 >= 0 ==> p.0 / g == ka),
            p.1 / g == kb,
            (p.0 < 0 ==> p.0 == g * (-ka)) && (p.0 >= 0 ==> p.0 == g * ka),
            p.1 == g * kb,
    ;
    assert(kb >= 1) by (nonlinear_arith)
        requires
            g >= 1,
            p.1 == g * kb,
            p.1 >= 1,
    ;
    assert((norm(p).0 == 0 <==> p.0 == 0) && (norm(p).0 > 0 <==> p.0 > 0)) by (nonlinear_arith)
        requires
            g >= 1,
            (p.0 < 0 ==> p.0 / g == -ka) && (p.0 >= 0 ==> p.0 / g == ka),
            (p.0 < 0 ==> p.0 == g * (-ka)) && (p.0 >= 0 ==> p.0 == g * ka),
            norm(p).0 == p.0 / g,
    ;
}

/// An exact rational number: `(if neg { -1 } else { 1 }) * num / den`.
#[derive(Clone, Copy, Debug)]
pub struct Rat {
    neg: bool,
    num: u64,
    den: u64,
}

impl View for Rat {
    type V = (int, int);

    closed spec fn view(&self) -> (int, int) {
        (
            if self.neg {
                -(self.num as int)
            } else {
                self.num as int
            },
            self.den as int,
        )
    }
}

impl Rat {
    /// Well-formed: positive denominator, both components within bounds.
    pub open spec fn wf(self) -> bool {
        &&& 1 <= self@.1 <= RAT_BOUND as int
        &&& -(RAT_BOUND as int) <= self@.0 <= RAT_BOUND as int
    }

    /// Builds the rational `num / den`; fails exactly when `den` is zero.
    /// A negative `den` moves the sign to the numerator.
    pub fn new(num: i64, den: i64) -> (r: Option<Rat>)
        ensures
            r is Some <==> den != 0,
            match r {
                Option::Some(q) => q.wf() && q@ == (
                    if den < 0 {
                        (-(num as int), -(den as int))
                    } else {
                        (num as int, den as int)
                    }
                ),
                Option::None => true,
            },
    {
        if den == 0 {
            return None;
        }
        let num_neg: bool = num < 0;
        let den_neg: bool = den < 0;
        let num_mag: u64 = if num_neg {
            assert(-(num as i128) <= 0x8000_0000_0000_0000i128);
            (-(num as i128)) as u64
        } else {
            num as u64
        };
        let den_mag: u64 = if den_neg {
            assert(-(den as i128) <= 0x8000_0000_0000_0000i128);
            (-(den as i128)) as u64
        } else {
            den as u64
        };
        Some(Rat { neg: num_neg != den_neg, num: num_mag, den: den_mag })
    }

    /// Whether the value is exactly zero.
    pub fn is_zero(&self) -> (r: bool)
        ensures
            r == (self@.0 == 0),
    {
        self.num == 0
    }

    /// The signed numerator of the stored representation.
    pub fn signed_num(&self) -> (n: i128)
        ensures
            n as int == self@.0,
    {
        if self.neg {
            -(self.num as i128)
        } else {
            self.num as i128
        }
    }

    /// The denominator of the stored representation.
    pub fn denom(&self) -> (d: u64)
        ensures
            d as int == self@.1,
    {
        self.den
    }
}

/// Euclid's algorithm, mirroring `gcd_nat`.
fn gcd_exec(a: u128, b: u128) -> (g: u128)
    ensures
        g as nat == gcd_nat(a as nat, b as nat),
{
    let mut x: u128 = a;
    let mut y: u128 = b;
    while y != 0
        invariant
            gcd_nat(x as nat, y as nat) == gcd_nat(a as nat, b as nat),
        decreases y,
    {
        let t: u128 = x % y;
        x = y;
        y = t;
    }
    x
}

/// Divides the exact pair `(+/- n, d)` by its greatest common divisor and
/// packs it into a `Rat`; fails exactly when the reduced pair is out of bounds.
fn rat_reduce(neg: bool, n: u128, d: u128) -> (r: Option<Rat>)
    requires
        1 <= d,
    ensures
        lift_matches(r, norm_opt(((if neg { -(n as int) } else { n as int }), d as int))),
{
    let ghost p: (int, int) = (if neg { -(n as int) } else { n as int }, d as int);
    let g = gcd_exec(n, d);
    proof {
        lemma_gcd_divides(n as nat, d as nat);
        assert(rat_abs(p.0) == n as int);
        assert(gcd_nat(rat_abs(p.0) as nat, p.1 as nat) == g as nat);
    }
    let nr = n / g;
    let dr = d / g;
    proof {
        let gi = g as int;
        let kn = choose|k: int| n as int == #[trigger] (gi * k);
        let kd = choose|k: int| d as int == #[trigger] (gi * k);
        vstd::arithmetic::div_mod::lemma_div_multiples_vanish(kn, gi);
        vstd::arithmetic::div_mod::lemma_div_multiples_vanish(-kn, gi);
        vstd::arithmetic::div_mod::lemma_div_multiples_vanish(kd, gi);
        lemma_neg_mul(gi, kn);
        assert(-(n as int) == gi * (-kn));
        assert(nr as int == (n as int) / gi);
        assert(dr as int == (d as int) / gi);
        assert((-(n as int)) / gi == -(nr as int));
        assert(norm(p) == (if neg { -(nr as int) } else { nr as int }, dr as int));
        lemma_norm(p);
    }
    if nr <= (RAT_BOUND as u128) && dr <= (RAT_BOUND as u128) {
        let q = Rat { neg, num: nr as u64, den: dr as u64 };
        assert(q@ == norm(p));
        assert(fits(norm(p)));
        Some(q)
    } else {
        assert(!fits(norm(p)));
        None
    }
}

/// Bounded nonnegative factors have a bounded nonnegative product.
pub proof fn lemma_mul_bound(x: int, y: int, b: int)
    by (nonlinear_arith)
    requires
        0 <= x <= b,
        0 <= y <= b,
    ensures
        0 <= x * y <= b * b,
{
}

/// Positive factors have a positive product.
pub proof fn lemma_mul_pos(x: int, y: int)
    by (nonlinear_arith)
    requires
        1 <= x,
        1 <= y,
    ensures
        1 <= x * y,
{
}

/// Pulling a sign out of a product.
pub proof fn lemma_neg_mul(x: int, y: int)
    by (nonlinear_arith)
    ensures
        (-x) * y == -(x * y),
        x * (-y) == -(x * y),
        (-x) * (-y) == x * y,
{
}

/// A product with a positive factor has the sign of the other factor.
pub proof fn lemma_prod_sign(x: int, y: int)
    by (nonlinear_arith)
    requires
        y >= 1,
    ensures
        x * y == 0 <==> x == 0,
        x * y > 0 <==> x > 0,
        x * y < 0 <==> x < 0,
{
}

impl Rat {
    /// Checked exact addition.
    pub fn checked_add(&self, other: &Rat) -> (r: Option<Rat>)
        requires
            self.wf(),
            other.wf(),
        ensures
            lift_matches(r, norm_opt(add_v(self@, other@))),
    {
        proof {
            lemma_mul_bound(self.num as int, other.den as int, RAT_BOUND as int);
            lemma_mul_bound(other.num as int, self.den as int, RAT_BOUND as int);
            lemma_mul_bound(self.den as int, other.den as int, RAT_BOUND as int);
            lemma_mul_pos(self.den as int, other.den as int);
            lemma_neg_mul(self.num as int, other.den as int);
            lemma_neg_mul(other.num as int, self.den as int);
        }
        let p1: u128 = (self.num as u128) * (other.den as u128);
        let p2: u128 = (other.num as u128) * (self.den as u128);
        let d: u128 = (self.den as u128) * (other.den as u128);
        if self.neg == other.neg {
            let s: u128 = p1 + p2;
            assert(add_v(self@, other@) == ((if self.neg { -(s as int) } else { s as int }), d as int));
            rat_reduce(self.neg, s, d)
        } else if p1 >= p2 {
            let s: u128 = p1 - p2;
            assert(add_v(self@, other@) == ((if self.neg { -(s as int) } else { s as int }), d as int));
            rat_reduce(self.neg, s, d)
        } else {
            let s: u128 = p2 - p1;
            assert(add_v(self@, other@) == ((if other.neg { -(s as int) } else { s as int }), d as int));
            rat_reduce(other.neg, s, d)
        }
    }

    /// Checked exact subtraction.
    pub fn checked_sub(&self, other: &Rat) -> (r: Option<Rat>)
        requires
            self.wf(),
            other.wf(),
        ensures
            lift_matches(r, norm_opt(sub_v(self@, other@))),
    {
        let flipped = Rat { neg: !other.neg, num: other.num, den: other.den };
        proof {
            if other.num == 0 {
                assert(flipped@.0 == neg_v(other@).0);
            }
            assert(flipped@ == neg_v(other@));
        }
        self.checked_add(&flipped)
    }

    /// Checked exact multiplication.
    pub fn checked_mul(&self, other: &Rat) -> (r: Option<Rat>)
        requires
            self.wf(),
            other.wf(),
        ensures
            lift_matches(r, norm_opt(mul_v(self@, other@))),
    {
        proof {
            lemma_mul_bound(self.num as int, other.num as int, RAT_BOUND as int);
            lemma_mul_bound(self.den as int, other.den as int, RAT_BOUND as int);
            lemma_mul_pos(self.den as int, other.den as int);
            lemma_neg_mul(self.num as int, other.num as int);
        }
        let p: u128 = (self.num as u128) * (other.num as u128);
        let d: u128 = (self.den as u128) * (other.den as u128);
        let sgn: bool = self.neg != other.neg;
        assert(mul_v(self@, other@) == ((if sgn { -(p as int) } else { p as int }), d as int));
        rat_reduce(sgn, p, d)
    }

    /// Checked exact division.  The divisor must be nonzero.
    pub fn checked_div(&self, other: &Rat) -> (r: Option<Rat>)
        requires
            self.wf(),
            other.wf(),
            other@.0 != 0,
        ensures
            lift_matches(r, norm_opt(div_v(self@, other@))),
    {
        proof {
            lemma_mul_bound(self.num as int, other.den as int, RAT_BOUND as int);
            lemma_mul_bound(self.den as int, other.num as int, RAT_BOUND as int);
            lemma_mul_pos(self.den as int, other.num as int);
            lemma_neg_mul(self.num as int, other.den as int);
            lemma_neg_mul(self.den as int, other.num as int);
        }
        let p: u128 = (self.num as u128) * (other.den as u128);
        let d: u128 = (self.den as u128) * (other.num as u128);
        let sgn: bool = self.neg != other.neg;
        assert(div_v(self@, other@) == ((if sgn { -(p as int) } else { p as int }), d as int));
        rat_reduce(sgn, p, d)
    }

    /// Exact comparison: `self <= other` as rational values.
    pub fn le(&self, other: &Rat) -> (r: bool)
        requires
            self.wf(),
            other.wf(),
        ensures
            r == rat_le(self@, other@),
    {
        proof {
            lemma_mul_bound(self.num as int, other.den as int, RAT_BOUND as int);
            lemma_mul_bound(other.num as int, self.den as int, RAT_BOUND as int);
            lemma_neg_mul(self.num as int, other.den as int);
            lemma_neg_mul(other.num as int, self.den as int);
            lemma_prod_sign(self.num as int, other.den as int);
            lemma_prod_sign(other.num as int, self.den as int);
        }
        let p1: u128 = (self.num as u128) * (other.den as u128);
        let p2: u128 = (other.num as u128) * (self.den as u128);
        if self.neg && !other.neg {
            assert(rat_le(self@, other@));
            true
        } else if !self.neg && other.neg {
            assert(rat_le(self@, other@) <==> (p1 == 0 && p2 == 0));
            self.num == 0 && other.num == 0
        } else if !self.neg {
            p1 <= p2
        } else {
            p2 <= p1
        }
    }

    /// Exact equality of rational values.
    pub fn value_eq(&self, other: &Rat) -> (r: bool)
        requires
            self.wf(),
            other.wf(),
        ensures
            r == rat_eq(self@, other@),
    {
        proof {
            lemma_mul_bound(self.num as int, other.den as int, RAT_BOUND as int);
            lemma_mul_bound(other.num as int, self.den as int, RAT_BOUND as int);
            lemma_neg_mul(self.num as int, other.den as int);
            lemma_neg_mul(other.num as int, self.den as int);
            lemma_prod_sign(self.num as int, other.den as int);
            lemma_prod_sign(other.num as int, self.den as int);
        }
        let p1: u128 = (self.num as u128) * (other.den as u128);
        let p2: u128 = (other.num as u128) * (self.den as u128);
        if self.neg == other.neg {
            p1 == p2
        } else {
            assert(rat_eq(self@, other@) <==> (p1 == 0 && p2 == 0));
            self.num == 0 && other.num == 0
        }
    }
}

/// A successful checked multiplication yields the exact product.
pub proof fn lemma_nmul_value(a: (int, int), b: (int, int))
    requires
        a.1 >= 1,
        b.1 >= 1,
        nmul(Some(a), Some(b)) is Some,
    ensures
        rat_eq(nmul(Some(a), Some(b)).unwrap(), mul_v(a, b)),
        nmul(Some(a), Some(b)).unwrap().1 >= 1,
{
    lemma_mul_pos(a.1, b.1);
    lemma_norm(mul_v(a, b));
}

/// A successful checked addition yields the exact sum.
pub proof fn lemma_nadd_value(a: (int, int), b: (int, int))
    requires
        a.1 >= 1,
        b.1 >= 1,
        nadd(Some(a), Some(b)) is Some,
    ensures
        rat_eq(nadd(Some(a), Some(b)).unwrap(), add_v(a, b)),
        nadd(Some(a), Some(b)).unwrap().1 >= 1,
{
    lemma_mul_pos(a.1, b.1);
    lemma_norm(add_v(a, b));
}

/// A successful checked subtraction yields the exact difference.
pub proof fn lemma_nsub_value(a: (int, int), b: (int, int))
    requires
        a.1 >= 1,
        b.1 >= 1,
        nsub(Some(a), Some(b)) is Some,
    ensures
        rat_eq(nsub(Some(a), Some(b)).unwrap(), sub_v(a, b)),
        nsub(Some(a), Some(b)).unwrap().1 >= 1,
{
    lemma_mul_pos(a.1, b.1);
    lemma_norm(sub_v(a, b));
}

/// A successful checked division yields the exact quotient.
pub proof fn lemma_ndiv_value(a: (int, int), b: (int, int))
    requires
        a.1 >= 1,
        b.1 >= 1,
        b.0 != 0,
        ndiv(Some(a), Some(b)) is Some,
    ensures
        rat_eq(ndiv(Some(a), Some(b)).unwrap(), div_v(a, b)),
        ndiv(Some(a), Some(b)).unwrap().1 >= 1,
{
    if b.0 >= 1 {
        lemma_mul_pos(a.1, b.0);
    } else {
        lemma_neg_mul(a.1, b.0);
        lemma_mul_pos(a.1, -b.0);
    }
    lemma_norm(div_v(a, b));
}

/// Equal rationals with positive denominators have numerators of equal sign.
pub proof fn lemma_eq_sign(a: (int, int), b: (int, int))
    by (nonlinear_arith)
    requires
        rat_eq(a, b),
        a.1 >= 1,
        b.1 >= 1,
    ensures
        a.0 > 0 <==> b.0 > 0,
        a.0 == 0 <==> b.0 == 0,
        a.0 < 0 <==> b.0 < 0,
{
}

/// `rat_eq` is transitive across a pair with nonzero denominator.
pub proof fn lemma_rat_eq_trans(a: (int, int), b: (int, int), c: (int, int))
    requires
        rat_eq(a, b),
        rat_eq(b, c),
        b.1 != 0,
    ensures
        rat_eq(a, c),
{
    assert((a.0 * c.1 - c.0 * a.1) * b.1 == (a.0 * b.1 - b.0 * a.1) * c.1 + (b.0 * c.1 - c.0
        * b.1) * a.1) by (nonlinear_arith);
    assert((a.0 * b.1 - b.0 * a.1) * c.1 + (b.0 * c.1 - c.0 * b.1) * a.1 == 0) by (nonlinear_arith)
        requires
            a.0 * b.1 == b.0 * a.1,
            b.0 * c.1 == c.0 * b.1,
    ;
    assert(a.0 * c.1 - c.0 * a.1 == 0) by (nonlinear_arith)
        requires
            (a.0 * c.1 - c.0 * a.1) * b.1 == 0,
            b.1 != 0,
    ;
}

/// Multiplication respects rational equality.
pub proof fn lemma_mul_congr(a: (int, int), a2: (int, int), b: (int, int), b2: (int, int))
    by (nonlinear_arith)
    requires
        rat_eq(a, a2),
        rat_eq(b, b2),
    ensures
        rat_eq(mul_v(a, b), mul_v(a2, b2)),
{
    assert((a.0 * a2.1) * (b.0 * b2.1) == (a2.0 * a.1) * (b2.0 * b.1));
}

/// Addition respects rational equality.
pub proof fn lemma_add_congr(a: (int, int), a2: (int, int), b: (int, int), b2: (int, int))
    requires
        rat_eq(a, a2),
        rat_eq(b, b2),
    ensures
        rat_eq(add_v(a, b), add_v(a2, b2)),
{
    assert(a.0 * b.1 * (a2.1 * b2.1) == a2.0 * b2.1 * (a.1 * b.1)) by (nonlinear_arith)
        requires
            a.0 * a2.1 == a2.0 * a.1,
            b.0 * b2.1 == b2.0 * b.1,
    ;
    assert(b.0 * a.1 * (a2.1 * b2.1) == b2.0 * a2.1 * (a.1 * b.1)) by (nonlinear_arith)
        requires
            a.0 * a2.1 == a2.0 * a.1,
            b.0 * b2.1 == b2.0 * b.1,
    ;
    assert(rat_eq(add_v(a, b), add_v(a2, b2))) by (nonlinear_arith)
        requires
            a.0 * b.1 * (a2.1 * b2.1) == a2.0 * b2.1 * (a.1 * b.1),
            b.0 * a.1 * (a2.1 * b2.1) == b2.0 * a2.1 * (a.1 * b.1),
    ;
}

/// Division respects rational equality; the divisor's sign carries over.
#[verifier::rlimit(50)]
pub proof fn lemma_div_congr(a: (int, int), a2: (int, int), b: (int, int), b2: (int, int))
    requires
        rat_eq(a, a2),
        rat_eq(b, b2),
        b.1 >= 1,
        b2.1 >= 1,
        b.0 != 0,
    ensures
        b2.0 != 0,
        rat_eq(div_v(a, b), div_v(a2, b2)),
{
    lemma_eq_sign(b, b2);
    assert((a.0 * b.1) * (a2.1 * b2.0) == (a.0 * a2.1) * (b.1 * b2.0)) by (nonlinear_arith);
    assert((a.0 * a2.1) * (b.1 * b2.0) == (a2.0 * a.1) * (b.1 * b2.0));
    assert(b.1 * b2.0 == b2.1 * b.0) by (nonlinear_arith)
        requires
            b.0 * b2.1 == b2.0 * b.1,
    ;
    assert((a2.0 * a.1) * (b2.1 * b.0) == (a2.0 * b2.1) * (a.1 * b.0)) by (nonlinear_arith);
    assert((a.0 * b.1) * (a2.1 * b2.0) == (a2.0 * b2.1) * (a.1 * b.0));
    if b.0 >= 0 {
        assert(rat_eq(div_v(a, b), div_v(a2, b2)));
    } else {
        assert(rat_eq(div_v(a, b), div_v(a2, b2))) by (nonlinear_arith)
            requires
                (a.0 * b.1) * (a2.1 * b2.0) == (a2.0 * b2.1) * (a.1 * b.0),
                div_v(a, b) == ((-(a.0 * b.1)), -(a.1 * b.0)),
                div_v(a2, b2) == ((-(a2.0 * b2.1)), -(a2.1 * b2.0)),
        ;
    }
}

/// `<=` on rationals with positive denominators is transitive.
pub proof fn lemma_rat_le_trans(a: (int, int), b: (int, int), c: (int, int))
    requires
        rat_le(a, b),
        rat_le(b, c),
        a.1 >= 1,
        b.1 >= 1,
        c.1 >= 1,
    ensures
        rat_le(a, c),
{
    assert((a.0 * c.1) * b.1 <= (c.0 * a.1) * b.1) by (nonlinear_arith)
        requires
            a.0 * b.1 <= b.0 * a.1,
            b.0 * c.1 <= c.0 * b.1,
            a.1 >= 1,
            b.1 >= 1,
            c.1 >= 1,
    ;
    assert(a.0 * c.1 <= c.0 * a.1) by (nonlinear_arith)
        requires
            (a.0 * c.1) * b.1 <= (c.0 * a.1) * b.1,
            b.1 >= 1,
    ;
}

/// `<=` followed by `<` gives `<`, over positive denominators.
pub proof fn lemma_le_lt_trans(a: (int, int), b: (int, int), c: (int, int))
    requires
        rat_le(a, b),
        rat_lt(b, c),
        a.1 >= 1,
        b.1 >= 1,
        c.1 >= 1,
    ensures
        rat_lt(a, c),
{
    assert((a.0 * c.1) * b.1 < (c.0 * a.1) * b.1) by (nonlinear_arith)
        requires
            a.0 * b.1 <= b.0 * a.1,
            b.0 * c.1 < c.0 * b.1,
            a.1 >= 1,
            b.1 >= 1,
            c.1 >= 1,
    ;
    assert(a.0 * c.1 < c.0 * a.1) by (nonlinear_arith)
        requires
            (a.0 * c.1) * b.1 < (c.0 * a.1) * b.1,
            b.1 >= 1,
    ;
}

/// Multiplying both sides by a nonnegative rational preserves order.
pub proof fn lemma_le_scale(a: (int, int), b: (int, int), k: (int, int))
    by (nonlinear_arith)
    requires
        rat_le(a, b),
        a.1 >= 1,
        b.1 >= 1,
        k.0 >= 0,
        k.1 >= 1,
    ensures
        rat_le(mul_v(a, k), mul_v(b, k)),
{
}

/// A positive rational divided by itself is one.
pub proof fn lemma_div_self_one(t: (int, int))
    by (nonlinear_arith)
    requires
        t.0 >= 1,
        t.1 >= 1,
    ensures
        rat_eq(div_v(t, t), (1int, 1int)),
{
}

/// Dividing a sum by a common positive divisor distributes over the parts.
pub proof fn lemma_div_add_same(x: (int, int), y: (int, int), t: (int, int))
    requires
        x.1 >= 1,
        y.1 >= 1,
        t.0 >= 1,
        t.1 >= 1,
    ensures
        rat_eq(add_v(div_v(x, t), div_v(y, t)), div_v(add_v(x, y), t)),
{
    let lhs = add_v(div_v(x, t), div_v(y, t));
    let rhs = div_v(add_v(x, y), t);
    let s = x.0 * y.1 + y.0 * x.1;
    assert(lhs == ((x.0 * t.1) * (y.1 * t.0) + (y.0 * t.1) * (x.1 * t.0), (x.1 * t.0) * (y.1
        * t.0)));
    assert(rhs == (s * t.1, (x.1 * y.1) * t.0));
    assert((x.0 * t.1) * (y.1 * t.0) == (x.0 * y.1) * (t.0 * t.1)) by (nonlinear_arith);
    assert((y.0 * t.1) * (x.1 * t.0) == (y.0 * x.1) * (t.0 * t.1)) by (nonlinear_arith);
    assert((x.0 * y.1) * (t.0 * t.1) + (y.0 * x.1) * (t.0 * t.1) == (x.0 * y.1 + y.0 * x.1) * (t.0
        * t.1)) by (nonlinear_arith);
    assert(lhs.0 == s * (t.0 * t.1));
    assert((s * (t.0 * t.1)) * ((x.1 * y.1) * t.0) == (s * t.1) * ((x.1 * t.0) * (y.1 * t.0)))
        by (nonlinear_arith);
    assert(lhs.0 * rhs.1 == rhs.0 * lhs.1);
}

/// Order of rationals is invariant under rational equality.
pub proof fn lemma_le_congr(a: (int, int), a2: (int, int), b: (int, int), b2: (int, int))
    requires
        rat_eq(a, a2),
        rat_eq(b, b2),
        a.1 >= 1,
        a2.1 >= 1,
        b.1 >= 1,
        b2.1 >= 1,
    ensures
        rat_le(a, b) == rat_le(a2, b2),
        rat_lt(a, b) == rat_lt(a2, b2),
{
    lemma_le_half(a, a2, b, b2);
    lemma_le_half(a2, a, b2, b);
    assert(rat_lt(a, b) == !rat_le(b, a));
    assert(rat_lt(a2, b2) == !rat_le(b2, a2));
    lemma_le_half(b, b2, a, a2);
    lemma_le_half(b2, b, a2, a);
}

/// One direction of `lemma_le_congr`.
proof fn lemma_le_half(a: (int, int), a2: (int, int), b: (int, int), b2: (int, int))
    requires
        rat_eq(a, a2),
        rat_eq(b, b2),
        a.1 >= 1,
        a2.1 >= 1,
        b.1 >= 1,
        b2.1 >= 1,
    ensures
        rat_le(a, b) ==> rat_le(a2, b2),
{
    if rat_le(a, b) {
        assert((a2.0 * b2.1) * (a.1 * b.1) <= (b2.0 * a2.1) * (a.1 * b.1)) by (nonlinear_arith)
            requires
                a.0 * b.1 <= b.0 * a.1,
                a.0 * a2.1 == a2.0 * a.1,
                b.0 * b2.1 == b2.0 * b.1,
                a2.1 >= 1,
                b2.1 >= 1,
        ;
        assert(a2.0 * b2.1 <= b2.0 * a2.1) by (nonlinear_arith)
            requires
                (a2.0 * b2.1) * (a.1 * b.1) <= (b2.0 * a2.1) * (a.1 * b.1),
                a.1 >= 1,
                b.1 >= 1,
        ;
    }
}

} // verus!
