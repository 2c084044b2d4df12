//! A wheel converts between linear ground speed (mm/s) and motor-shaft RPM,
//! through its gear ratio and its circumference.  The circumference uses the
//! model's fixed rational approximation of pi, so every conversion is an exact
//! rational computation.

use crate::rat::{
    div_v, fits, lemma_div_congr, lemma_eq_sign, lemma_mul_congr, lemma_mul_pos, lemma_norm,
    lemma_rat_eq_trans, lift_matches, mul_v, ndiv, nmul, norm, rat_eq, Rat,
};
use vstd::prelude::*;

verus! {

/// The rational approximation of pi used throughout the model.
pub open spec fn pi_v() -> (int, int) {
    (355, 113)
}

/// Executable pi constant.
pub fn pi_rat() -> (r: Rat)
    ensures
        r.wf(),
        r@ == pi_v(),
{
    rat_const(355, 113)
}

/// The pair `(n, 1)`.
pub open spec fn int_v(n: int) -> (int, int) {
    (n, 1)
}

/// Builds a small nonnegative constant `num / den`.
pub(crate) fn rat_const(num: u32, den: u32) -> (r: Rat)
    requires
        den >= 1,
    ensures
        r.wf(),
        r@ == (num as int, den as int),
{
    let r = Rat::new(num as i64, den as i64);
    r.unwrap()
}

/// A wheel: diameter (mm), mounting position (unused by the model), and gear
/// ratio (motor-shaft turns per wheel turn).
#[derive(Clone, Copy)]
pub struct Wheel {
    diameter: Rat,
    pos_x: Rat,
    pos_y: Rat,
    gear_ratio: Rat,
}

impl Wheel {
    /// Diameter as a rational pair.
    pub closed spec fn diameter_v(self) -> (int, int) {
        self.diameter@
    }

    /// Gear ratio as a rational pair.
    pub closed spec fn gear_v(self) -> (int, int) {
        self.gear_ratio@
    }

    /// The stored rationals are well-formed.
    pub open spec fn rats_wf(self) -> bool {
        &&& self.diameter_v().1 >= 1 && fits(self.diameter_v())
        &&& self.gear_v().1 >= 1 && fits(self.gear_v())
    }

    /// A physically meaningful wheel: positive diameter and gear ratio.
    pub open spec fn valid(self) -> bool {
        &&& self.rats_wf()
        &&& self.diameter_v().0 >= 1
        &&& self.gear_v().0 >= 1
    }

    /// Assembles a wheel from its raw description.
    pub fn new(diameter: Rat, pos_x: Rat, pos_y: Rat, gear_ratio: Rat) -> (w: Wheel)
        requires
            diameter.wf(),
            gear_ratio.wf(),
        ensures
            w.diameter_v() == diameter@,
            w.gear_v() == gear_ratio@,
            w.rats_wf(),
            w.valid() <==> diameter@.0 >= 1 && gear_ratio@.0 >= 1,
    {
        Wheel { diameter, pos_x, pos_y, gear_ratio }
    }

    /// Whether diameter and gear ratio are strictly positive.
    pub fn check_positive(&self) -> (r: bool)
        requires
            self.rats_wf(),
        ensures
            r == self.valid(),
    {
        let zero = rat_const(0, 1);
        let dpos = !self.diameter.le(&zero);
        let gpos = !self.gear_ratio.le(&zero);
        dpos && gpos
    }

    /// Ideal circumference: `pi * diameter`.
    pub open spec fn circumference_v(self) -> (int, int) {
        mul_v(pi_v(), self.diameter_v())
    }

    /// Checked computation mirrored by `circumference_get`.
    pub open spec fn circumference_checked(self) -> Option<(int, int)> {
        nmul(Some(pi_v()), Some(self.diameter_v()))
    }

    /// Circumference of the wheel.
    pub fn circumference_get(&self) -> (r: Option<Rat>)
        requires
            self.rats_wf(),
        ensures
            lift_matches(r, self.circumference_checked()),
    {
        let pi = pi_rat();
        pi.checked_mul(&self.diameter)
    }

    /// Ideal motor-shaft RPM needed for ground speed `s`:
    /// `(s * gear_ratio * 60) / circumference`.
    pub open spec fn rpm_of_speed_v(self, s: (int, int)) -> (int, int) {
        div_v(mul_v(mul_v(s, self.gear_v()), int_v(60)), self.circumference_v())
    }

    /// Checked computation mirrored by `ground_speed_to_rpm`.
    pub open spec fn rpm_checked(self, s: (int, int)) -> Option<(int, int)> {
        ndiv(
            nmul(nmul(Some(s), Some(self.gear_v())), Some(int_v(60))),
            self.circumference_checked(),
        )
    }

    /// Motor-shaft RPM required to reach ground speed `speed`.
    pub fn ground_speed_to_rpm(&self, speed: &Rat) -> (r: Option<Rat>)
        requires
            self.rats_wf(),
            speed.wf(),
        ensures
            lift_matches(r, self.rpm_checked(speed@)),
    {
        let t1 = match speed.checked_mul(&self.gear_ratio) {
            Some(v) => v,
            None => {
                return None;
            },
        };
        let t2 = match t1.checked_mul(&rat_const(60, 1)) {
            Some(v) => v,
            None => {
                return None;
            },
        };
        let circ = match self.circumference_get() {
            Some(v) => v,
            None => {
                return None;
            },
        };
        if circ.is_zero() {
            return None;
        }
        t2.checked_div(&circ)
    }

    /// Ideal ground speed reached at motor-shaft RPM `r`:
    /// `(r / gear_ratio) * circumference / 60`.
    pub open spec fn speed_of_rpm_v(self, r: (int, int)) -> (int, int) {
        div_v(mul_v(div_v(r, self.gear_v()), self.circumference_v()), int_v(60))
    }

    /// Checked computation mirrored by `ground_speed_from_rpm`.
    pub open spec fn speed_from_rpm_checked(self, r: (int, int)) -> Option<(int, int)> {
        ndiv(
            nmul(ndiv(Some(r), Some(self.gear_v())), self.circumference_checked()),
            Some(int_v(60)),
        )
    }

    /// Ground speed reached at motor-shaft RPM `rpm`; the inverse of
    /// `ground_speed_to_rpm`.
    pub fn ground_speed_from_rpm(&self, rpm: &Rat) -> (r: Option<Rat>)
        requires
            self.rats_wf(),
            rpm.wf(),
        ensures
            lift_matches(r, self.speed_from_rpm_checked(rpm@)),
    {
        if self.gear_ratio.is_zero() {
            return None;
        }
        let t1 = match rpm.checked_div(&self.gear_ratio) {
            Some(v) => v,
            None => {
                return None;
            },
        };
        let circ = match self.circumference_get() {
            Some(v) => v,
            None => {
                return None;
            },
        };
        let t2 = match t1.checked_mul(&circ) {
            Some(v) => v,
            None => {
                return None;
            },
        };
        t2.checked_div(&rat_const(60, 1))
    }
}

/// The circumference of a valid wheel is a positive rational.
pub proof fn lemma_circumference_pos(w: Wheel)
    requires
        w.valid(),
    ensures
        w.circumference_v().0 >= 1,
        w.circumference_v().1 >= 1,
{
    lemma_mul_pos(355, w.diameter_v().0);
    lemma_mul_pos(113, w.diameter_v().1);
}

/// When the checked RPM conversion succeeds, its value is the ideal one.
pub proof fn lemma_rpm_checked_value(w: Wheel, s: (int, int))
    requires
        w.valid(),
        s.1 >= 1,
        w.rpm_checked(s) is Some,
    ensures
        rat_eq(w.rpm_checked(s).unwrap(), w.rpm_of_speed_v(s)),
        w.rpm_checked(s).unwrap().1 >= 1,
{
    let g = w.gear_v();
    let c = w.circumference_v();
    lemma_circumference_pos(w);
    let m1 = mul_v(s, g);
    lemma_mul_pos(s.1, g.1);
    lemma_norm(m1);
    let n1 = norm(m1);
    let m2 = mul_v(n1, int_v(60));
    lemma_norm(m2);
    let n2 = norm(m2);
    let nc = norm(c);
    lemma_norm(c);
    lemma_eq_sign(nc, c);
    // value of n2 equals mul_v(mul_v(s, g), 60)
    lemma_mul_congr(n1, m1, int_v(60), int_v(60));
    lemma_rat_eq_trans(n2, m2, mul_v(m1, int_v(60)));
    // the final division
    lemma_div_congr(n2, mul_v(m1, int_v(60)), nc, c);
    let q = div_v(n2, nc);
    lemma_mul_pos(n2.1, nc.0);
    lemma_norm(q);
    lemma_rat_eq_trans(norm(q), q, div_v(mul_v(m1, int_v(60)), c));
}

} // verus!