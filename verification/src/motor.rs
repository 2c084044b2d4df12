//! A calibrated motor converts between ground speed, driving voltage and
//! electrical power.  Calibration samples the wheel conversion at a reference
//! ground speed and at twice that speed; because speed and voltage are
//! proportional through the kv rating and the wheel, the two samples determine
//! the exact speed-per-volt slope of a line through the origin.

use crate::rat::{
    div_v, fits, lemma_div_congr, lemma_eq_sign, lemma_le_congr, lemma_mul_congr, lemma_mul_pos,
    lemma_ndiv_value, lemma_nmul_value, lemma_nsub_value, lemma_rat_eq_trans, lift_matches, mul_v,
    ndiv, nmul, nsub, rat_eq, rat_lt, sub_v, Rat,
};
use crate::wheel::{int_v, rat_const, Wheel};
use vstd::prelude::*;

verus! {

/// The fixed reference ground speed (mm/s) used for calibration and for
/// selecting the limiting motor.
pub open spec fn ref_speed_v() -> (int, int) {
    int_v(100)
}

/// Executable reference ground speed.
pub fn ref_speed() -> (r: Rat)
    ensures
        r.wf(),
        r@ == ref_speed_v(),
{
    rat_const(100, 1)
}

/// A voltage command for one motor, produced by the speed queries.
pub struct MotorCommand {
    name: String,
    /// The driving voltage to apply.
    pub voltage: Rat,
}

impl MotorCommand {
    /// The name of the motor this command addresses.
    pub closed spec fn name_v(self) -> Seq<char> {
        self.name@
    }

    /// The commanded voltage as a rational pair.
    pub closed spec fn voltage_v(self) -> (int, int) {
        self.voltage@
    }

    /// Read access to the motor name.
    pub fn name_get(&self) -> (r: &String)
        ensures
            r@ == self.name_v(),
    {
        &self.name
    }
}

/// A raw motor description: kv rating (RPM per volt at the motor shaft),
/// maximum sustained current (A), and the wheel it drives.
pub struct MotorBuilder {
    name: String,
    kv_rating: Rat,
    current_rating: Rat,
    wheel: Wheel,
}

/// A calibrated motor.
pub struct Motor {
    name: String,
    kv_rating: Rat,
    current_rating: Rat,
    wheel: Wheel,
    ground_speed_to_voltage_ratio: Rat,
    fixed_speed_power_ratio: Rat,
}

impl MotorBuilder {
    /// Motor name.
    pub closed spec fn name_v(self) -> Seq<char> {
        self.name@
    }

    /// kv rating as a rational pair.
    pub closed spec fn kv_v(self) -> (int, int) {
        self.kv_rating@
    }

    /// Current rating as a rational pair.
    pub closed spec fn cur_v(self) -> (int, int) {
        self.current_rating@
    }

    /// The owned wheel.
    pub closed spec fn wheel_w(self) -> Wheel {
        self.wheel
    }

    /// The stored rationals are well-formed.
    pub open spec fn rats_wf(self) -> bool {
        &&& self.wheel_w().rats_wf()
        &&& fits(self.kv_v()) && self.kv_v().1 >= 1
        &&& fits(self.cur_v()) && self.cur_v().1 >= 1
    }

    /// A physically meaningful description: valid wheel, positive kv rating
    /// and positive current rating.
    pub open spec fn valid(self) -> bool {
        &&& self.rats_wf()
        &&& self.wheel_w().valid()
        &&& self.kv_v().0 >= 1
        &&& self.cur_v().0 >= 1
    }

    /// Assembles a raw motor description.
    pub fn new(name: String, kv_rating: Rat, current_rating: Rat, wheel: Wheel) -> (r:
        MotorBuilder)
        requires
            kv_rating.wf(),
            current_rating.wf(),
            wheel.rats_wf(),
        ensures
            r.name_v() == name@,
            r.kv_v() == kv_rating@,
            r.cur_v() == current_rating@,
            r.wheel_w() == wheel,
            r.rats_wf(),
    {
        MotorBuilder { name, kv_rating, current_rating, wheel }
    }

    /// Whether the description is physically meaningful.
    pub fn check_valid(&self) -> (r: bool)
        requires
            self.rats_wf(),
        ensures
            r == self.valid(),
    {
        let zero = rat_const(0, 1);
        let wheel_ok = self.wheel.check_positive();
        let kv_ok = !self.kv_rating.le(&zero);
        let cur_ok = !self.current_rating.le(&zero);
        wheel_ok && kv_ok && cur_ok
    }

    /// Ideal power drawn when this motor is driven to ground speed `s` at its
    /// rated current: `rpm(s) / kv * current`.
    pub open spec fn power_v(self, s: (int, int)) -> (int, int) {
        mul_v(div_v(self.wheel_w().rpm_of_speed_v(s), self.kv_v()), self.cur_v())
    }

    /// Checked computation mirrored by `power_at_ground_speed`.
    pub open spec fn power_checked(self, s: (int, int)) -> Option<(int, int)> {
        nmul(ndiv(self.wheel_w().rpm_checked(s), Some(self.kv_v())), Some(self.cur_v()))
    }

    /// Electrical power this motor alone draws when driven to `speed` at its
    /// rated current.
    pub fn power_at_ground_speed(&self, speed: &Rat) -> (r: Option<Rat>)
        requires
            self.rats_wf(),
            speed.wf(),
        ensures
            lift_matches(r, self.power_checked(speed@)),
    {
        let rpm = match self.wheel.ground_speed_to_rpm(speed) {
            Some(v) => v,
            None => {
                return None;
            },
        };
        if self.kv_rating.is_zero() {
            return None;
        }
        let t = match rpm.checked_div(&self.kv_rating) {
            Some(v) => v,
            None => {
                return None;
            },
        };
        t.checked_mul(&self.current_rating)
    }

    /// Checked voltage needed to reach ground speed `s`: `rpm(s) / kv`.
    pub open spec fn volts_at_checked(self, s: (int, int)) -> Option<(int, int)> {
        ndiv(self.wheel_w().rpm_checked(s), Some(self.kv_v()))
    }

    /// Checked calibration: `ref_speed / (v2 - v1)` where `v1` and `v2` are
    /// the voltages for the reference speed and twice the reference speed.
    pub open spec fn calib_checked(self) -> Option<(int, int)> {
        ndiv(
            Some(ref_speed_v()),
            nsub(
                self.volts_at_checked(mul_v(int_v(2), ref_speed_v())),
                self.volts_at_checked(ref_speed_v()),
            ),
        )
    }

    /// Calibrates the description into a `Motor` carrying the given
    /// fixed-speed power ratio.  Fails exactly when the checked calibration
    /// fails (overflow, or a degenerate description with a zero slope).
    pub fn build(&self, fixed_speed_power_ratio: Rat) -> (r: Option<Motor>)
        requires
            self.rats_wf(),
            fixed_speed_power_ratio.wf(),
        ensures
            r is Some <==> self.calib_checked() is Some,
            match r {
                Option::Some(m) => {
                    &&& m.name_v() == self.name_v()
                    &&& m.kv_v() == self.kv_v()
                    &&& m.cur_v() == self.cur_v()
                    &&& m.wheel_w() == self.wheel_w()
                    &&& m.ratio_v() == self.calib_checked().unwrap()
                    &&& fits(m.ratio_v()) && m.ratio_v().1 >= 1
                    &&& m.fixed_v() == fixed_speed_power_ratio@
                },
                Option::None => true,
            },
    {
        let s1 = ref_speed();
        let s2 = rat_const(200, 1);
        assert(s2@ == mul_v(int_v(2), ref_speed_v()));
        let rpm1 = match self.wheel.ground_speed_to_rpm(&s1) {
            Some(v) => v,
            None => {
                return None;
            },
        };
        let rpm2 = match self.wheel.ground_speed_to_rpm(&s2) {
            Some(v) => v,
            None => {
                return None;
            },
        };
        if self.kv_rating.is_zero() {
            return None;
        }
        let v1 = match rpm1.checked_div(&self.kv_rating) {
            Some(v) => v,
            None => {
                return None;
            },
        };
        let v2 = match rpm2.checked_div(&self.kv_rating) {
            Some(v) => v,
            None => {
                return None;
            },
        };
        let diff = match v2.checked_sub(&v1) {
            Some(v) => v,
            None => {
                return None;
            },
        };
        if diff.is_zero() {
            return None;
        }
        let ratio = match s1.checked_div(&diff) {
            Some(v) => v,
            None => {
                return None;
            },
        };
        Some(
            Motor {
                name: self.name.clone(),
                kv_rating: self.kv_rating,
                current_rating: self.current_rating,
                wheel: self.wheel,
                ground_speed_to_voltage_ratio: ratio,
                fixed_speed_power_ratio,
            },
        )
    }
}

impl Motor {
    /// Motor name.
    pub closed spec fn name_v(self) -> Seq<char> {
        self.name@
    }

    /// kv rating as a rational pair.
    pub closed spec fn kv_v(self) -> (int, int) {
        self.kv_rating@
    }

    /// Current rating as a rational pair.
    pub closed spec fn cur_v(self) -> (int, int) {
        self.current_rating@
    }

    /// The owned wheel.
    pub closed spec fn wheel_w(self) -> Wheel {
        self.wheel
    }

    /// Speed-per-volt slope as a rational pair.
    pub closed spec fn ratio_v(self) -> (int, int) {
        self.ground_speed_to_voltage_ratio@
    }

    /// This motor's share of total fleet power at the reference speed.
    pub closed spec fn fixed_v(self) -> (int, int) {
        self.fixed_speed_power_ratio@
    }

    /// A well-formed calibrated motor: valid description, positive slope,
    /// positive power share.
    pub open spec fn wf(self) -> bool {
        &&& self.wheel_w().valid()
        &&& fits(self.kv_v()) && self.kv_v().1 >= 1 && self.kv_v().0 >= 1
        &&& fits(self.cur_v()) && self.cur_v().1 >= 1 && self.cur_v().0 >= 1
        &&& fits(self.ratio_v()) && self.ratio_v().1 >= 1 && self.ratio_v().0 >= 1
        &&& fits(self.fixed_v()) && self.fixed_v().1 >= 1 && self.fixed_v().0 >= 1
    }

    /// Current rating of this motor.
    pub fn current_rating_get(&self) -> (r: Rat)
        ensures
            r@ == self.cur_v(),
    {
        self.current_rating
    }

    /// Speed-per-volt slope of this motor.
    pub fn ratio_get(&self) -> (r: Rat)
        ensures
            r@ == self.ratio_v(),
    {
        self.ground_speed_to_voltage_ratio
    }

    /// Fixed-speed power ratio of this motor.
    pub fn fixed_speed_power_ratio_get(&self) -> (r: Rat)
        ensures
            r@ == self.fixed_v(),
    {
        self.fixed_speed_power_ratio
    }

    /// Read access to the motor name.
    pub fn name_get(&self) -> (r: &String)
        ensures
            r@ == self.name_v(),
    {
        &self.name
    }

    /// Ideal ground speed at driving voltage `v`: `v * ratio`.
    pub open spec fn speed_of_volts_v(self, v: (int, int)) -> (int, int) {
        mul_v(v, self.ratio_v())
    }

    /// Checked computation mirrored by `ground_speed_get`.
    pub open spec fn speed_checked(self, v: (int, int)) -> Option<(int, int)> {
        nmul(Some(v), Some(self.ratio_v()))
    }

    /// Ground speed reached at driving voltage `volts`.
    pub fn ground_speed_get(&self, volts: &Rat) -> (r: Option<Rat>)
        requires
            self.wf(),
            volts.wf(),
        ensures
            lift_matches(r, self.speed_checked(volts@)),
    {
        volts.checked_mul(&self.ground_speed_to_voltage_ratio)
    }

    /// Ideal driving voltage for ground speed `s`: `s / ratio`.
    pub open spec fn volts_of_speed_v(self, s: (int, int)) -> (int, int) {
        div_v(s, self.ratio_v())
    }

    /// Checked computation mirrored by `ground_speed_to_voltage`.
    pub open spec fn volts_checked(self, s: (int, int)) -> Option<(int, int)> {
        ndiv(Some(s), Some(self.ratio_v()))
    }

    /// Driving voltage needed to reach ground speed `speed`.
    pub fn ground_speed_to_voltage(&self, speed: &Rat) -> (r: Option<Rat>)
        requires
            self.wf(),
            speed.wf(),
        ensures
            lift_matches(r, self.volts_checked(speed@)),
    {
        speed.checked_div(&self.ground_speed_to_voltage_ratio)
    }

    /// Ideal power drawn at ground speed `s`, at the rated current:
    /// `(s / ratio) * current`.
    pub open spec fn power_of_speed_v(self, s: (int, int)) -> (int, int) {
        mul_v(self.volts_of_speed_v(s), self.cur_v())
    }

    /// Checked computation mirrored by `ground_speed_to_power`.
    pub open spec fn power_checked(self, s: (int, int)) -> Option<(int, int)> {
        nmul(self.volts_checked(s), Some(self.cur_v()))
    }

    /// Power drawn to sustain ground speed `speed` at the rated current.
    pub fn ground_speed_to_power(&self, speed: &Rat) -> (r: Option<Rat>)
        requires
            self.wf(),
            speed.wf(),
        ensures
            lift_matches(r, self.power_checked(speed@)),
    {
        let volts = match self.ground_speed_to_voltage(speed) {
            Some(v) => v,
            None => {
                return None;
            },
        };
        volts.checked_mul(&self.current_rating)
    }

    /// Builds the voltage command that drives this motor at `speed`.
    pub fn ground_speed_set(&self, speed: &Rat) -> (r: Option<MotorCommand>)
        requires
            self.wf(),
            speed.wf(),
        ensures
            match (r, self.volts_checked(speed@)) {
                (Option::Some(cmd), Option::Some(p)) => {
                    &&& cmd.name_v() == self.name_v()
                    &&& cmd.voltage_v() == p
                    &&& fits(p)
                },
                (Option::None, Option::None) => true,
                _ => false,
            },
    {
        let voltage = match self.ground_speed_to_voltage(speed) {
            Some(v) => v,
            None => {
                return None;
            },
        };
        Some(MotorCommand { name: self.name.clone(), voltage })
    }
}

/// For a valid description, a successful checked calibration yields a
/// strictly positive slope, rationally equal to the ideal two-point formula
/// `ref_speed / (v2 - v1)`.
pub proof fn lemma_calib_pos(mb: MotorBuilder)
    requires
        mb.valid(),
        mb.calib_checked() is Some,
    ensures
        mb.calib_checked().unwrap().0 >= 1,
        mb.calib_checked().unwrap().1 >= 1,
        fits(mb.calib_checked().unwrap()),
{
    let w = mb.wheel_w();
    let kv = mb.kv_v();
    let g = w.gear_v();
    let c = w.circumference_v();
    crate::wheel::lemma_circumference_pos(w);
    let two_ref = mul_v(int_v(2), ref_speed_v());
    let r1 = w.rpm_checked(ref_speed_v()).unwrap();
    let r2 = w.rpm_checked(two_ref).unwrap();
    crate::wheel::lemma_rpm_checked_value(w, ref_speed_v());
    crate::wheel::lemma_rpm_checked_value(w, two_ref);
    let r1i = w.rpm_of_speed_v(ref_speed_v());
    let r2i = w.rpm_of_speed_v(two_ref);
    // the ideal rpm pairs, written out by components
    assert(r1i.0 == (6000 * g.0) * c.1) by (nonlinear_arith)
        requires
            r1i.0 == (((100 * g.0) * 60)) * c.1,
    ;
    assert(r1i.1 == g.1 * c.0) by (nonlinear_arith)
        requires
            r1i.1 == ((1 * g.1) * 1) * c.0,
    ;
    assert(r2i.0 == (12000 * g.0) * c.1) by (nonlinear_arith)
        requires
            r2i.0 == (((2 * 100) * g.0) * 60) * c.1,
    ;
    assert(r2i.1 == g.1 * c.0) by (nonlinear_arith)
        requires
            r2i.1 == (((1 * 1) * g.1) * 1) * c.0,
    ;
    let v1 = ndiv(Some(r1), Some(kv)).unwrap();
    let v2 = ndiv(Some(r2), Some(kv)).unwrap();
    lemma_ndiv_value(r1, kv);
    lemma_ndiv_value(r2, kv);
    let v1i = div_v(r1i, kv);
    let v2i = div_v(r2i, kv);
    lemma_mul_pos(r1.1, kv.0);
    lemma_mul_pos(r2.1, kv.0);
    assert(rat_eq(div_v(r1, kv), v1i)) by {
        lemma_div_congr(r1, r1i, kv, kv);
    }
    lemma_rat_eq_trans(v1, div_v(r1, kv), v1i);
    assert(rat_eq(div_v(r2, kv), v2i)) by {
        lemma_div_congr(r2, r2i, kv, kv);
    }
    lemma_rat_eq_trans(v2, div_v(r2, kv), v2i);
    // the ideal voltages are positive and v1i < v2i
    assert(v1i == (((6000 * g.0) * c.1) * kv.1, (g.1 * c.0) * kv.0));
    assert(v2i == (((12000 * g.0) * c.1) * kv.1, (g.1 * c.0) * kv.0));
    assert(v1i.1 >= 1 && v2i.1 >= 1 && rat_lt(v1i, v2i)) by (nonlinear_arith)
        requires
            g.0 >= 1,
            g.1 >= 1,
            c.0 >= 1,
            c.1 >= 1,
            kv.0 >= 1,
            kv.1 >= 1,
            v1i == (((6000 * g.0) * c.1) * kv.1, (g.1 * c.0) * kv.0),
            v2i == (((12000 * g.0) * c.1) * kv.1, (g.1 * c.0) * kv.0),
    ;
    let d = nsub(Some(v2), Some(v1)).unwrap();
    lemma_nsub_value(v2, v1);
    // rat_lt(v1, v2) carries over from the ideal pairs
    lemma_le_congr(v1, v1i, v2, v2i);
    // hence the difference is strictly positive
    assert(sub_v(v2, v1).0 >= 1 && sub_v(v2, v1).1 >= 1) by (nonlinear_arith)
        requires
            v1.1 >= 1,
            v2.1 >= 1,
            v1.0 * v2.1 < v2.0 * v1.1,
            sub_v(v2, v1) == (v2.0 * v1.1 + (-v1.0) * v2.1, v2.1 * v1.1),
    ;
    lemma_eq_sign(d, sub_v(v2, v1));
    let cal = ndiv(Some(ref_speed_v()), Some(d)).unwrap();
    lemma_ndiv_value(ref_speed_v(), d);
    assert(div_v(ref_speed_v(), d) == (100 * d.1, 1 * d.0));
    lemma_eq_sign(cal, div_v(ref_speed_v(), d));
    lemma_mul_pos(1, d.0);
}

/// For a valid description and a strictly positive speed, a successful
/// checked reference power is strictly positive and rationally equal to the
/// ideal `rpm(s) / kv * current`.
pub proof fn lemma_power_pos(mb: MotorBuilder, s: (int, int))
    requires
        mb.valid(),
        s.0 >= 1,
        s.1 >= 1,
        mb.power_checked(s) is Some,
    ensures
        mb.power_checked(s).unwrap().0 >= 1,
        mb.power_checked(s).unwrap().1 >= 1,
        rat_eq(mb.power_checked(s).unwrap(), mb.power_v(s)),
{
    let w = mb.wheel_w();
    let kv = mb.kv_v();
    let cur = mb.cur_v();
    let g = w.gear_v();
    let c = w.circumference_v();
    crate::wheel::lemma_circumference_pos(w);
    let r = w.rpm_checked(s).unwrap();
    crate::wheel::lemma_rpm_checked_value(w, s);
    let ri = w.rpm_of_speed_v(s);
    assert(ri == (((s.0 * g.0) * 60) * c.1, ((s.1 * g.1) * 1) * c.0));
    let v = ndiv(Some(r), Some(kv)).unwrap();
    lemma_ndiv_value(r, kv);
    lemma_mul_pos(r.1, kv.0);
    assert(rat_eq(div_v(r, kv), div_v(ri, kv))) by {
        lemma_div_congr(r, ri, kv, kv);
    }
    lemma_rat_eq_trans(v, div_v(r, kv), div_v(ri, kv));
    let p = nmul(Some(v), Some(cur)).unwrap();
    lemma_nmul_value(v, cur);
    lemma_mul_pos(v.1, cur.1);
    assert(rat_eq(mul_v(v, cur), mul_v(div_v(ri, kv), cur))) by {
        lemma_mul_congr(v, div_v(ri, kv), cur, cur);
    }
    lemma_rat_eq_trans(p, mul_v(v, cur), mul_v(div_v(ri, kv), cur));
    // positivity: every component of the ideal power is positive
    assert(mul_v(div_v(ri, kv), cur).0 >= 1 && mul_v(div_v(ri, kv), cur).1 >= 1)
        by (nonlinear_arith)
        requires
            s.0 >= 1,
            s.1 >= 1,
            g.0 >= 1,
            g.1 >= 1,
            c.0 >= 1,
            c.1 >= 1,
            kv.0 >= 1,
            kv.1 >= 1,
            cur.0 >= 1,
            cur.1 >= 1,
            ri == (((s.0 * g.0) * 60) * c.1, ((s.1 * g.1) * 1) * c.0),
            div_v(ri, kv) == (ri.0 * kv.1, ri.1 * kv.0),
            mul_v(div_v(ri, kv), cur) == ((ri.0 * kv.1) * cur.0, (ri.1 * kv.0) * cur.1),
    ;
    lemma_eq_sign(p, mul_v(div_v(ri, kv), cur));
}

} // verus!