//! The general laws of the model, stated over the ideal rational values and
//! proved once and for all: the wheel and motor conversions are mutual
//! inverses, the speed/voltage relationship is linear through the origin, and
//! the power-to-speed query is monotone up to the voltage clamp and constant
//! beyond it.

use crate::motor::Motor;
use crate::rat::{
    div_v, lemma_le_congr, lemma_le_scale, lemma_mul_pos, lemma_ndiv_value, lemma_nmul_value,
    lemma_rat_eq_trans, lemma_rat_le_trans, mul_v, ndiv, nmul, rat_eq, rat_le,
};
use crate::rover::Rover;
use crate::wheel::Wheel;
use vstd::prelude::*;

verus! {

/// Converting a ground speed to motor RPM and back yields the same speed:
/// the two wheel conversions are exact inverses.
pub proof fn lemma_wheel_round_trip(w: Wheel, s: (int, int))
    requires
        w.valid(),
        s.1 >= 1,
    ensures
        rat_eq(w.speed_of_rpm_v(w.rpm_of_speed_v(s)), s),
{
    let g = w.gear_v();
    let c = w.circumference_v();
    crate::wheel::lemma_circumference_pos(w);
    let r = w.rpm_of_speed_v(s);
    let out = w.speed_of_rpm_v(r);
    assert(r == (((s.0 * g.0) * 60) * c.1, ((s.1 * g.1) * 1) * c.0));
    assert(out == (((r.0 * g.1) * c.0) * 1, ((r.1 * g.0) * c.1) * 60));
    assert(out.0 == ((((s.0 * g.0) * 60) * c.1) * g.1) * c.0) by {
        assert(out.0 == ((r.0 * g.1) * c.0) * 1);
    }
    assert(r.1 == (s.1 * g.1) * c.0) by {
        assert((s.1 * g.1) * 1 == s.1 * g.1);
    }
    assert(out.1 == ((((s.1 * g.1) * c.0) * g.0) * c.1) * 60);
    assert(out.0 * s.1 == s.0 * out.1) by (nonlinear_arith)
        requires
            out.0 == ((((s.0 * g.0) * 60) * c.1) * g.1) * c.0,
            out.1 == ((((s.1 * g.1) * c.0) * g.0) * c.1) * 60,
    ;
}

/// Converting a voltage to a ground speed and back yields the same voltage:
/// the two motor conversions are exact inverses.
pub proof fn lemma_motor_round_trip(m: Motor, v: (int, int))
    requires
        m.wf(),
    ensures
        rat_eq(m.volts_of_speed_v(m.speed_of_volts_v(v)), v),
{
    let rt = m.ratio_v();
    let sp = m.speed_of_volts_v(v);
    let out = m.volts_of_speed_v(sp);
    assert(sp == (v.0 * rt.0, v.1 * rt.1));
    assert(out == ((v.0 * rt.0) * rt.1, (v.1 * rt.1) * rt.0));
    assert(out.0 * v.1 == v.0 * out.1) by (nonlinear_arith)
        requires
            out == ((v.0 * rt.0) * rt.1, (v.1 * rt.1) * rt.0),
    ;
}

/// The speed of a motor is linear and odd in the driving voltage, through
/// the origin: zero voltage gives zero speed and doubling the voltage
/// doubles the speed.
pub proof fn lemma_ground_speed_linear(m: Motor, v: (int, int))
    requires
        m.wf(),
    ensures
        rat_eq(m.speed_of_volts_v((0int, 1int)), (0int, 1int)),
        rat_eq(
            m.speed_of_volts_v(mul_v((2int, 1int), v)),
            mul_v((2int, 1int), m.speed_of_volts_v(v)),
        ),
{
    let rt = m.ratio_v();
    assert(m.speed_of_volts_v((0int, 1int)) == (0int * rt.0, 1int * rt.1));
    assert(rat_eq(m.speed_of_volts_v((0int, 1int)), (0int, 1int))) by (nonlinear_arith)
        requires
            m.speed_of_volts_v((0int, 1int)) == (0int * rt.0, 1int * rt.1),
    ;
    let a = m.speed_of_volts_v(mul_v((2int, 1int), v));
    let b = mul_v((2int, 1int), m.speed_of_volts_v(v));
    assert(a == ((2 * v.0) * rt.0, (1 * v.1) * rt.1));
    assert(b == (2 * (v.0 * rt.0), 1 * (v.1 * rt.1)));
    assert(a.0 * b.1 == b.0 * a.1) by (nonlinear_arith)
        requires
            a == ((2 * v.0) * rt.0, (1 * v.1) * rt.1),
            b == (2 * (v.0 * rt.0), 1 * (v.1 * rt.1)),
    ;
}

/// The speed sustainable from a power budget never decreases as the budget
/// grows, and once the budget is large enough to engage the voltage clamp the
/// speed stays exactly constant.
pub proof fn lemma_power_to_speed_monotone(r: Rover, p1: (int, int), p2: (int, int))
    requires
        r.wf(),
        p1.1 >= 1,
        p2.1 >= 1,
        rat_le((0int, 1int), p1),
        rat_le(p1, p2),
        r.power_to_speed_checked(p1) is Some,
        r.power_to_speed_checked(p2) is Some,
    ensures
        rat_le(r.power_to_speed_checked(p1).unwrap(), r.power_to_speed_checked(p2).unwrap()),
        !rat_le(
            div_v(mul_v(r.limiting().fixed_v(), p1), r.limiting().cur_v()),
            r.batteries_s()[0].max_voltage_v(),
        ) ==> r.power_to_speed_checked(p1).unwrap() == r.power_to_speed_checked(p2).unwrap(),
{
    let m = r.limiting();
    assert(r.motors_s()[r.limiting_i()].wf());
    assert(r.batteries_s()[0].valid());
    let f = m.fixed_v();
    let cur = m.cur_v();
    let rt = m.ratio_v();
    let maxv = r.batteries_s()[0].max_voltage_v();
    let t1 = nmul(Some(f), Some(p1)).unwrap();
    let t2 = nmul(Some(f), Some(p2)).unwrap();
    lemma_nmul_value(f, p1);
    lemma_nmul_value(f, p2);
    let v1 = ndiv(Some(t1), Some(cur)).unwrap();
    let v2 = ndiv(Some(t2), Some(cur)).unwrap();
    lemma_ndiv_value(t1, cur);
    lemma_ndiv_value(t2, cur);
    let q1 = div_v(mul_v(f, p1), cur);
    let q2 = div_v(mul_v(f, p2), cur);
    lemma_mul_pos(f.1, p1.1);
    lemma_mul_pos(f.1, p2.1);
    lemma_mul_pos(f.1 * p1.1, cur.0);
    lemma_mul_pos(f.1 * p2.1, cur.0);
    lemma_mul_pos(t1.1, cur.0);
    lemma_mul_pos(t2.1, cur.0);
    // the checked voltages carry the ideal values
    assert(rat_eq(v1, q1)) by {
        crate::rat::lemma_div_congr(t1, mul_v(f, p1), cur, cur);
        lemma_rat_eq_trans(v1, div_v(t1, cur), q1);
    }
    assert(rat_eq(v2, q2)) by {
        crate::rat::lemma_div_congr(t2, mul_v(f, p2), cur, cur);
        lemma_rat_eq_trans(v2, div_v(t2, cur), q2);
    }
    // the ideal voltage is monotone in the budget
    assert(rat_le(q1, q2)) by (nonlinear_arith)
        requires
            p1.0 * p2.1 <= p2.0 * p1.1,
            f.0 >= 1,
            f.1 >= 1,
            cur.0 >= 1,
            cur.1 >= 1,
            q1 == ((f.0 * p1.0) * cur.1, (f.1 * p1.1) * cur.0),
            q2 == ((f.0 * p2.0) * cur.1, (f.1 * p2.1) * cur.0),
    ;
    lemma_le_congr(q1, v1, q2, v2);
    let vv1 = if rat_le(v1, maxv) {
        v1
    } else {
        maxv
    };
    let vv2 = if rat_le(v2, maxv) {
        v2
    } else {
        maxv
    };
    let o1 = nmul(Some(vv1), Some(rt)).unwrap();
    let o2 = nmul(Some(vv2), Some(rt)).unwrap();
    lemma_nmul_value(vv1, rt);
    lemma_nmul_value(vv2, rt);
    lemma_mul_pos(vv1.1, rt.1);
    lemma_mul_pos(vv2.1, rt.1);
    if rat_le(v1, maxv) && rat_le(v2, maxv) {
        lemma_le_scale(v1, v2, rt);
        lemma_le_congr(mul_v(v1, rt), o1, mul_v(v2, rt), o2);
    } else if rat_le(v1, maxv) && !rat_le(v2, maxv) {
        lemma_le_scale(v1, maxv, rt);
        lemma_le_congr(mul_v(v1, rt), o1, mul_v(maxv, rt), o2);
    } else if !rat_le(v1, maxv) && rat_le(v2, maxv) {
        lemma_rat_le_trans(v1, v2, maxv);
        assert(false);
    } else {
        lemma_le_scale(maxv, maxv, rt);
        lemma_le_congr(mul_v(maxv, rt), o1, mul_v(maxv, rt), o2);
    }
    // once the ideal voltage for the smaller budget exceeds the clamp, both
    // budgets drive the bus at its maximum voltage
    if !rat_le(q1, maxv) {
        lemma_le_congr(q1, v1, maxv, maxv);
        lemma_le_congr(q2, v2, maxv, maxv);
        if rat_le(q2, maxv) {
            lemma_rat_le_trans(q1, q2, maxv);
        }
        assert(!rat_le(v1, maxv) && !rat_le(v2, maxv));
    }
}

} // verus!