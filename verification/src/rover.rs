//! The rover aggregate: a calibrated motor fleet, batteries, solar panels and
//! the designated limiting motor, built in two passes from raw descriptions.
//!
//! Pass one sums every motor's power draw at the reference ground speed; pass
//! two gives each motor its share of that total and calibrates it; finally the
//! motor needing the highest voltage to reach the reference speed is selected
//! as the limiting motor, since it saturates the shared voltage bus first.

use crate::battery::Battery;
use crate::motor::{
    lemma_calib_pos, lemma_power_pos, ref_speed, ref_speed_v, Motor, MotorBuilder, MotorCommand,
};
use crate::rat::{
    add_v, div_v, fits, lemma_add_congr, lemma_div_add_same, lemma_div_congr, lemma_div_self_one,
    lemma_eq_sign, lemma_le_lt_trans, lemma_mul_pos, lemma_nadd_value, lemma_ndiv_value,
    lemma_norm, lemma_rat_eq_trans, lift_matches, nadd, ndiv, nmul, norm, rat_eq,
    rat_le, rat_lt, Rat,
};
use crate::solar::SolarPanel;
use crate::wheel::rat_const;
use vstd::prelude::*;

verus! {

/// Why a rover could not be built from its configuration.
#[derive(Clone, Copy, Debug, PartialEq, Eq, Structural)]
pub enum ConfigError {
    /// The motor list is empty.
    EmptyMotors,
    /// The battery list is empty.
    EmptyBatteries,
    /// A motor or battery description is not physically meaningful.
    InvalidDescription,
    /// A checked rational computation failed while calibrating the fleet.
    Overflow,
}

/// Checked total fleet power at the reference speed, folded left to right.
pub open spec fn total_power_checked(ms: Seq<MotorBuilder>) -> Option<(int, int)>
    decreases ms.len(),
{
    if ms.len() == 0 {
        Some((0int, 1int))
    } else {
        nadd(total_power_checked(ms.drop_last()), ms.last().power_checked(ref_speed_v()))
    }
}

/// Exact total fleet power at the reference speed, over the checked per-motor
/// powers; meaningful when `total_power_checked` succeeds.
pub open spec fn powers_sum_v(ms: Seq<MotorBuilder>) -> (int, int)
    decreases ms.len(),
{
    if ms.len() == 0 {
        (0int, 1int)
    } else {
        add_v(powers_sum_v(ms.drop_last()), ms.last().power_checked(ref_speed_v()).unwrap())
    }
}

/// Checked power share of one motor: its reference power over the total.
pub open spec fn ratio_checked(mb: MotorBuilder, total: (int, int)) -> Option<(int, int)> {
    ndiv(mb.power_checked(ref_speed_v()), Some(total))
}

/// Checked voltage a calibrated motor needs for the reference speed.
pub open spec fn ref_volts_checked(m: Motor) -> Option<(int, int)> {
    m.volts_checked(ref_speed_v())
}

/// The calibrated motor `m` is what `mb` builds to under the given total.
pub open spec fn motor_built_from(m: Motor, mb: MotorBuilder, total: (int, int)) -> bool {
    &&& m.name_v() == mb.name_v()
    &&& m.kv_v() == mb.kv_v()
    &&& m.cur_v() == mb.cur_v()
    &&& m.wheel_w() == mb.wheel_w()
    &&& mb.calib_checked() is Some
    &&& m.ratio_v() == mb.calib_checked().unwrap()
    &&& ratio_checked(mb, total) is Some
    &&& m.fixed_v() == ratio_checked(mb, total).unwrap()
}

/// The share and the calibration of motor `i` both succeed.
pub open spec fn calib_ok_at(ms: Seq<MotorBuilder>, total: (int, int), i: int) -> bool {
    &&& ratio_checked(ms[i], total) is Some
    &&& ms[i].calib_checked() is Some
}

/// Every motor's share and calibration succeed.
pub open spec fn calib_all_ok(ms: Seq<MotorBuilder>, total: (int, int)) -> bool {
    forall|i: int| 0 <= i < ms.len() ==> #[trigger] calib_ok_at(ms, total, i)
}

/// The reference voltage of the motor calibrated from `ms[i]` succeeds.
pub open spec fn refv_ok_at(ms: Seq<MotorBuilder>, i: int) -> bool {
    ndiv(Some(ref_speed_v()), Some(ms[i].calib_checked().unwrap())) is Some
}

/// Every checked computation of the two-pass construction succeeds.
pub open spec fn build_arith_ok(ms: Seq<MotorBuilder>) -> bool {
    &&& total_power_checked(ms) is Some
    &&& total_power_checked(ms).unwrap().0 != 0
    &&& calib_all_ok(ms, total_power_checked(ms).unwrap())
    &&& forall|i: int| 0 <= i < ms.len() ==> #[trigger] refv_ok_at(ms, i)
}

/// Exact sum of the fleet's fixed-speed power ratios.
pub open spec fn fixed_sum_v(ms: Seq<Motor>) -> (int, int)
    decreases ms.len(),
{
    if ms.len() == 0 {
        (0int, 1int)
    } else {
        add_v(fixed_sum_v(ms.drop_last()), ms.last().fixed_v())
    }
}

/// A failed prefix makes the whole checked total fail.
proof fn lemma_total_none_from(ms: Seq<MotorBuilder>, i: int)
    requires
        0 <= i <= ms.len(),
        total_power_checked(ms.take(i)) is None,
    ensures
        total_power_checked(ms) is None,
    decreases ms.len() - i,
{
    if i == ms.len() {
        assert(ms.take(i) =~= ms);
    } else {
        assert(ms.take(i + 1).drop_last() =~= ms.take(i));
        lemma_total_none_from(ms, i + 1);
    }
}

/// A successful checked total is the exact sum of the per-motor powers.
proof fn lemma_total_value(ms: Seq<MotorBuilder>)
    requires
        total_power_checked(ms) is Some,
    ensures
        rat_eq(total_power_checked(ms).unwrap(), powers_sum_v(ms)),
        total_power_checked(ms).unwrap().1 >= 1,
        powers_sum_v(ms).1 >= 1,
        forall|i: int|
            0 <= i < ms.len() ==> (#[trigger] ms[i]).power_checked(ref_speed_v()) is Some,
    decreases ms.len(),
{
    if ms.len() == 0 {
    } else {
        let prefix = ms.drop_last();
        let tp = total_power_checked(prefix).unwrap();
        let p = ms.last().power_checked(ref_speed_v()).unwrap();
        lemma_total_value(prefix);
        lemma_nadd_value(tp, p);
        lemma_mul_pos(powers_sum_v(prefix).1, p.1);
        lemma_mul_pos(tp.1, p.1);
        lemma_add_congr(tp, powers_sum_v(prefix), p, p);
        lemma_rat_eq_trans(
            total_power_checked(ms).unwrap(),
            add_v(tp, p),
            add_v(powers_sum_v(prefix), p),
        );
        assert(forall|i: int|
            0 <= i < ms.len() ==> (#[trigger] ms[i]).power_checked(ref_speed_v()) is Some) by {
            assert(forall|i: int| 0 <= i < prefix.len() ==> prefix[i] == ms[i]);
        }
    }
}

/// With every description valid, the checked total is strictly positive for a
/// nonempty fleet.
proof fn lemma_total_pos(ms: Seq<MotorBuilder>)
    requires
        total_power_checked(ms) is Some,
        forall|i: int| 0 <= i < ms.len() ==> (#[trigger] ms[i]).valid(),
    ensures
        total_power_checked(ms).unwrap().0 >= 0,
        total_power_checked(ms).unwrap().1 >= 1,
        ms.len() >= 1 ==> total_power_checked(ms).unwrap().0 >= 1,
    decreases ms.len(),
{
    if ms.len() == 0 {
    } else {
        let prefix = ms.drop_last();
        let tp = total_power_checked(prefix).unwrap();
        let p = ms.last().power_checked(ref_speed_v()).unwrap();
        assert(forall|i: int| 0 <= i < prefix.len() ==> prefix[i] == ms[i]);
        lemma_total_pos(prefix);
        lemma_power_pos(ms.last(), ref_speed_v());
        let s = add_v(tp, p);
        assert(s.0 >= 1 && s.1 >= 1) by (nonlinear_arith)
            requires
                tp.0 >= 0,
                tp.1 >= 1,
                p.0 >= 1,
                p.1 >= 1,
                s == (tp.0 * p.1 + p.0 * tp.1, tp.1 * p.1),
        ;
        lemma_norm(s);
    }
}

/// Motor `i` of the built fleet carries its description's power share.
pub open spec fn share_assigned(
    mbs: Seq<MotorBuilder>,
    built: Seq<Motor>,
    total: (int, int),
    i: int,
) -> bool {
    &&& ratio_checked(mbs[i], total) is Some
    &&& built[i].fixed_v() == ratio_checked(mbs[i], total).unwrap()
}

/// The sum of the built fleet's power shares is the summed power over the
/// common total.
proof fn lemma_fixed_sum(mbs: Seq<MotorBuilder>, built: Seq<Motor>, total: (int, int))
    requires
        built.len() == mbs.len(),
        total.0 >= 1,
        total.1 >= 1,
        forall|i: int| 0 <= i < mbs.len() ==> #[trigger] share_assigned(mbs, built, total, i),
    ensures
        rat_eq(fixed_sum_v(built), div_v(powers_sum_v(mbs), total)),
        fixed_sum_v(built).1 >= 1,
        powers_sum_v(mbs).1 >= 1,
    decreases mbs.len(),
{
    if mbs.len() == 0 {
        assert(fixed_sum_v(built) == (0int, 1int));
        assert(powers_sum_v(mbs) == (0int, 1int));
        assert(div_v(powers_sum_v(mbs), total) == (0int * total.1, 1int * total.0));
        assert(rat_eq(fixed_sum_v(built), div_v(powers_sum_v(mbs), total))) by (nonlinear_arith)
            requires
                fixed_sum_v(built) == (0int, 1int),
                div_v(powers_sum_v(mbs), total) == (0int * total.1, 1int * total.0),
        ;
    } else {
        let mpre = mbs.drop_last();
        let bpre = built.drop_last();
        assert forall|i: int| 0 <= i < mpre.len() implies #[trigger] share_assigned(
            mpre,
            bpre,
            total,
            i,
        ) by {
            assert(share_assigned(mbs, built, total, i));
            assert(mpre[i] == mbs[i]);
            assert(bpre[i] == built[i]);
        }
        lemma_fixed_sum(mpre, bpre, total);
        assert(share_assigned(mbs, built, total, mbs.len() - 1));
        let p = mbs.last().power_checked(ref_speed_v()).unwrap();
        let f = built.last().fixed_v();
        assert(mbs.last().power_checked(ref_speed_v()) == Some(p));
        assert(ratio_checked(mbs.last(), total) == ndiv(Some(p), Some(total)));
        assert(f == ndiv(Some(p), Some(total)).unwrap());
        assert(fits(p));
        assert(fits(f));
        lemma_ndiv_value(p, total);
        assert(rat_eq(f, div_v(p, total)));
        let spre = powers_sum_v(mpre);
        assert(powers_sum_v(mbs) == add_v(spre, p));
        assert(fixed_sum_v(built) == add_v(fixed_sum_v(bpre), f));
        lemma_mul_pos(spre.1, total.0);
        lemma_mul_pos(p.1, total.0);
        lemma_mul_pos(spre.1, p.1);
        lemma_mul_pos(spre.1 * total.0, p.1 * total.0);
        lemma_mul_pos(spre.1 * p.1, total.0);
        lemma_mul_pos(fixed_sum_v(bpre).1, f.1);
        lemma_add_congr(fixed_sum_v(bpre), div_v(spre, total), f, div_v(p, total));
        lemma_div_add_same(spre, p, total);
        lemma_rat_eq_trans(
            fixed_sum_v(built),
            add_v(div_v(spre, total), div_v(p, total)),
            div_v(add_v(spre, p), total),
        );
        assert(rat_eq(fixed_sum_v(built), div_v(add_v(spre, p), total)));
        assert(div_v(add_v(spre, p), total) == div_v(powers_sum_v(mbs), total));
    }
}

/// The immutable rover aggregate.
pub struct Rover {
    motors: Vec<Motor>,
    batteries: Vec<Battery>,
    solar_panels: Vec<SolarPanel>,
    limiting_motor: usize,
}

impl Rover {
    /// The calibrated fleet, in input order.
    pub closed spec fn motors_s(self) -> Seq<Motor> {
        self.motors@
    }

    /// The batteries, in input order.
    pub closed spec fn batteries_s(self) -> Seq<Battery> {
        self.batteries@
    }

    /// The solar panels, in input order.
    pub closed spec fn panels_s(self) -> Seq<SolarPanel> {
        self.solar_panels@
    }

    /// Index of the limiting motor in the fleet.
    pub closed spec fn limiting_i(self) -> int {
        self.limiting_motor as int
    }

    /// The limiting motor.
    pub open spec fn limiting(self) -> Motor {
        self.motors_s()[self.limiting_i()]
    }

    /// Well-formedness established by `RoverBuilder::build`: a nonempty fleet
    /// of well-formed motors, at least one valid battery, well-formed panels,
    /// and a limiting index inside the fleet.
    pub open spec fn wf(self) -> bool {
        &&& 1 <= self.motors_s().len()
        &&& forall|i: int| 0 <= i < self.motors_s().len() ==> (#[trigger] self.motors_s()[i]).wf()
        &&& 1 <= self.batteries_s().len()
        &&& forall|i: int|
            0 <= i < self.batteries_s().len() ==> (#[trigger] self.batteries_s()[i]).valid()
        &&& forall|i: int|
            0 <= i < self.panels_s().len() ==> (#[trigger] self.panels_s()[i]).rats_wf()
        &&& 0 <= self.limiting_i() < self.motors_s().len()
    }
}

/// The raw rover configuration, consumed by `build`.
pub struct RoverBuilder {
    motors: Vec<MotorBuilder>,
    batteries: Vec<Battery>,
    solar_panels: Vec<SolarPanel>,
}

impl RoverBuilder {
    /// The raw motor descriptions.
    pub closed spec fn motors_s(self) -> Seq<MotorBuilder> {
        self.motors@
    }

    /// The batteries.
    pub closed spec fn batteries_s(self) -> Seq<Battery> {
        self.batteries@
    }

    /// The solar panels.
    pub closed spec fn panels_s(self) -> Seq<SolarPanel> {
        self.solar_panels@
    }

    /// Every stored rational is well-formed.
    pub open spec fn rats_wf(self) -> bool {
        &&& forall|i: int|
            0 <= i < self.motors_s().len() ==> (#[trigger] self.motors_s()[i]).rats_wf()
        &&& forall|i: int|
            0 <= i < self.batteries_s().len() ==> (#[trigger] self.batteries_s()[i]).rats_wf()
        &&& forall|i: int|
            0 <= i < self.panels_s().len() ==> (#[trigger] self.panels_s()[i]).rats_wf()
    }

    /// Every description is physically meaningful.
    pub open spec fn all_valid(self) -> bool {
        &&& forall|i: int|
            0 <= i < self.motors_s().len() ==> (#[trigger] self.motors_s()[i]).valid()
        &&& forall|i: int|
            0 <= i < self.batteries_s().len() ==> (#[trigger] self.batteries_s()[i]).valid()
    }

    /// Assembles a raw configuration.
    pub fn new(motors: Vec<MotorBuilder>, batteries: Vec<Battery>, solar_panels: Vec<SolarPanel>)
        -> (r: RoverBuilder)
        requires
            forall|i: int| 0 <= i < motors@.len() ==> (#[trigger] motors@[i]).rats_wf(),
            forall|i: int| 0 <= i < batteries@.len() ==> (#[trigger] batteries@[i]).rats_wf(),
            forall|i: int| 0 <= i < solar_panels@.len() ==> (#[trigger] solar_panels@[i]).rats_wf(),
        ensures
            r.motors_s() == motors@,
            r.batteries_s() == batteries@,
            r.panels_s() == solar_panels@,
            r.rats_wf(),
    {
        RoverBuilder { motors, batteries, solar_panels }
    }

    /// Builds the calibrated rover, validating the configuration eagerly and
    /// running the two-pass calibration.  Succeeds exactly on a nonempty,
    /// valid configuration whose checked arithmetic goes through.
    #[verifier::loop_isolation(false)]
    pub fn build(self) -> (r: Result<Rover, ConfigError>)
        requires
            self.rats_wf(),
        ensures
            r is Ok <==> self.motors_s().len() >= 1 && self.batteries_s().len() >= 1
                && self.all_valid() && build_arith_ok(self.motors_s()),
            match r {
                Result::Ok(rover) => {
                    let total = total_power_checked(self.motors_s()).unwrap();
                    &&& rover.wf()
                    &&& rover.motors_s().len() == self.motors_s().len()
                    &&& rover.batteries_s() == self.batteries_s()
                    &&& rover.panels_s() == self.panels_s()
                    &&& forall|i: int|
                        0 <= i < self.motors_s().len() ==> motor_built_from(
                            #[trigger] rover.motors_s()[i],
                            self.motors_s()[i],
                            total,
                        )
                    &&& forall|i: int|
                        0 <= i < rover.motors_s().len() ==> ref_volts_checked(
                            #[trigger] rover.motors_s()[i],
                        ) is Some
                    &&& forall|i: int|
                        0 <= i < rover.motors_s().len() ==> rat_le(
                            ref_volts_checked(#[trigger] rover.motors_s()[i]).unwrap(),
                            ref_volts_checked(rover.limiting()).unwrap(),
                        )
                    &&& forall|i: int|
                        0 <= i < rover.limiting_i() ==> rat_lt(
                            ref_volts_checked(#[trigger] rover.motors_s()[i]).unwrap(),
                            ref_volts_checked(rover.limiting()).unwrap(),
                        )
                    &&& rat_eq(fixed_sum_v(rover.motors_s()), (1int, 1int))
                },
                Result::Err(e) => {
                    &&& (e == ConfigError::EmptyMotors <==> self.motors_s().len() == 0)
                    &&& (e == ConfigError::EmptyBatteries <==> self.motors_s().len() >= 1
                        && self.batteries_s().len() == 0)
                    &&& (e == ConfigError::InvalidDescription <==> self.motors_s().len() >= 1
                        && self.batteries_s().len() >= 1 && !self.all_valid())
                    &&& (e == ConfigError::Overflow <==> self.motors_s().len() >= 1
                        && self.batteries_s().len() >= 1 && self.all_valid() && !build_arith_ok(
                        self.motors_s(),
                    ))
                },
            },
    {
        let ghost mbs = self.motors@;
        let n = self.motors.len();
        if n == 0 {
            return Err(ConfigError::EmptyMotors);
        }
        if self.batteries.len() == 0 {
            return Err(ConfigError::EmptyBatteries);
        }
        // eager validation of every description
        let mut i: usize = 0;
        while i < n
            invariant
                i <= n,
                forall|j: int| 0 <= j < i ==> (#[trigger] mbs[j]).valid(),
            decreases n - i,
        {
            assert(self.motors_s()[i as int].rats_wf());
            if !self.motors[i].check_valid() {
                return Err(ConfigError::InvalidDescription);
            }
            i = i + 1;
        }
        let mut i: usize = 0;
        while i < self.batteries.len()
            invariant
                i <= self.batteries.len(),
                forall|j: int| 0 <= j < i ==> (#[trigger] self.batteries@[j]).valid(),
            decreases self.batteries.len() - i,
        {
            assert(self.batteries_s()[i as int].rats_wf());
            if !self.batteries[i].check_valid() {
                return Err(ConfigError::InvalidDescription);
            }
            i = i + 1;
        }
        // pass one: total fleet power at the reference speed
        let total = match total_pass(&self.motors) {
            Some(t) => t,
            None => {
                return Err(ConfigError::Overflow);
            },
        };
        if total.is_zero() {
            return Err(ConfigError::Overflow);
        }
        proof {
            lemma_total_pos(mbs);
        }
        // pass two: give each motor its power share and calibrate it
        let built = match calibrate_pass(&self.motors, &total) {
            Some(b) => b,
            None => {
                return Err(ConfigError::Overflow);
            },
        };
        // select the limiting motor
        let lim = match select_limiting(&built) {
            Some(l) => l,
            None => {
                proof {
                    let i = choose|i: int|
                        0 <= i < built@.len() && !(#[trigger] volts_ok_at(built@, i));
                    assert(motor_built_from(built@[i], mbs[i], total@));
                    assert(!refv_ok_at(mbs, i));
                }
                return Err(ConfigError::Overflow);
            },
        };
        let rover = Rover {
            motors: built,
            batteries: self.batteries,
            solar_panels: self.solar_panels,
            limiting_motor: lim,
        };
        proof {
            assert(rover.motors_s() == built@);
            assert forall|i: int| 0 <= i < mbs.len() implies #[trigger] refv_ok_at(mbs, i) by {
                assert(motor_built_from(built@[i], mbs[i], total@));
                assert(volts_ok_at(built@, i));
            }
            assert forall|i: int| 0 <= i < rover.motors_s().len() implies motor_built_from(
                #[trigger] rover.motors_s()[i],
                self.motors_s()[i],
                total_power_checked(self.motors_s()).unwrap(),
            ) by {
                assert(motor_built_from(built@[i], mbs[i], total@));
            }
            assert forall|i: int| 0 <= i < rover.motors_s().len() implies (
            #[trigger] rover.motors_s()[i]).wf() by {
                assert(built@[i].wf());
            }
            assert forall|i: int|
                0 <= i < rover.batteries_s().len() implies (
            #[trigger] rover.batteries_s()[i]).valid() by {
                assert(self.batteries@[i].valid());
            }
            assert forall|i: int|
                0 <= i < rover.panels_s().len() implies (
            #[trigger] rover.panels_s()[i]).rats_wf() by {
                assert(self.panels_s()[i].rats_wf());
            }
            assert forall|i: int|
                0 <= i < rover.motors_s().len() implies ref_volts_checked(
                #[trigger] rover.motors_s()[i],
            ) is Some && rat_le(
                ref_volts_checked(rover.motors_s()[i]).unwrap(),
                ref_volts_checked(rover.limiting()).unwrap(),
            ) by {
                assert(volts_ok_at(built@, i));
                assert(rat_le(
                    ref_volts_checked(built@[i]).unwrap(),
                    ref_volts_checked(built@[lim as int]).unwrap(),
                ));
            }
            assert forall|i: int| 0 <= i < rover.limiting_i() implies rat_lt(
                ref_volts_checked(#[trigger] rover.motors_s()[i]).unwrap(),
                ref_volts_checked(rover.limiting()).unwrap(),
            ) by {
                assert(rat_lt(
                    ref_volts_checked(built@[i]).unwrap(),
                    ref_volts_checked(built@[lim as int]).unwrap(),
                ));
            }
            lemma_fixed_sum_entry(mbs, rover.motors_s(), total@);
        }
        Ok(rover)
    }
}

/// Pass one of the construction: checked total power at the reference speed.
#[verifier::loop_isolation(false)]
fn total_pass(motors: &Vec<MotorBuilder>) -> (r: Option<Rat>)
    requires
        forall|i: int| 0 <= i < motors@.len() ==> (#[trigger] motors@[i]).rats_wf(),
    ensures
        lift_matches(r, total_power_checked(motors@)),
{
    let rs = ref_speed();
    let mut total = rat_const(0, 1);
    let mut i: usize = 0;
    while i < motors.len()
        invariant
            i <= motors@.len(),
            total.wf(),
            total_power_checked(motors@.take(i as int)) == Some(total@),
        decreases motors@.len() - i,
    {
        proof {
            assert(motors@.take(i + 1).drop_last() =~= motors@.take(i as int));
            assert(motors@.take(i + 1).last() == motors@[i as int]);
        }
        let p = match motors[i].power_at_ground_speed(&rs) {
            Some(p) => p,
            None => {
                proof {
                    lemma_total_none_from(motors@, i + 1);
                }
                return None;
            },
        };
        total = match total.checked_add(&p) {
            Some(t) => t,
            None => {
                proof {
                    lemma_total_none_from(motors@, i + 1);
                }
                return None;
            },
        };
        i = i + 1;
    }
    proof {
        assert(motors@.take(motors@.len() as int) =~= motors@);
    }
    Some(total)
}

/// Pass two of the construction: power shares and per-motor calibration.
#[verifier::loop_isolation(false)]
fn calibrate_pass(motors: &Vec<MotorBuilder>, total: &Rat) -> (r: Option<Vec<Motor>>)
    requires
        forall|i: int| 0 <= i < motors@.len() ==> (#[trigger] motors@[i]).valid(),
        total.wf(),
        total@.0 >= 1,
    ensures
        r is Some <==> calib_all_ok(motors@, total@),
        match r {
            Option::Some(b) => {
                &&& b@.len() == motors@.len()
                &&& forall|i: int|
                    0 <= i < motors@.len() ==> motor_built_from(
                        #[trigger] b@[i],
                        motors@[i],
                        total@,
                    )
                &&& forall|i: int| 0 <= i < b@.len() ==> (#[trigger] b@[i]).wf()
            },
            Option::None => true,
        },
{
    let rs = ref_speed();
    let mut built: Vec<Motor> = Vec::new();
    let mut i: usize = 0;
    while i < motors.len()
        invariant
            i <= motors@.len(),
            built@.len() == i,
            forall|j: int|
                0 <= j < i ==> motor_built_from(#[trigger] built@[j], motors@[j], total@),
            forall|j: int| 0 <= j < i ==> (#[trigger] built@[j]).wf(),
        decreases motors@.len() - i,
    {
        let p = match motors[i].power_at_ground_speed(&rs) {
            Some(p) => p,
            None => {
                assert(!calib_ok_at(motors@, total@, i as int));
                return None;
            },
        };
        let ratio = match p.checked_div(&total) {
            Some(v) => v,
            None => {
                assert(!calib_ok_at(motors@, total@, i as int));
                return None;
            },
        };
        let m = match motors[i].build(ratio) {
            Some(m) => m,
            None => {
                assert(!calib_ok_at(motors@, total@, i as int));
                return None;
            },
        };
        proof {
            lemma_calib_pos(motors@[i as int]);
            lemma_power_pos(motors@[i as int], ref_speed_v());
            lemma_ndiv_value(p@, total@);
            assert(div_v(p@, total@).0 >= 1 && div_v(p@, total@).1 >= 1) by (nonlinear_arith)
                requires
                    p@.0 >= 1,
                    p@.1 >= 1,
                    total@.0 >= 1,
                    total@.1 >= 1,
                    div_v(p@, total@) == (p@.0 * total@.1, p@.1 * total@.0),
            ;
            lemma_eq_sign(ratio@, div_v(p@, total@));
            assert(m.wf());
        }
        built.push(m);
        i = i + 1;
    }
    assert forall|i: int| 0 <= i < motors@.len() implies #[trigger] calib_ok_at(
        motors@,
        total@,
        i,
    ) by {
        assert(motor_built_from(built@[i], motors@[i], total@));
    }
    Some(built)
}

/// The reference voltage of fleet member `i` is computable.
pub open spec fn volts_ok_at(ms: Seq<Motor>, i: int) -> bool {
    ref_volts_checked(ms[i]) is Some
}

/// Selects the limiting motor: the one needing the highest voltage for the
/// reference speed, earliest index on ties.
#[verifier::loop_isolation(false)]
fn select_limiting(built: &Vec<Motor>) -> (r: Option<usize>)
    requires
        built@.len() >= 1,
        forall|i: int| 0 <= i < built@.len() ==> (#[trigger] built@[i]).wf(),
    ensures
        r is Some <==> forall|i: int| 0 <= i < built@.len() ==> #[trigger] volts_ok_at(built@, i),
        match r {
            Option::Some(lim) => {
                &&& (lim as int) < built@.len()
                &&& forall|i: int|
                    0 <= i < built@.len() ==> rat_le(
                        ref_volts_checked(#[trigger] built@[i]).unwrap(),
                        ref_volts_checked(built@[lim as int]).unwrap(),
                    )
                &&& forall|i: int|
                    0 <= i < lim as int ==> rat_lt(
                        ref_volts_checked(#[trigger] built@[i]).unwrap(),
                        ref_volts_checked(built@[lim as int]).unwrap(),
                    )
            },
            Option::None => true,
        },
{
    let rs = ref_speed();
    let mut lim: usize = 0;
    let mut v_lim = match built[0].ground_speed_to_voltage(&rs) {
        Some(v) => v,
        None => {
            assert(!volts_ok_at(built@, 0));
            return None;
        },
    };
    let mut j: usize = 1;
    while j < built.len()
        invariant
            1 <= j <= built@.len(),
            (lim as int) < j,
            v_lim.wf(),
            ref_volts_checked(built@[lim as int]) == Some(v_lim@),
            forall|k: int| 0 <= k < j ==> #[trigger] volts_ok_at(built@, k),
            forall|k: int|
                0 <= k < j ==> rat_le(ref_volts_checked(#[trigger] built@[k]).unwrap(), v_lim@),
            forall|k: int|
                0 <= k < lim as int ==> rat_lt(
                    ref_volts_checked(#[trigger] built@[k]).unwrap(),
                    v_lim@,
                ),
        decreases built@.len() - j,
    {
        let v = match built[j].ground_speed_to_voltage(&rs) {
            Some(v) => v,
            None => {
                assert(!volts_ok_at(built@, j as int));
                return None;
            },
        };
        if !v.le(&v_lim) {
            proof {
                assert forall|k: int| 0 <= k < j implies rat_lt(
                    ref_volts_checked(#[trigger] built@[k]).unwrap(),
                    v@,
                ) by {
                    let m = built@[k];
                    let vk = ref_volts_checked(m).unwrap();
                    assert(volts_ok_at(built@, k));
                    assert(ndiv(Some(ref_speed_v()), Some(m.ratio_v())) is Some);
                    assert(m.ratio_v().0 != 0);
                    assert(fits(norm(div_v(ref_speed_v(), m.ratio_v()))));
                    assert(vk == norm(div_v(ref_speed_v(), m.ratio_v())));
                    lemma_le_lt_trans(vk, v_lim@, v@);
                }
            }
            lim = j;
            v_lim = v;
        }
        j = j + 1;
    }
    Some(lim)
}

/// Ties the fleet's power-share sum to one: the shares are the per-motor
/// powers over their own total.
proof fn lemma_fixed_sum_entry(mbs: Seq<MotorBuilder>, built: Seq<Motor>, total: (int, int))
    requires
        built.len() == mbs.len(),
        mbs.len() >= 1,
        total_power_checked(mbs) == Some(total),
        total.0 >= 1,
        total.1 >= 1,
        forall|i: int| 0 <= i < mbs.len() ==> motor_built_from(#[trigger] built[i], mbs[i], total),
    ensures
        rat_eq(fixed_sum_v(built), (1int, 1int)),
{
    assert forall|i: int| 0 <= i < mbs.len() implies #[trigger] share_assigned(
        mbs,
        built,
        total,
        i,
    ) by {
        assert(motor_built_from(built[i], mbs[i], total));
    }
    lemma_fixed_sum(mbs, built, total);
    lemma_total_value(mbs);
    let psum = powers_sum_v(mbs);
    lemma_div_congr(psum, total, total, total);
    lemma_div_self_one(total);
    lemma_mul_pos(psum.1, total.0);
    lemma_mul_pos(total.1, total.0);
    lemma_rat_eq_trans(fixed_sum_v(built), div_v(psum, total), div_v(total, total));
    lemma_rat_eq_trans(fixed_sum_v(built), div_v(total, total), (1int, 1int));
}

/// Checked total battery capacity, folded left to right.
pub open spec fn total_capacity_checked(bs: Seq<Battery>) -> Option<(int, int)>
    decreases bs.len(),
{
    if bs.len() == 0 {
        Some((0int, 1int))
    } else {
        nadd(total_capacity_checked(bs.drop_last()), Some(bs.last().capacity_v()))
    }
}

/// Checked total panel power per unit irradiance, folded left to right.
pub open spec fn total_ppi_checked(ps: Seq<SolarPanel>) -> Option<(int, int)>
    decreases ps.len(),
{
    if ps.len() == 0 {
        Some((0int, 1int))
    } else {
        nadd(total_ppi_checked(ps.drop_last()), ps.last().ppi_checked())
    }
}

/// Checked total panel power under irradiance `irr`, folded left to right.
pub open spec fn panel_power_checked(ps: Seq<SolarPanel>, irr: (int, int)) -> Option<(int, int)>
    decreases ps.len(),
{
    if ps.len() == 0 {
        Some((0int, 1int))
    } else {
        nadd(panel_power_checked(ps.drop_last(), irr), ps.last().power_output_checked(irr))
    }
}

/// Checked total fleet power to sustain ground speed `sp`, folded left to
/// right.
pub open spec fn fleet_power_checked(ms: Seq<Motor>, sp: (int, int)) -> Option<(int, int)>
    decreases ms.len(),
{
    if ms.len() == 0 {
        Some((0int, 1int))
    } else {
        nadd(fleet_power_checked(ms.drop_last(), sp), ms.last().power_checked(sp))
    }
}

/// Sums the fleet's power draw at ground speed `speed`.
#[verifier::loop_isolation(false)]
fn fleet_power_sum(motors: &Vec<Motor>, speed: &Rat) -> (r: Option<Rat>)
    requires
        forall|i: int| 0 <= i < motors@.len() ==> (#[trigger] motors@[i]).wf(),
        speed.wf(),
    ensures
        lift_matches(r, fleet_power_checked(motors@, speed@)),
{
    let mut acc = rat_const(0, 1);
    let mut i: usize = 0;
    while i < motors.len()
        invariant
            i <= motors@.len(),
            acc.wf(),
            fleet_power_checked(motors@.take(i as int), speed@) == Some(acc@),
        decreases motors@.len() - i,
    {
        proof {
            assert(motors@.take(i + 1).drop_last() =~= motors@.take(i as int));
            assert(motors@.take(i + 1).last() == motors@[i as int]);
        }
        let p = match motors[i].ground_speed_to_power(speed) {
            Some(p) => p,
            None => {
                proof {
                    lemma_fleet_power_none_from(motors@, speed@, i + 1);
                }
                return None;
            },
        };
        acc = match acc.checked_add(&p) {
            Some(t) => t,
            None => {
                proof {
                    lemma_fleet_power_none_from(motors@, speed@, i + 1);
                }
                return None;
            },
        };
        i = i + 1;
    }
    proof {
        assert(motors@.take(motors@.len() as int) =~= motors@);
    }
    Some(acc)
}

/// A failed prefix makes the whole checked fleet power fail.
proof fn lemma_fleet_power_none_from(ms: Seq<Motor>, sp: (int, int), i: int)
    requires
        0 <= i <= ms.len(),
        fleet_power_checked(ms.take(i), sp) is None,
    ensures
        fleet_power_checked(ms, sp) is None,
    decreases ms.len() - i,
{
    if i == ms.len() {
        assert(ms.take(i) =~= ms);
    } else {
        assert(ms.take(i + 1).drop_last() =~= ms.take(i));
        lemma_fleet_power_none_from(ms, sp, i + 1);
    }
}

/// A failed prefix makes the whole checked capacity total fail.
proof fn lemma_capacity_none_from(bs: Seq<Battery>, i: int)
    requires
        0 <= i <= bs.len(),
        total_capacity_checked(bs.take(i)) is None,
    ensures
        total_capacity_checked(bs) is None,
    decreases bs.len() - i,
{
    if i == bs.len() {
        assert(bs.take(i) =~= bs);
    } else {
        assert(bs.take(i + 1).drop_last() =~= bs.take(i));
        lemma_capacity_none_from(bs, i + 1);
    }
}

/// A failed prefix makes the whole checked panel total fail.
proof fn lemma_ppi_none_from(ps: Seq<SolarPanel>, i: int)
    requires
        0 <= i <= ps.len(),
        total_ppi_checked(ps.take(i)) is None,
    ensures
        total_ppi_checked(ps) is None,
    decreases ps.len() - i,
{
    if i == ps.len() {
        assert(ps.take(i) =~= ps);
    } else {
        assert(ps.take(i + 1).drop_last() =~= ps.take(i));
        lemma_ppi_none_from(ps, i + 1);
    }
}

/// A failed prefix makes the whole checked panel power fail.
proof fn lemma_panel_power_none_from(ps: Seq<SolarPanel>, irr: (int, int), i: int)
    requires
        0 <= i <= ps.len(),
        panel_power_checked(ps.take(i), irr) is None,
    ensures
        panel_power_checked(ps, irr) is None,
    decreases ps.len() - i,
{
    if i == ps.len() {
        assert(ps.take(i) =~= ps);
    } else {
        assert(ps.take(i + 1).drop_last() =~= ps.take(i));
        lemma_panel_power_none_from(ps, irr, i + 1);
    }
}

/// A voltage command for fleet member `j` matches the checked conversion.
pub open spec fn command_ok_at(
    ms: Seq<Motor>,
    cmds: Seq<MotorCommand>,
    sp: (int, int),
    j: int,
) -> bool {
    &&& ms[j].volts_checked(sp) is Some
    &&& cmds[j].name_v() == ms[j].name_v()
    &&& cmds[j].voltage_v() == ms[j].volts_checked(sp).unwrap()
}

/// The checked conversion of fleet member `j` succeeds.
pub open spec fn volts_sp_ok(ms: Seq<Motor>, sp: (int, int), j: int) -> bool {
    ms[j].volts_checked(sp) is Some
}

/// A command issued by the distance query, with one voltage per motor.
pub struct RoverCommand {
    duration: Rat,
    motor_commands: Vec<MotorCommand>,
}

impl RoverCommand {
    /// The commanded travel duration as a rational pair.
    pub closed spec fn duration_v(self) -> (int, int) {
        self.duration@
    }

    /// The per-motor commands.
    pub closed spec fn commands_s(self) -> Seq<MotorCommand> {
        self.motor_commands@
    }

    /// The commanded travel duration (s).
    pub fn duration_get(&self) -> (r: Rat)
        ensures
            r@ == self.duration_v(),
    {
        self.duration
    }

    /// Read access to the per-motor commands.
    pub fn motor_commands_get(&self) -> (r: &Vec<MotorCommand>)
        ensures
            r@ == self.commands_s(),
    {
        &self.motor_commands
    }
}

impl Rover {
    /// Checked bus voltage at a state of charge (percent):
    /// `batteries[0].max_voltage * soc / 100`.
    pub open spec fn batt_voltage_checked(self, soc: (int, int)) -> Option<(int, int)> {
        ndiv(
            nmul(Some(self.batteries_s()[0].max_voltage_v()), Some(soc)),
            Some((100int, 1int)),
        )
    }

    /// Bus voltage at the given state of charge (percent).
    fn batt_voltage_get(&self, state_of_charge: &Rat) -> (r: Option<Rat>)
        requires
            self.wf(),
            state_of_charge.wf(),
        ensures
            lift_matches(r, self.batt_voltage_checked(state_of_charge@)),
    {
        proof {
            assert(self.batteries_s()[0].valid());
        }
        let maxv = self.batteries[0].max_voltage_get();
        let t = match maxv.checked_mul(state_of_charge) {
            Some(v) => v,
            None => {
                return None;
            },
        };
        t.checked_div(&rat_const(100, 1))
    }

    /// Checked top ground speed at bus voltage `v`: the limiting motor's
    /// speed at that voltage.
    pub open spec fn max_speed_checked(self, v: (int, int)) -> Option<(int, int)> {
        self.limiting().speed_checked(v)
    }

    /// Top ground speed of the fleet at the given bus voltage: the limiting
    /// motor's speed, since every other motor reaches it at a lower voltage.
    fn max_speed_get(&self, voltage: &Rat) -> (r: Option<Rat>)
        requires
            self.wf(),
            voltage.wf(),
        ensures
            lift_matches(r, self.max_speed_checked(voltage@)),
    {
        proof {
            assert(self.motors_s()[self.limiting_i()].wf());
        }
        self.motors[self.limiting_motor].ground_speed_get(voltage)
    }

    /// Checked total battery capacity.
    pub open spec fn capacity_checked(self) -> Option<(int, int)> {
        total_capacity_checked(self.batteries_s())
    }

    /// Total capacity of all batteries.
    #[verifier::loop_isolation(false)]
    pub fn batt_capacity_get(&self) -> (r: Option<Rat>)
        requires
            self.wf(),
        ensures
            lift_matches(r, self.capacity_checked()),
    {
        let mut acc = rat_const(0, 1);
        let mut i: usize = 0;
        while i < self.batteries.len()
            invariant
                i <= self.batteries@.len(),
                acc.wf(),
                total_capacity_checked(self.batteries@.take(i as int)) == Some(acc@),
            decreases self.batteries@.len() - i,
        {
            proof {
                assert(self.batteries@.take(i + 1).drop_last() =~= self.batteries@.take(i as int));
                assert(self.batteries@.take(i + 1).last() == self.batteries@[i as int]);
                assert(self.batteries_s()[i as int].valid());
            }
            let c = self.batteries[i].capacity_get();
            acc = match acc.checked_add(&c) {
                Some(t) => t,
                None => {
                    proof {
                        lemma_capacity_none_from(self.batteries@, i + 1);
                    }
                    return None;
                },
            };
            i = i + 1;
        }
        proof {
            assert(self.batteries@.take(self.batteries@.len() as int) =~= self.batteries@);
        }
        Some(acc)
    }

    /// Checked total panel power per unit irradiance.
    pub open spec fn ppi_checked(self) -> Option<(int, int)> {
        total_ppi_checked(self.panels_s())
    }

    /// Total panel power per unit irradiance.
    #[verifier::loop_isolation(false)]
    pub fn power_per_irradiance_get(&self) -> (r: Option<Rat>)
        requires
            self.wf(),
        ensures
            lift_matches(r, self.ppi_checked()),
    {
        let mut acc = rat_const(0, 1);
        let mut i: usize = 0;
        while i < self.solar_panels.len()
            invariant
                i <= self.solar_panels@.len(),
                acc.wf(),
                total_ppi_checked(self.solar_panels@.take(i as int)) == Some(acc@),
            decreases self.solar_panels@.len() - i,
        {
            proof {
                assert(self.solar_panels@.take(i + 1).drop_last() =~= self.solar_panels@.take(
                    i as int,
                ));
                assert(self.solar_panels@.take(i + 1).last() == self.solar_panels@[i as int]);
                assert(self.panels_s()[i as int].rats_wf());
            }
            let p = match self.solar_panels[i].power_per_irradiance_get() {
                Some(p) => p,
                None => {
                    proof {
                        lemma_ppi_none_from(self.solar_panels@, i + 1);
                    }
                    return None;
                },
            };
            acc = match acc.checked_add(&p) {
                Some(t) => t,
                None => {
                    proof {
                        lemma_ppi_none_from(self.solar_panels@, i + 1);
                    }
                    return None;
                },
            };
            i = i + 1;
        }
        proof {
            assert(self.solar_panels@.take(self.solar_panels@.len() as int) =~= self.solar_panels@);
        }
        Some(acc)
    }

    /// Checked speed sustainable from a power budget: the budget share of the
    /// limiting motor gives its voltage, clamped to the bus maximum.
    pub open spec fn power_to_speed_checked(self, p: (int, int)) -> Option<(int, int)> {
        match nmul(Some(self.limiting().fixed_v()), Some(p)) {
            Option::Some(t) => match ndiv(Some(t), Some(self.limiting().cur_v())) {
                Option::Some(v) => {
                    let maxv = self.batteries_s()[0].max_voltage_v();
                    let vv = if rat_le(v, maxv) {
                        v
                    } else {
                        maxv
                    };
                    nmul(Some(vv), Some(self.limiting().ratio_v()))
                },
                Option::None => None,
            },
            Option::None => None,
        }
    }

    /// Ground speed sustainable from the given power budget.
    pub fn power_to_speed(&self, power: &Rat) -> (r: Option<Rat>)
        requires
            self.wf(),
            power.wf(),
        ensures
            lift_matches(r, self.power_to_speed_checked(power@)),
    {
        proof {
            assert(self.motors_s()[self.limiting_i()].wf());
            assert(self.batteries_s()[0].valid());
        }
        let lim = &self.motors[self.limiting_motor];
        let t = match lim.fixed_speed_power_ratio_get().checked_mul(power) {
            Some(v) => v,
            None => {
                return None;
            },
        };
        let v = match t.checked_div(&lim.current_rating_get()) {
            Some(v) => v,
            None => {
                return None;
            },
        };
        let maxv = self.batteries[0].max_voltage_get();
        let vv = if v.le(&maxv) {
            v
        } else {
            maxv
        };
        vv.checked_mul(&lim.ratio_get())
    }

    /// Checked top speed from solar power alone under irradiance `irr`.
    pub open spec fn panel_only_checked(self, irr: (int, int)) -> Option<(int, int)> {
        if irr.0 == 0 {
            Some((0int, 1int))
        } else {
            match panel_power_checked(self.panels_s(), irr) {
                Option::Some(pw) => self.power_to_speed_checked(pw),
                Option::None => None,
            }
        }
    }

    /// Top speed sustainable from solar power alone under the given
    /// irradiance.  Zero irradiance gives zero speed.
    #[verifier::loop_isolation(false)]
    pub fn panel_only_max_speed_get(&self, irradiance: &Rat) -> (r: Option<Rat>)
        requires
            self.wf(),
            irradiance.wf(),
        ensures
            lift_matches(r, self.panel_only_checked(irradiance@)),
            rat_eq(irradiance@, (0int, 1int)) ==> r is Some && rat_eq(r.unwrap()@, (0int, 1int)),
    {
        if irradiance.is_zero() {
            return Some(rat_const(0, 1));
        }
        assert(!rat_eq(irradiance@, (0int, 1int))) by (nonlinear_arith)
            requires
                irradiance@.0 != 0,
        ;
        let mut acc = rat_const(0, 1);
        let mut i: usize = 0;
        while i < self.solar_panels.len()
            invariant
                i <= self.solar_panels@.len(),
                acc.wf(),
                panel_power_checked(self.solar_panels@.take(i as int), irradiance@) == Some(acc@),
            decreases self.solar_panels@.len() - i,
        {
            proof {
                assert(self.solar_panels@.take(i + 1).drop_last() =~= self.solar_panels@.take(
                    i as int,
                ));
                assert(self.solar_panels@.take(i + 1).last() == self.solar_panels@[i as int]);
                assert(self.panels_s()[i as int].rats_wf());
            }
            let p = match self.solar_panels[i].power_output_get(irradiance) {
                Some(p) => p,
                None => {
                    proof {
                        lemma_panel_power_none_from(self.solar_panels@, irradiance@, i + 1);
                    }
                    return None;
                },
            };
            acc = match acc.checked_add(&p) {
                Some(t) => t,
                None => {
                    proof {
                        lemma_panel_power_none_from(self.solar_panels@, irradiance@, i + 1);
                    }
                    return None;
                },
            };
            i = i + 1;
        }
        proof {
            assert(self.solar_panels@.take(self.solar_panels@.len() as int) =~= self.solar_panels@);
        }
        self.power_to_speed(&acc)
    }

    /// Checked power needed to drive every motor at the fleet's top speed at
    /// the full bus voltage.
    pub open spec fn saturated_checked(self) -> Option<(int, int)> {
        match self.max_speed_checked(self.batteries_s()[0].max_voltage_v()) {
            Option::Some(sp) => fleet_power_checked(self.motors_s(), sp),
            Option::None => None,
        }
    }

    /// Power needed to drive every motor at the fleet's top speed at the full
    /// bus voltage.
    pub fn saturated_power_get(&self) -> (r: Option<Rat>)
        requires
            self.wf(),
        ensures
            lift_matches(r, self.saturated_checked()),
    {
        proof {
            assert(self.batteries_s()[0].valid());
        }
        let maxv = self.batteries[0].max_voltage_get();
        let sp = match self.max_speed_get(&maxv) {
            Some(v) => v,
            None => {
                return None;
            },
        };
        fleet_power_sum(&self.motors, &sp)
    }

    /// Checked command for travelling `dist` millimetres at top speed.
    pub open spec fn distance_checked(self, dist: (int, int)) -> Option<(int, int)> {
        match self.batt_voltage_checked((100int, 1int)) {
            Option::Some(bv) => match self.max_speed_checked(bv) {
                Option::Some(sp) => if sp.0 == 0 {
                    None
                } else {
                    ndiv(Some(dist), Some(sp))
                },
                Option::None => None,
            },
            Option::None => None,
        }
    }

    /// The top speed used by `distance_travel`, when it is computable.
    pub open spec fn full_speed_checked(self) -> Option<(int, int)> {
        match self.batt_voltage_checked((100int, 1int)) {
            Option::Some(bv) => self.max_speed_checked(bv),
            Option::None => None,
        }
    }

    /// Command that travels the given distance (mm) in minimum time: every
    /// motor is driven at the fleet's full-charge top speed.
    #[verifier::loop_isolation(false)]
    pub fn distance_travel(&self, distance: &Rat) -> (r: Option<RoverCommand>)
        requires
            self.wf(),
            distance.wf(),
        ensures
            match r {
                Option::Some(cmd) => {
                    &&& self.full_speed_checked() is Some
                    &&& self.full_speed_checked().unwrap().0 != 0
                    &&& self.distance_checked(distance@) is Some
                    &&& cmd.duration_v() == self.distance_checked(distance@).unwrap()
                    &&& fits(cmd.duration_v())
                    &&& cmd.commands_s().len() == self.motors_s().len()
                    &&& forall|j: int|
                        0 <= j < self.motors_s().len() ==> #[trigger] command_ok_at(
                            self.motors_s(),
                            cmd.commands_s(),
                            self.full_speed_checked().unwrap(),
                            j,
                        )
                },
                Option::None => {
                    ||| self.full_speed_checked() is None
                    ||| self.full_speed_checked().unwrap().0 == 0
                    ||| self.distance_checked(distance@) is None
                    ||| !(forall|j: int|
                        0 <= j < self.motors_s().len() ==> #[trigger] volts_sp_ok(
                            self.motors_s(),
                            self.full_speed_checked().unwrap(),
                            j,
                        ))
                },
            },
    {
        let hundred = rat_const(100, 1);
        let bv = match self.batt_voltage_get(&hundred) {
            Some(v) => v,
            None => {
                return None;
            },
        };
        let sp = match self.max_speed_get(&bv) {
            Some(v) => v,
            None => {
                return None;
            },
        };
        if sp.is_zero() {
            return None;
        }
        let duration = match distance.checked_div(&sp) {
            Some(v) => v,
            None => {
                return None;
            },
        };
        let mut cmds: Vec<MotorCommand> = Vec::new();
        let mut i: usize = 0;
        while i < self.motors.len()
            invariant
                i <= self.motors@.len(),
                cmds@.len() == i,
                sp.wf(),
                Some(sp@) == self.full_speed_checked(),
                forall|j: int|
                    0 <= j < i ==> #[trigger] command_ok_at(self.motors@, cmds@, sp@, j),
            decreases self.motors@.len() - i,
        {
            proof {
                assert(self.motors_s()[i as int].wf());
            }
            let c = match self.motors[i].ground_speed_set(&sp) {
                Some(c) => c,
                None => {
                    assert(!volts_sp_ok(self.motors@, sp@, i as int));
                    return None;
                },
            };
            let ghost precmds = cmds@;
            cmds.push(c);
            proof {
                assert forall|j: int| 0 <= j < i + 1 implies #[trigger] command_ok_at(
                    self.motors@,
                    cmds@,
                    sp@,
                    j,
                ) by {
                    if j < i {
                        assert(command_ok_at(self.motors@, precmds, sp@, j));
                        assert(cmds@[j] == precmds[j]);
                    } else {
                        assert(cmds@[j] == c);
                    }
                }
            }
            i = i + 1;
        }
        Some(RoverCommand { duration, motor_commands: cmds })
    }

    /// Checked maximum range (km) on the given state of charge.  A zero state
    /// of charge yields zero distance.
    pub open spec fn max_distance_checked(self, soc: (int, int)) -> Option<(int, int)> {
        if soc.0 == 0 {
            Some((0int, 1int))
        } else {
            match self.batt_voltage_checked(soc) {
                Option::Some(bv) => match self.max_speed_checked(bv) {
                    Option::Some(sp) => if sp.0 == 0 {
                        None
                    } else {
                        match fleet_power_checked(self.motors_s(), sp) {
                            Option::Some(pw) => if pw.0 == 0 {
                                None
                            } else {
                                match nmul(
                                    nmul(self.capacity_checked(), Some((36int, 1int))),
                                    Some(soc),
                                ) {
                                    Option::Some(e) => match ndiv(Some(e), Some(pw)) {
                                        Option::Some(dur) => ndiv(
                                            nmul(Some(sp), Some(dur)),
                                            Some((1000000int, 1int)),
                                        ),
                                        Option::None => None,
                                    },
                                    Option::None => None,
                                }
                            },
                            Option::None => None,
                        }
                    },
                    Option::None => None,
                },
                Option::None => None,
            }
        }
    }

    /// Maximum range (km) on the given state of charge (percent).  No charge
    /// means no distance.
    pub fn max_distance_get(&self, state_of_charge: &Rat) -> (r: Option<Rat>)
        requires
            self.wf(),
            state_of_charge.wf(),
        ensures
            lift_matches(r, self.max_distance_checked(state_of_charge@)),
            rat_eq(state_of_charge@, (0int, 1int)) ==> r is Some && rat_eq(
                r.unwrap()@,
                (0int, 1int),
            ),
    {
        if state_of_charge.is_zero() {
            return Some(rat_const(0, 1));
        }
        assert(!rat_eq(state_of_charge@, (0int, 1int))) by (nonlinear_arith)
            requires
                state_of_charge@.0 != 0,
        ;
        let bv = match self.batt_voltage_get(state_of_charge) {
            Some(v) => v,
            None => {
                return None;
            },
        };
        let sp = match self.max_speed_get(&bv) {
            Some(v) => v,
            None => {
                return None;
            },
        };
        if sp.is_zero() {
            return None;
        }
        let pw = match fleet_power_sum(&self.motors, &sp) {
            Some(v) => v,
            None => {
                return None;
            },
        };
        if pw.is_zero() {
            return None;
        }
        let cap = match self.batt_capacity_get() {
            Some(v) => v,
            None => {
                return None;
            },
        };
        let c36 = match cap.checked_mul(&rat_const(36, 1)) {
            Some(v) => v,
            None => {
                return None;
            },
        };
        let e = match c36.checked_mul(state_of_charge) {
            Some(v) => v,
            None => {
                return None;
            },
        };
        let dur = match e.checked_div(&pw) {
            Some(v) => v,
            None => {
                return None;
            },
        };
        let d = match sp.checked_mul(&dur) {
            Some(v) => v,
            None => {
                return None;
            },
        };
        d.checked_div(&rat_const(1000000, 1))
    }

    /// Read access to the calibrated fleet.
    pub fn motors_get(&self) -> (r: &Vec<Motor>)
        ensures
            r@ == self.motors_s(),
    {
        &self.motors
    }

    /// Index of the limiting motor in the fleet.
    pub fn limiting_index(&self) -> (r: usize)
        ensures
            r as int == self.limiting_i(),
    {
        self.limiting_motor
    }
}


/// Length of the synthetic day used by the variable-irradiance query:
/// 24 h, 37 min and 22 s, in seconds.
pub open spec fn day_length_v() -> (int, int) {
    (88642int, 1int)
}

/// Checked daily travel distance (km) under a half-sine irradiance profile
/// peaking at `peak`.  The profile is zero at both ends of the lit half day,
/// so the integral of the power is exactly `2 * peak_power / ang_freq` with
/// `ang_freq = 2 * pi / day_length`; that energy is reshaped into time spent
/// at the fleet's saturated power.
pub open spec fn daily_distance_checked(rover: Rover, peak: (int, int)) -> Option<(int, int)> {
    match total_ppi_checked(rover.panels_s()) {
        Option::Some(ppi) => match nmul(Some(peak), Some(ppi)) {
            Option::Some(pp) => match ndiv(
                nmul(Some(crate::wheel::pi_v()), Some((2int, 1int))),
                Some(day_length_v()),
            ) {
                Option::Some(af) => match ndiv(Some(pp), Some(af)) {
                    Option::Some(half) => match nadd(Some(half), Some(half)) {
                        Option::Some(energy) => match rover.saturated_checked() {
                            Option::Some(sat) => if sat.0 == 0 {
                                None
                            } else {
                                match ndiv(Some(energy), Some(sat)) {
                                    Option::Some(tm) => match rover.power_to_speed_checked(sat) {
                                        Option::Some(sp) => ndiv(
                                            nmul(Some(tm), Some(sp)),
                                            Some((1000000int, 1int)),
                                        ),
                                        Option::None => None,
                                    },
                                    Option::None => None,
                                }
                            },
                            Option::None => None,
                        },
                        Option::None => None,
                    },
                    Option::None => None,
                },
                Option::None => None,
            },
            Option::None => None,
        },
        Option::None => None,
    }
}

/// Maximum distance (km) travelable in one synthetic day under a half-sine
/// irradiance profile with the given peak (W/m^2): the day's solar energy is
/// spent travelling at the speed the saturated power sustains.
pub fn daily_distance_calc(rover: &Rover, peak_irradiance: &Rat) -> (r: Option<Rat>)
    requires
        rover.wf(),
        peak_irradiance.wf(),
    ensures
        lift_matches(r, daily_distance_checked(*rover, peak_irradiance@)),
{
    let ppi = match rover.power_per_irradiance_get() {
        Some(v) => v,
        None => {
            return None;
        },
    };
    let pp = match peak_irradiance.checked_mul(&ppi) {
        Some(v) => v,
        None => {
            return None;
        },
    };
    let two_pi = match crate::wheel::pi_rat().checked_mul(&rat_const(2, 1)) {
        Some(v) => v,
        None => {
            return None;
        },
    };
    let day = rat_const(88642, 1);
    let af = match two_pi.checked_div(&day) {
        Some(v) => v,
        None => {
            return None;
        },
    };
    if af.is_zero() {
        return None;
    }
    // the half-day cosine difference evaluates to exactly 2
    let half = match pp.checked_div(&af) {
        Some(v) => v,
        None => {
            return None;
        },
    };
    let energy = match half.checked_add(&half) {
        Some(v) => v,
        None => {
            return None;
        },
    };
    let sat = match rover.saturated_power_get() {
        Some(v) => v,
        None => {
            return None;
        },
    };
    if sat.is_zero() {
        return None;
    }
    let tm = match energy.checked_div(&sat) {
        Some(v) => v,
        None => {
            return None;
        },
    };
    let sp = match rover.power_to_speed(&sat) {
        Some(v) => v,
        None => {
            return None;
        },
    };
    let d = match tm.checked_mul(&sp) {
        Some(v) => v,
        None => {
            return None;
        },
    };
    d.checked_div(&rat_const(1000000, 1))
}

} // verus!
