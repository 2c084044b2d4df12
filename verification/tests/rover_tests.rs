use rover_perf::battery::Battery;
use rover_perf::exercises::health_ok;
use rover_perf::motor::MotorBuilder;
use rover_perf::rat::Rat;
use rover_perf::rover::{daily_distance_calc, ConfigError, Rover, RoverBuilder};
use rover_perf::solar::SolarPanel;
use rover_perf::wheel::Wheel;

fn rat(num: i64, den: i64) -> Rat {
    Rat::new(num, den).unwrap()
}

fn wheel(diameter_mm: i64, gear_num: i64, gear_den: i64) -> Wheel {
    Wheel::new(rat(diameter_mm, 1), rat(0, 1), rat(0, 1), rat(gear_num, gear_den))
}

fn motor(name: &str, kv: i64, current: i64, d: i64, gn: i64, gd: i64) -> MotorBuilder {
    MotorBuilder::new(name.to_owned(), rat(kv, 1), rat(current, 1), wheel(d, gn, gd))
}

/// The four-motor fleet, one battery and four panels of the end-to-end
/// scenario.
fn fleet() -> RoverBuilder {
    let motors = vec![
        motor("front_left", 45, 11, 160, 6, 1),
        motor("front_right", 50, 14, 180, 8, 1),
        motor("rear_left", 60, 16, 200, 8, 1),
        motor("rear_right", 75, 20, 230, 19, 2),
    ];
    let batteries = vec![Battery::new(rat(123813, 100), rat(103, 5))];
    let panels = vec![
        SolarPanel::new(rat(3, 20), rat(14, 25)),
        SolarPanel::new(rat(9, 50), rat(5, 4)),
        SolarPanel::new(rat(1, 5), rat(1, 1)),
        SolarPanel::new(rat(4, 25), rat(4, 5)),
    ];
    RoverBuilder::new(motors, batteries, panels)
}

fn built_fleet() -> Rover {
    fleet().build().unwrap()
}

#[test]
fn rat_arithmetic_is_exact() {
    let half = rat(1, 2);
    let third = rat(1, 3);
    let sum = half.checked_add(&third).unwrap();
    assert!(sum.value_eq(&rat(5, 6)));
    let prod = half.checked_mul(&third).unwrap();
    assert!(prod.value_eq(&rat(1, 6)));
    let quot = half.checked_div(&third).unwrap();
    assert!(quot.value_eq(&rat(3, 2)));
    let diff = half.checked_sub(&third).unwrap();
    assert!(diff.value_eq(&rat(1, 6)));
    assert!(rat(-2, 4).value_eq(&rat(1, -2)));
    assert!(rat(1, 3).le(&half));
    assert!(!half.le(&third));
    assert!(Rat::new(1, 0).is_none());
}

#[test]
fn wheel_rpm_conversion_round_trips() {
    let w = wheel(200, 8, 1);
    let speed = rat(100, 1);
    let rpm = w.ground_speed_to_rpm(&speed).unwrap();
    // 100 * 8 * 60 / (pi * 200) with pi = 355/113 is 5424/71
    assert!(rpm.value_eq(&rat(5424, 71)));
    let back = w.ground_speed_from_rpm(&rpm).unwrap();
    assert!(back.value_eq(&speed));
}

#[test]
fn motor_voltage_conversion_round_trips() {
    let m = motor("m", 50, 16, 200, 8, 1).build(rat(1, 4)).unwrap();
    let volts = rat(72, 10);
    let speed = m.ground_speed_get(&volts).unwrap();
    let back = m.ground_speed_to_voltage(&speed).unwrap();
    assert!(back.value_eq(&volts));
}

#[test]
fn motor_speed_is_linear_through_origin() {
    let m = motor("m", 50, 16, 200, 8, 1).build(rat(1, 4)).unwrap();
    let zero = rat(0, 1);
    assert!(m.ground_speed_get(&zero).unwrap().value_eq(&zero));
    let v = rat(7, 2);
    let double_v = rat(7, 1);
    let s = m.ground_speed_get(&v).unwrap();
    let s2 = m.ground_speed_get(&double_v).unwrap();
    let twice = s.checked_add(&s).unwrap();
    assert!(s2.value_eq(&twice));
}

#[test]
fn motor_calibration_matches_two_point_slope() {
    // slope = kv * pi * d / (60 * gear) = 50 * (355/113) * 200 / 480
    let m = motor("m", 50, 16, 200, 8, 1).build(rat(1, 4)).unwrap();
    let speed = m.ground_speed_get(&rat(1, 1)).unwrap();
    assert!(speed.value_eq(&rat(50 * 355 * 200, 113 * 480)));
}

#[test]
fn fixed_speed_power_ratios_sum_to_one() {
    let rover = built_fleet();
    let mut sum = rat(0, 1);
    for m in rover.motors_get() {
        sum = sum.checked_add(&m.fixed_speed_power_ratio_get()).unwrap();
    }
    assert!(sum.value_eq(&rat(1, 1)));
}

#[test]
fn limiting_motor_needs_the_highest_reference_voltage() {
    let rover = built_fleet();
    let lim = rover.limiting_index();
    let reference = rat(100, 1);
    let v_lim = rover.motors_get()[lim].ground_speed_to_voltage(&reference).unwrap();
    for m in rover.motors_get() {
        let v = m.ground_speed_to_voltage(&reference).unwrap();
        assert!(v.le(&v_lim));
    }
    // slope kv * d / gear is smallest for the front-right motor
    assert_eq!(rover.motors_get()[lim].name_get(), "front_right");
}

#[test]
fn limiting_motor_is_stable_under_fleet_reordering() {
    let rover = built_fleet();
    let name_a = rover.motors_get()[rover.limiting_index()].name_get().clone();

    let motors = vec![
        motor("rear_right", 75, 20, 230, 19, 2),
        motor("rear_left", 60, 16, 200, 8, 1),
        motor("front_right", 50, 14, 180, 8, 1),
        motor("front_left", 45, 11, 160, 6, 1),
    ];
    let batteries = vec![Battery::new(rat(123813, 100), rat(103, 5))];
    let reordered = RoverBuilder::new(motors, batteries, vec![]).build().unwrap();
    let name_b = reordered.motors_get()[reordered.limiting_index()].name_get().clone();
    assert_eq!(name_a, name_b);
}

#[test]
fn tied_slopes_pick_the_first_motor() {
    // both motors have kv * d / gear == 1200, hence identical slopes
    let motors = vec![
        motor("first", 45, 11, 160, 6, 1),
        motor("second", 50, 14, 180, 15, 2),
    ];
    let batteries = vec![Battery::new(rat(1000, 1), rat(20, 1))];
    let rover = RoverBuilder::new(motors, batteries, vec![]).build().unwrap();
    assert_eq!(rover.limiting_index(), 0);
}

#[test]
fn distance_travel_commands_the_whole_fleet() {
    let rover = built_fleet();
    let cmd = rover.distance_travel(&rat(1000, 1)).unwrap();
    let duration = cmd.duration_get();
    let zero = rat(0, 1);
    assert!(!duration.is_zero());
    assert!(zero.le(&duration));
    let commands = cmd.motor_commands_get();
    assert_eq!(commands.len(), 4);
    let maxv = rat(103, 5);
    let lim = rover.limiting_index();
    let max_speed = rover.motors_get()[lim].ground_speed_get(&maxv).unwrap();
    for (i, c) in commands.iter().enumerate() {
        assert!(!c.voltage.is_zero());
        assert!(zero.le(&c.voltage));
        let v_at_max = rover.motors_get()[i].ground_speed_to_voltage(&max_speed).unwrap();
        assert!(c.voltage.le(&v_at_max));
    }
}

#[test]
fn no_charge_means_no_distance() {
    let rover = built_fleet();
    let d = rover.max_distance_get(&rat(0, 1)).unwrap();
    assert!(d.value_eq(&rat(0, 1)));
}

#[test]
fn max_distance_is_positive_on_a_charged_battery() {
    let rover = built_fleet();
    let d = rover.max_distance_get(&rat(55, 1)).unwrap();
    assert!(!d.is_zero());
    assert!(rat(0, 1).le(&d));
}

#[test]
fn no_irradiance_means_no_speed() {
    let rover = built_fleet();
    let s = rover.panel_only_max_speed_get(&rat(0, 1)).unwrap();
    assert!(s.value_eq(&rat(0, 1)));
}

#[test]
fn panel_only_speed_is_positive_under_sunlight() {
    let rover = built_fleet();
    let s = rover.panel_only_max_speed_get(&rat(600, 1)).unwrap();
    assert!(!s.is_zero());
    assert!(rat(0, 1).le(&s));
}

#[test]
fn power_to_speed_is_monotone_then_clamped() {
    let rover = built_fleet();
    let s1 = rover.power_to_speed(&rat(100, 1)).unwrap();
    let s2 = rover.power_to_speed(&rat(200, 1)).unwrap();
    assert!(s1.le(&s2));
    // far beyond the clamp the speed is pinned to the full-voltage top speed
    let s_big = rover.power_to_speed(&rat(1_000_000, 1)).unwrap();
    let s_bigger = rover.power_to_speed(&rat(2_000_000, 1)).unwrap();
    assert!(s_big.value_eq(&s_bigger));
    let lim = rover.limiting_index();
    let top = rover.motors_get()[lim].ground_speed_get(&rat(103, 5)).unwrap();
    assert!(s_big.value_eq(&top));
}

#[test]
fn saturated_power_covers_the_whole_fleet() {
    let rover = built_fleet();
    let sat = rover.saturated_power_get().unwrap();
    assert!(!sat.is_zero());
    assert!(rat(0, 1).le(&sat));
    // driving the saturated power through the budget query reaches top speed
    let lim = rover.limiting_index();
    let top = rover.motors_get()[lim].ground_speed_get(&rat(103, 5)).unwrap();
    let s = rover.power_to_speed(&sat).unwrap();
    assert!(s.le(&top));
}

#[test]
fn daily_distance_is_positive_under_a_sunny_sky() {
    let rover = built_fleet();
    let d = daily_distance_calc(&rover, &rat(800, 1)).unwrap();
    assert!(!d.is_zero());
    assert!(rat(0, 1).le(&d));
}

#[test]
fn empty_fleet_is_rejected() {
    let batteries = vec![Battery::new(rat(1000, 1), rat(20, 1))];
    let r = RoverBuilder::new(vec![], batteries, vec![]).build();
    assert!(matches!(r, Err(ConfigError::EmptyMotors)));
}

#[test]
fn missing_batteries_are_rejected() {
    let motors = vec![motor("m", 50, 16, 200, 8, 1)];
    let r = RoverBuilder::new(motors, vec![], vec![]).build();
    assert!(matches!(r, Err(ConfigError::EmptyBatteries)));
}

#[test]
fn nonpositive_descriptions_are_rejected() {
    let motors = vec![motor("m", 0, 16, 200, 8, 1)];
    let batteries = vec![Battery::new(rat(1000, 1), rat(20, 1))];
    let r = RoverBuilder::new(motors, batteries, vec![]).build();
    assert!(matches!(r, Err(ConfigError::InvalidDescription)));

    let motors = vec![motor("m", 50, 16, -200, 8, 1)];
    let batteries = vec![Battery::new(rat(1000, 1), rat(20, 1))];
    let r = RoverBuilder::new(motors, batteries, vec![]).build();
    assert!(matches!(r, Err(ConfigError::InvalidDescription)));
}

#[test]
fn health_status_must_be_ok() {
    assert!(health_ok(&"Ok".to_owned()));
    assert!(!health_ok(&"Degraded".to_owned()));
    assert!(!health_ok(&"ok".to_owned()));
}

#[test]
fn battery_and_panel_accessors_report_their_values() {
    let b = Battery::new(rat(123813, 100), rat(103, 5));
    assert!(b.capacity_get().value_eq(&rat(123813, 100)));
    assert!(b.max_voltage_get().value_eq(&rat(103, 5)));
    let p = SolarPanel::new(rat(1, 5), rat(5, 4));
    // 0.2 * 1.25 m^2 gives 0.25 W per W/m^2
    assert!(p.power_per_irradiance_get().unwrap().value_eq(&rat(1, 4)));
    assert!(p.power_output_get(&rat(600, 1)).unwrap().value_eq(&rat(150, 1)));
}