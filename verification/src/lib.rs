//! Locomotion performance model of a multi-motor, multi-battery,
//! solar-augmented rover.
//!
//! All physical quantities are exact rationals (`rat`).  A `wheel` converts
//! between ground speed and motor RPM, a `motor` is calibrated from two
//! sampled points of its linear speed/voltage relationship, and the `rover`
//! aggregate answers the four performance queries: the command for a given
//! distance, the range on a state of charge, the top speed from solar power
//! alone, and the distance travelable in one day of half-sine irradiance.
//! The `laws` module proves the model's algebraic properties once and for
//! all.

pub mod battery;
pub mod exercises;
pub mod laws;
pub mod motor;
pub mod rat;
pub mod rover;
pub mod solar;
pub mod wheel;
