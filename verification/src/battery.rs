//! A battery exposes its energy capacity (Wh) and its maximum terminal
//! voltage (V).  It has no derived state.

use crate::rat::{fits, Rat};
use crate::wheel::rat_const;
use vstd::prelude::*;

verus! {

/// A battery description.
pub struct Battery {
    capacity: Rat,
    max_voltage: Rat,
}

impl Battery {
    /// Capacity as a rational pair.
    pub closed spec fn capacity_v(self) -> (int, int) {
        self.capacity@
    }

    /// Maximum voltage as a rational pair.
    pub closed spec fn max_voltage_v(self) -> (int, int) {
        self.max_voltage@
    }

    /// The stored rationals are well-formed.
    pub open spec fn rats_wf(self) -> bool {
        &&& fits(self.capacity_v())
        &&& fits(self.max_voltage_v())
    }

    /// A physically meaningful battery: nonnegative capacity and voltage.
    pub open spec fn valid(self) -> bool {
        &&& self.rats_wf()
        &&& self.capacity_v().0 >= 0
        &&& self.max_voltage_v().0 >= 0
    }

    /// Assembles a battery from its raw description.
    pub fn new(capacity: Rat, max_voltage: Rat) -> (r: Battery)
        requires
            capacity.wf(),
            max_voltage.wf(),
        ensures
            r.capacity_v() == capacity@,
            r.max_voltage_v() == max_voltage@,
            r.rats_wf(),
    {
        Battery { capacity, max_voltage }
    }

    /// Whether capacity and maximum voltage are nonnegative.
    pub fn check_valid(&self) -> (r: bool)
        requires
            self.rats_wf(),
        ensures
            r == self.valid(),
    {
        let zero = rat_const(0, 1);
        zero.le(&self.capacity) && zero.le(&self.max_voltage)
    }

    /// Maximum terminal voltage.
    pub fn max_voltage_get(&self) -> (r: Rat)
        ensures
            r@ == self.max_voltage_v(),
    {
        self.max_voltage
    }

    /// Energy capacity.
    pub fn capacity_get(&self) -> (r: Rat)
        ensures
            r@ == self.capacity_v(),
    {
        self.capacity
    }
}

} // verus!