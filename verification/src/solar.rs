//! A solar panel converts irradiance (W/m^2) into electrical power through
//! its efficiency and its surface area.

use crate::rat::{fits, lift_matches, mul_v, nmul, Rat};
use vstd::prelude::*;

verus! {

/// A solar panel description.
pub struct SolarPanel {
    efficiency: Rat,
    area: Rat,
}

impl SolarPanel {
    /// Efficiency as a rational pair.
    pub closed spec fn efficiency_v(self) -> (int, int) {
        self.efficiency@
    }

    /// Area as a rational pair.
    pub closed spec fn area_v(self) -> (int, int) {
        self.area@
    }

    /// The stored rationals are well-formed.
    pub open spec fn rats_wf(self) -> bool {
        &&& fits(self.efficiency_v())
        &&& fits(self.area_v())
    }

    /// Assembles a panel from its raw description.
    pub fn new(efficiency: Rat, area: Rat) -> (r: SolarPanel)
        requires
            efficiency.wf(),
            area.wf(),
        ensures
            r.efficiency_v() == efficiency@,
            r.area_v() == area@,
            r.rats_wf(),
    {
        SolarPanel { efficiency, area }
    }

    /// Ideal power produced per unit irradiance: `efficiency * area`.
    pub open spec fn ppi_v(self) -> (int, int) {
        mul_v(self.efficiency_v(), self.area_v())
    }

    /// Checked computation mirrored by `power_per_irradiance_get`.
    pub open spec fn ppi_checked(self) -> Option<(int, int)> {
        nmul(Some(self.efficiency_v()), Some(self.area_v()))
    }

    /// Power produced per unit irradiance.
    pub fn power_per_irradiance_get(&self) -> (r: Option<Rat>)
        requires
            self.rats_wf(),
        ensures
            lift_matches(r, self.ppi_checked()),
    {
        self.efficiency.checked_mul(&self.area)
    }

    /// Checked computation mirrored by `power_output_get`.
    pub open spec fn power_output_checked(self, irr: (int, int)) -> Option<(int, int)> {
        nmul(Some(irr), self.ppi_checked())
    }

    /// Power produced under irradiance `irradiance`.
    pub fn power_output_get(&self, irradiance: &Rat) -> (r: Option<Rat>)
        requires
            self.rats_wf(),
            irradiance.wf(),
        ensures
            lift_matches(r, self.power_output_checked(irradiance@)),
    {
        let ppi = match self.power_per_irradiance_get() {
            Some(v) => v,
            None => {
                return None;
            },
        };
        irradiance.checked_mul(&ppi)
    }
}

} // verus!