//! The exercise parameters handed to the four performance queries, and the
//! verification response returned by the external service.

use crate::rat::Rat;
use vstd::prelude::*;

verus! {

/// Distance (mm) for the fixed-distance exercise.
pub struct FixedDistance {
    /// Requested ground distance.
    pub value: Rat,
}

/// State of charge (percent) for the fixed-capacity exercise.
pub struct FixedCapacity {
    /// Battery state of charge.
    pub state_of_charge: Rat,
}

/// Irradiance (W/m^2) for the fixed-irradiance exercise.
pub struct FixedIrradiance {
    /// Constant irradiance.
    pub value: Rat,
}

/// Peak irradiance (W/m^2) for the variable-irradiance exercise.
pub struct VariableIrradiance {
    /// Peak of the half-sine daily profile.
    pub peak_value: Rat,
}

/// The four exercise parameters, as served by the external service.
pub struct Exercises {
    /// Parameters of the fixed-distance exercise.
    pub fixed_distance: FixedDistance,
    /// Parameters of the fixed-capacity exercise.
    pub fixed_capacity: FixedCapacity,
    /// Parameters of the fixed-irradiance exercise.
    pub fixed_irradiance: FixedIrradiance,
    /// Parameters of the variable-irradiance exercise.
    pub variable_irradiance: VariableIrradiance,
}

/// The service's verdict on a posted answer.
pub struct VerifyResponse {
    /// Machine-readable verdict code.
    pub code: String,
    /// Human-readable explanation.
    pub message: String,
}

/// Whether a health-endpoint status string reports a healthy service.
pub fn health_ok(status: &String) -> (r: bool)
    ensures
        r == (status@ == "Ok"@),
{
    let expected: String = "Ok".to_owned();
    proof {
        reveal_strlit("Ok");
    }
    *status == expected
}

} // verus!