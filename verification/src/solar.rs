//! Solar position as the pipeline consumes it.
//!
//! The trigonometric computation of the sun's azimuth and elevation runs on
//! machine floating point outside this library; its outcome enters here as
//! whole millidegrees.  Everything decided from that outcome — the civil
//! twilight day/night call and the coarse compass bucket — is verified here.

use vstd::prelude::*;

verus! {

/// Solar elevation at or below this many millidegrees counts as night
/// (civil-twilight threshold, −6°).
pub const CIVIL_TWILIGHT_MILLIDEG: i64 = -6000;

/// Sun position for one capture, in millidegrees.
///
/// Azimuth: 0° = North, 90° = East, 180° = South, 270° = West, in
/// `[0°, 360°)`.  Elevation: angle above the horizon, in `[-90°, 90°]`.
pub struct SolarPosition {
    pub azimuth_millideg: i64,
    pub elevation_millideg: i64,
}

impl SolarPosition {
    /// Both angles lie in their documented ranges.
    pub open spec fn wf(self) -> bool {
        0 <= self.azimuth_millideg < 360000 && -90000 <= self.elevation_millideg <= 90000
    }

    /// The sun counts as up while its elevation is above the civil-twilight
    /// threshold.
    pub open spec fn spec_is_daylight(self) -> bool {
        self.elevation_millideg > CIVIL_TWILIGHT_MILLIDEG
    }

    /// Day/night flag: daylight exactly when the elevation exceeds −6°.
    pub fn is_daylight(&self) -> (r: bool)
        ensures
            r == self.spec_is_daylight(),
    {
        self.elevation_millideg > CIVIL_TWILIGHT_MILLIDEG
    }

    /// Coarse compass bucket of the azimuth, with boundaries at 45°, 135°,
    /// 225° and 315°.
    pub fn sun_direction(&self) -> (r: &'static str)
        ensures
            (self.azimuth_millideg < 45000 || self.azimuth_millideg >= 315000) ==> r@ == "Norte"@,
            45000 <= self.azimuth_millideg < 135000 ==> r@ == "Este"@,
            135000 <= self.azimuth_millideg < 225000 ==> r@ == "Sur"@,
            225000 <= self.azimuth_millideg < 315000 ==> r@ == "Oeste"@,
    {
        if self.azimuth_millideg < 45000 || self.azimuth_millideg >= 315000 {
            "Norte"
        } else if self.azimuth_millideg < 135000 {
            "Este"
        } else if self.azimuth_millideg < 225000 {
            "Sur"
        } else {
            "Oeste"
        }
    }

    /// Azimuth rounded to whole degrees, as shown in the context block.
    pub fn azimuth_degrees_rounded(&self) -> (r: i64)
        requires
            self.wf(),
        ensures
            r == (self.azimuth_millideg + 500) / 1000,
            0 <= r <= 360,
    {
        (self.azimuth_millideg + 500) / 1000
    }

    /// Elevation rounded to tenths of a degree, away from zero on halves.
    pub fn elevation_tenths_rounded(&self) -> (r: i64)
        requires
            self.wf(),
        ensures
            self.elevation_millideg >= 0 ==> r == (self.elevation_millideg + 50) / 100,
            self.elevation_millideg < 0 ==> r == -((-self.elevation_millideg + 50) / 100),
            -900 <= r <= 900,
    {
        if self.elevation_millideg >= 0 {
            (self.elevation_millideg + 50) / 100
        } else {
            -((-self.elevation_millideg + 50) / 100)
        }
    }
}

/// An elevation strictly below the civil-twilight threshold is never reported
/// as daylight.
pub proof fn law_below_civil_twilight_is_night(p: SolarPosition)
    requires
        p.elevation_millideg < -6000,
    ensures
        !p.spec_is_daylight(),
{
}

} // verus!
