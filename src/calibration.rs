//! The calibration anchor that turns raw depth values into distances.
use vstd::prelude::*;

verus! {

/// Why a calibration anchor could not be formed.
#[derive(Clone, Copy, Debug, PartialEq, Eq, Structural)]
pub enum CalibrationError {
    /// The raw value at the anchor pixel is zero: it cannot scale anything.
    InvalidCalibration,
}

/// A raw depth value and the real distance, in micrometres, measured at the
/// same point. The raw value is never zero.
#[derive(Clone, Copy, Debug, PartialEq, Eq, Structural)]
pub struct CalibrationAnchor {
    origin_raw: u16,
    origin_real_um: u32,
}

/// Calibrated depth of a raw value: `raw / origin_raw * origin_real`,
/// rounded down.
pub open spec fn calibrated(raw: int, origin_raw: int, origin_real: int) -> int {
    raw * origin_real / origin_raw
}

impl CalibrationAnchor {
    pub closed spec fn raw_spec(&self) -> int {
        self.origin_raw as int
    }

    pub closed spec fn real_spec(&self) -> int {
        self.origin_real_um as int
    }

    pub closed spec fn wf(&self) -> bool {
        self.origin_raw != 0
    }

    /// Forms an anchor; fails exactly when `origin_raw` is zero.
    pub fn new(origin_raw: u16, origin_real_um: u32) -> (r: Result<CalibrationAnchor, CalibrationError>)
        ensures
            origin_raw == 0 <==> r == Err::<CalibrationAnchor, CalibrationError>(CalibrationError::InvalidCalibration),
            origin_raw != 0 <==> r is Ok,
            r matches Ok(a) ==> a.wf() && a.raw_spec() == origin_raw && a.real_spec() == origin_real_um,
    {
        if origin_raw == 0 {
            Err(CalibrationError::InvalidCalibration)
        } else {
            Ok(CalibrationAnchor { origin_raw, origin_real_um })
        }
    }

    /// Keeps this anchor when a fresh pair cannot form one, and takes the
    /// fresh one otherwise.
    pub fn refreshed(&self, origin_raw: u16, origin_real_um: u32) -> (r: CalibrationAnchor)
        requires
            self.wf(),
        ensures
            r.wf(),
            origin_raw == 0 ==> r == *self,
            origin_raw != 0 ==> r.raw_spec() == origin_raw && r.real_spec() == origin_real_um,
    {
        match CalibrationAnchor::new(origin_raw, origin_real_um) {
            Ok(a) => a,
            Err(_) => *self,
        }
    }

    pub fn origin_raw(&self) -> (r: u16)
        ensures
            r == self.raw_spec(),
    {
        self.origin_raw
    }

    pub fn origin_real_um(&self) -> (r: u32)
        ensures
            r == self.real_spec(),
    {
        self.origin_real_um
    }

    /// Calibrated depth, in micrometres, of a raw value.
    pub fn depth_of(&self, raw: u16) -> (r: u64)
        requires
            self.wf(),
        ensures
            r == calibrated(raw as int, self.raw_spec(), self.real_spec()),
    {
        assert((raw as int) * (self.origin_real_um as int) <= 0xffff * 0xffff_ffffint) by (nonlinear_arith)
            requires
                raw <= 0xffff,
                self.origin_real_um <= 0xffff_ffff,
        ;
        let prod: u64 = (raw as u64) * (self.origin_real_um as u64);
        prod / (self.origin_raw as u64)
    }
}

/// Calibrated depth of `raw` from an anchor pair: `InvalidCalibration` when
/// `origin_raw` is zero, in which case nothing is divided.
pub fn calibrate(raw: u16, origin_raw: u16, origin_real_um: u32) -> (r: Result<u64, CalibrationError>)
    ensures
        origin_raw == 0 <==> r == Err::<u64, CalibrationError>(CalibrationError::InvalidCalibration),
        origin_raw != 0 ==> r == Ok::<u64, CalibrationError>(
            calibrated(raw as int, origin_raw as int, origin_real_um as int) as u64),
{
    match CalibrationAnchor::new(origin_raw, origin_real_um) {
        Ok(a) => Ok(a.depth_of(raw)),
        Err(e) => Err(e),
    }
}

} // verus!
