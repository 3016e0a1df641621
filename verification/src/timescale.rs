//! Time scales that an instant may be counted in.

use vstd::prelude::*;

verus! {

/// A time reference system.
#[derive(Clone, Copy, Debug, PartialEq, Eq, Structural, Hash)]
pub enum TimeScale {
    /// International Atomic Time.
    TAI,
    /// Terrestrial Time.
    TT,
    /// Ephemeris Time.
    ET,
    /// Barycentric Dynamical Time.
    TDB,
    /// Coordinated Universal Time.
    UTC,
    /// GPS Time.
    GPST,
    /// Galileo System Time.
    GST,
    /// BeiDou Time.
    BDT,
}

impl TimeScale {
    /// The number that stands for this scale.
    pub open spec fn spec_code(self) -> u8 {
        match self {
            TimeScale::TAI => 0,
            TimeScale::TT => 1,
            TimeScale::ET => 2,
            TimeScale::TDB => 3,
            TimeScale::UTC => 4,
            TimeScale::GPST => 5,
            TimeScale::GST => 6,
            TimeScale::BDT => 7,
        }
    }

    /// The scale's name as calendar text spells it.
    pub open spec fn identifier(self) -> Seq<char> {
        match self {
            TimeScale::TAI => seq!['T', 'A', 'I'],
            TimeScale::TT => seq!['T', 'T'],
            TimeScale::ET => seq!['E', 'T'],
            TimeScale::TDB => seq!['T', 'D', 'B'],
            TimeScale::UTC => seq!['U', 'T', 'C'],
            TimeScale::GPST => seq!['G', 'P', 'S', 'T'],
            TimeScale::GST => seq!['G', 'S', 'T'],
            TimeScale::BDT => seq!['B', 'D', 'T'],
        }
    }

    /// The scale is kept by a satellite navigation system.
    pub open spec fn spec_is_gnss(self) -> bool {
        self == TimeScale::GPST || self == TimeScale::GST || self == TimeScale::BDT
    }

    /// The scale is reached through a relativistic model evaluated in floating
    /// point, so that conversions into it need not repeat exactly.
    pub open spec fn spec_is_dynamical(self) -> bool {
        self == TimeScale::ET || self == TimeScale::TDB
    }

    /// Seconds to add to an instant of this scale before reading it on the
    /// civil calendar.
    pub open spec fn spec_civil_offset(self) -> i64 {
        match self {
            TimeScale::GPST => 37,
            TimeScale::GST => 19,
            TimeScale::BDT => 19,
            _ => 0,
        }
    }

    /// The number that stands for this scale.
    #[verifier::when_used_as_spec(spec_code)]
    pub fn code(self) -> (r: u8)
        ensures
            r == self.spec_code(),
            r <= 7,
    {
        match self {
            TimeScale::TAI => 0,
            TimeScale::TT => 1,
            TimeScale::ET => 2,
            TimeScale::TDB => 3,
            TimeScale::UTC => 4,
            TimeScale::GPST => 5,
            TimeScale::GST => 6,
            TimeScale::BDT => 7,
        }
    }

    /// The scale is kept by a satellite navigation system.
    #[verifier::when_used_as_spec(spec_is_gnss)]
    pub fn is_gnss(self) -> (r: bool)
        ensures
            r == self.spec_is_gnss(),
    {
        match self {
            TimeScale::GPST | TimeScale::GST | TimeScale::BDT => true,
            _ => false,
        }
    }

    /// Seconds to add to an instant of this scale before reading it on the
    /// civil calendar.
    #[verifier::when_used_as_spec(spec_civil_offset)]
    pub fn civil_offset(self) -> (r: i64)
        ensures
            r == self.spec_civil_offset(),
    {
        match self {
            TimeScale::GPST => 37,
            TimeScale::GST => 19,
            TimeScale::BDT => 19,
            _ => 0,
        }
    }
}

} // verus!
