//! The eight compass sectors: half-open ranges of bearing that divide the
//! circle, each bound to one light.
use vstd::prelude::*;
use vstd::arithmetic::power2::lemma_pow2_pos;
use crate::angle::{Angle, degrees};
use crate::leds::LedId;
use crate::RangeF32;

verus! {

/// The sectors clockwise from north.
#[derive(Clone, Copy, Debug, PartialEq, Eq, Structural)]
pub enum Sector {
    N,
    NE,
    E,
    SE,
    S,
    SW,
    W,
    NW,
}

impl Sector {
    /// Whether `bearing` lies in this sector. A sector takes its lower bound
    /// and leaves its upper bound to its clockwise neighbour; south lies on
    /// both sides of the seam at 180 degrees.
    pub open spec fn holds(self, bearing: Angle) -> bool {
        let v = bearing.scaled();
        !bearing.spec_is_nan() && match self {
            Sector::N => degrees(-22) <= v < degrees(22),
            Sector::NE => degrees(22) <= v < degrees(67),
            Sector::E => degrees(67) <= v < degrees(112),
            Sector::SE => degrees(112) <= v < degrees(157),
            Sector::S => degrees(157) <= v < degrees(180) || degrees(-180) <= v < degrees(-157),
            Sector::SW => degrees(-157) <= v < degrees(-112),
            Sector::W => degrees(-112) <= v < degrees(-67),
            Sector::NW => degrees(-67) <= v < degrees(-22),
        }
    }

    /// The sector that holds `bearing`, if one does.
    pub open spec fn spec_of(bearing: Angle) -> Option<Sector> {
        if Sector::N.holds(bearing) {
            Some(Sector::N)
        } else if Sector::NE.holds(bearing) {
            Some(Sector::NE)
        } else if Sector::E.holds(bearing) {
            Some(Sector::E)
        } else if Sector::SE.holds(bearing) {
            Some(Sector::SE)
        } else if Sector::S.holds(bearing) {
            Some(Sector::S)
        } else if Sector::SW.holds(bearing) {
            Some(Sector::SW)
        } else if Sector::W.holds(bearing) {
            Some(Sector::W)
        } else if Sector::NW.holds(bearing) {
            Some(Sector::NW)
        } else {
            None
        }
    }

    /// The light that shows this sector.
    pub open spec fn spec_led(self) -> LedId {
        match self {
            Sector::N => LedId::Led3,
            Sector::NE => LedId::Led5,
            Sector::E => LedId::Led7,
            Sector::SE => LedId::Led9,
            Sector::S => LedId::Led10,
            Sector::SW => LedId::Led8,
            Sector::W => LedId::Led6,
            Sector::NW => LedId::Led4,
        }
    }

    #[verifier::when_used_as_spec(spec_led)]
    pub fn led(self) -> (id: LedId)
        ensures
            id == self.spec_led(),
    {
        match self {
            Sector::N => LedId::Led3,
            Sector::NE => LedId::Led5,
            Sector::E => LedId::Led7,
            Sector::SE => LedId::Led9,
            Sector::S => LedId::Led10,
            Sector::SW => LedId::Led8,
            Sector::W => LedId::Led6,
            Sector::NW => LedId::Led4,
        }
    }

    /// The sector of a bearing: `None` exactly for a bearing outside the
    /// half-open circle from -180 to 180 degrees.
    #[verifier::when_used_as_spec(spec_of)]
    pub fn of(bearing: Angle) -> (sector: Option<Sector>)
        ensures
            sector == Sector::spec_of(bearing),
            sector is Some <==> bearing.spec_in_range(),
    {
        proof {
            lemma_sectors_partition(bearing);
        }
        if between(-22, 22).contains(bearing) {
            Some(Sector::N)
        } else if between(22, 67).contains(bearing) {
            Some(Sector::NE)
        } else if between(67, 112).contains(bearing) {
            Some(Sector::E)
        } else if between(112, 157).contains(bearing) {
            Some(Sector::SE)
        } else if between(157, 180).contains(bearing) {
            Some(Sector::S)
        } else if between(-180, -157).contains(bearing) {
            Some(Sector::S)
        } else if between(-157, -112).contains(bearing) {
            Some(Sector::SW)
        } else if between(-112, -67).contains(bearing) {
            Some(Sector::W)
        } else if between(-67, -22).contains(bearing) {
            Some(Sector::NW)
        } else {
            None
        }
    }
}

/// The range from `start` degrees up to, but without, `end` degrees.
fn between(start: i16, end: i16) -> (range: RangeF32)
    ensures
        forall|n: Angle|
            #[trigger] range.holds(n) <==> !n.spec_is_nan() && degrees(start as int) <= n.scaled()
                < degrees(end as int),
{
    RangeF32 { start: Angle::from_degrees(start), end: Angle::from_degrees(end) }
}

/// The sectors divide the circle: a bearing in the half-open circle from
/// -180 to 180 degrees lies in exactly one sector, any other bearing in
/// none, and `spec_of` names the sector that holds a bearing.
pub proof fn lemma_sectors_partition(bearing: Angle)
    ensures
        bearing.spec_in_range() <==> exists|s: Sector| s.holds(bearing),
        forall|s: Sector, t: Sector| s.holds(bearing) && t.holds(bearing) ==> s == t,
        forall|s: Sector| s.holds(bearing) <==> Sector::spec_of(bearing) == Some(s),
        Sector::spec_of(bearing) is Some <==> bearing.spec_in_range(),
{
    lemma_pow2_pos(149);
    if bearing.spec_in_range() {
        let s = Sector::spec_of(bearing)->0;
        assert(s.holds(bearing));
    }
}

/// A whole-degree boundary belongs to the sector whose range it opens.
pub proof fn lemma_boundaries_open_sectors(bearing: Angle)
    ensures
        bearing.is_degrees(-22) ==> Sector::spec_of(bearing) == Some(Sector::N),
        bearing.is_degrees(22) ==> Sector::spec_of(bearing) == Some(Sector::NE),
        bearing.is_degrees(67) ==> Sector::spec_of(bearing) == Some(Sector::E),
        bearing.is_degrees(112) ==> Sector::spec_of(bearing) == Some(Sector::SE),
        bearing.is_degrees(157) ==> Sector::spec_of(bearing) == Some(Sector::S),
        bearing.is_degrees(-180) ==> Sector::spec_of(bearing) == Some(Sector::S),
        bearing.is_degrees(-157) ==> Sector::spec_of(bearing) == Some(Sector::SW),
        bearing.is_degrees(-112) ==> Sector::spec_of(bearing) == Some(Sector::W),
        bearing.is_degrees(-67) ==> Sector::spec_of(bearing) == Some(Sector::NW),
        bearing.is_degrees(180) ==> Sector::spec_of(bearing) is None,
{
    lemma_pow2_pos(149);
}

} // verus!
