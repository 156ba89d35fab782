//! Orientation classification: map one raw 3-axis accelerometer sample to the
//! face the object currently rests on, or report that the sample is
//! indeterminate (object in transit or near an edge).

use vstd::prelude::*;

verus! {

/// Raw acceleration magnitude past which an axis counts as pointing straight
/// down, in sensor units.
pub const SIDE_THRESHOLD: i16 = 127;

/// One raw 3-axis accelerometer sample, in signed sensor units.
#[derive(Clone, Copy, PartialEq, Eq, Structural, Debug)]
pub struct Accel {
    pub x: i16,
    pub y: i16,
    pub z: i16,
}

/// The six faces the object can rest on.
#[derive(Clone, Copy, PartialEq, Eq, Structural, Debug)]
pub enum Side {
    One,
    Two,
    Three,
    Four,
    Five,
    Six,
}

/// The integer label 1..=6 that face `s` carries in log records.
pub open spec fn side_id_spec(s: Side) -> u8 {
    match s {
        Side::One => 1,
        Side::Two => 2,
        Side::Three => 3,
        Side::Four => 4,
        Side::Five => 5,
        Side::Six => 6,
    }
}

/// The integer label 1..=6 that face `s` carries in log records.
pub fn side_id(s: Side) -> (r: u8)
    ensures
        r == side_id_spec(s),
{
    match s {
        Side::One => 1,
        Side::Two => 2,
        Side::Three => 3,
        Side::Four => 4,
        Side::Five => 5,
        Side::Six => 6,
    }
}

/// The face a sample classifies to. Axes are tested in the fixed priority
/// order +z, -z, +y, -y, +x, -x, and the first axis exceeding the threshold
/// in the tested direction decides; a sample with no axis past the threshold
/// is indeterminate (`None`).
pub open spec fn classify(a: Accel) -> Option<Side> {
    if a.z > SIDE_THRESHOLD {
        Some(Side::One)
    } else if a.z < -SIDE_THRESHOLD {
        Some(Side::Two)
    } else if a.y > SIDE_THRESHOLD {
        Some(Side::Three)
    } else if a.y < -SIDE_THRESHOLD {
        Some(Side::Four)
    } else if a.x > SIDE_THRESHOLD {
        Some(Side::Five)
    } else if a.x < -SIDE_THRESHOLD {
        Some(Side::Six)
    } else {
        None
    }
}

impl Accel {
    /// Classify this sample; `None` means "no information this tick" and must
    /// be filtered by the caller, never treated as an error.
    pub fn get_side(&self) -> (r: Option<Side>)
        ensures
            r == classify(*self),
    {
        if self.z > SIDE_THRESHOLD {
            Some(Side::One)
        } else if self.z < -SIDE_THRESHOLD {
            Some(Side::Two)
        } else if self.y > SIDE_THRESHOLD {
            Some(Side::Three)
        } else if self.y < -SIDE_THRESHOLD {
            Some(Side::Four)
        } else if self.x > SIDE_THRESHOLD {
            Some(Side::Five)
        } else if self.x < -SIDE_THRESHOLD {
            Some(Side::Six)
        } else {
            None
        }
    }
}

/// A sample in which exactly one axis/sign exceeds the threshold classifies
/// to the face mapped to that axis/sign.
pub proof fn lemma_single_axis_decides(a: Accel)
    ensures
        a.z > SIDE_THRESHOLD && -SIDE_THRESHOLD <= a.y <= SIDE_THRESHOLD
            && -SIDE_THRESHOLD <= a.x <= SIDE_THRESHOLD ==> classify(a) == Some(Side::One),
        a.z < -SIDE_THRESHOLD && -SIDE_THRESHOLD <= a.y <= SIDE_THRESHOLD
            && -SIDE_THRESHOLD <= a.x <= SIDE_THRESHOLD ==> classify(a) == Some(Side::Two),
        a.y > SIDE_THRESHOLD && -SIDE_THRESHOLD <= a.z <= SIDE_THRESHOLD
            && -SIDE_THRESHOLD <= a.x <= SIDE_THRESHOLD ==> classify(a) == Some(Side::Three),
        a.y < -SIDE_THRESHOLD && -SIDE_THRESHOLD <= a.z <= SIDE_THRESHOLD
            && -SIDE_THRESHOLD <= a.x <= SIDE_THRESHOLD ==> classify(a) == Some(Side::Four),
        a.x > SIDE_THRESHOLD && -SIDE_THRESHOLD <= a.z <= SIDE_THRESHOLD
            && -SIDE_THRESHOLD <= a.y <= SIDE_THRESHOLD ==> classify(a) == Some(Side::Five),
        a.x < -SIDE_THRESHOLD && -SIDE_THRESHOLD <= a.z <= SIDE_THRESHOLD
            && -SIDE_THRESHOLD <= a.y <= SIDE_THRESHOLD ==> classify(a) == Some(Side::Six),
{
}

/// The tie-break is a fixed priority order, not a magnitude comparison: when
/// several axes exceed the threshold, the earliest of +z, -z, +y, -y, +x, -x
/// decides, whatever the relative magnitudes.
pub proof fn lemma_priority_order(a: Accel)
    ensures
        a.z > SIDE_THRESHOLD ==> classify(a) == Some(Side::One),
        !(a.z > SIDE_THRESHOLD) && a.z < -SIDE_THRESHOLD ==> classify(a) == Some(Side::Two),
        -SIDE_THRESHOLD <= a.z <= SIDE_THRESHOLD && a.y > SIDE_THRESHOLD ==> classify(a)
            == Some(Side::Three),
        -SIDE_THRESHOLD <= a.z <= SIDE_THRESHOLD && !(a.y > SIDE_THRESHOLD) && a.y
            < -SIDE_THRESHOLD ==> classify(a) == Some(Side::Four),
        -SIDE_THRESHOLD <= a.z <= SIDE_THRESHOLD && -SIDE_THRESHOLD <= a.y <= SIDE_THRESHOLD
            && a.x > SIDE_THRESHOLD ==> classify(a) == Some(Side::Five),
        -SIDE_THRESHOLD <= a.z <= SIDE_THRESHOLD && -SIDE_THRESHOLD <= a.y <= SIDE_THRESHOLD && !(
        a.x > SIDE_THRESHOLD) && a.x < -SIDE_THRESHOLD ==> classify(a) == Some(Side::Six),
{
}

/// A sample with every component inside `[-SIDE_THRESHOLD, SIDE_THRESHOLD]`
/// is indeterminate, and only such a sample is.
pub proof fn lemma_indeterminate(a: Accel)
    ensures
        classify(a) is None <==> (-SIDE_THRESHOLD <= a.x <= SIDE_THRESHOLD && -SIDE_THRESHOLD
            <= a.y <= SIDE_THRESHOLD && -SIDE_THRESHOLD <= a.z <= SIDE_THRESHOLD),
{
}

} // verus!
