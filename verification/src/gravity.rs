//! Gravity and description derivation from the sentinel cell.
//!
//! Both functions read the same raw, pre-remap byte at grid position
//! (0, 0) of a record's payload, and produce independent outputs
//! stored in different fields of the record.

use vstd::prelude::*;

verus! {

/// A 3-component gravity vector. Every component that occurs is an
/// exact multiple of one tenth, so each is stored as a signed count
/// of tenths: a component value of 2 is stored as 20, a component
/// value of -0.5 as -5.
#[derive(Clone, Copy, Debug, PartialEq, Eq, Structural)]
pub struct GravityVector {
    pub x_tenths: i32,
    pub y_tenths: i32,
    pub z_tenths: i32,
}

/// The gravity vector derived from the raw sentinel byte: bytes 3
/// through 7 select one of five fixed vectors, every other byte
/// selects none.
pub open spec fn gravity_of(v: u8) -> Option<GravityVector> {
    if v == 3 {
        Some(GravityVector { x_tenths: 0, y_tenths: 0, z_tenths: 0 })
    } else if v == 4 {
        Some(GravityVector { x_tenths: 20, y_tenths: 0, z_tenths: 0 })
    } else if v == 5 {
        Some(GravityVector { x_tenths: 100, y_tenths: 0, z_tenths: 0 })
    } else if v == 6 {
        Some(GravityVector { x_tenths: 200, y_tenths: 0, z_tenths: 0 })
    } else if v == 7 {
        Some(GravityVector { x_tenths: -10i32, y_tenths: -5i32, z_tenths: 0 })
    } else {
        None
    }
}

/// The description derived from the raw sentinel byte.
pub open spec fn description_of(v: u8) -> Seq<char> {
    if v == 3 {
        "Zero Gravity"@
    } else if v == 4 {
        "5G (Light Gravity)"@
    } else if v == 5 {
        "10G (Normal Gravity)"@
    } else if v == 6 {
        "20G (Heavy Gravity)"@
    } else if v == 7 {
        "Queer Gravity (Random)"@
    } else {
        "Standard Level"@
    }
}

/// Determine the gravity vector from the raw value at grid position
/// (0, 0), captured before the remap table overwrites that cell.
pub fn determine_gravity(gravity_index: u8) -> (r: Option<GravityVector>)
    ensures
        r == gravity_of(gravity_index),
{
    match gravity_index {
        3 => Some(GravityVector { x_tenths: 0, y_tenths: 0, z_tenths: 0 }),
        4 => Some(GravityVector { x_tenths: 20, y_tenths: 0, z_tenths: 0 }),
        5 => Some(GravityVector { x_tenths: 100, y_tenths: 0, z_tenths: 0 }),
        6 => Some(GravityVector { x_tenths: 200, y_tenths: 0, z_tenths: 0 }),
        7 => Some(GravityVector { x_tenths: -10, y_tenths: -5, z_tenths: 0 }),
        _ => None,
    }
}

/// Determine the description from the raw value at grid position
/// (0, 0), captured before the remap table overwrites that cell.
pub fn determine_description(gravity_index: u8) -> (r: String)
    ensures
        r@ == description_of(gravity_index),
{
    match gravity_index {
        3 => String::from_str("Zero Gravity"),
        4 => String::from_str("5G (Light Gravity)"),
        5 => String::from_str("10G (Normal Gravity)"),
        6 => String::from_str("20G (Heavy Gravity)"),
        7 => String::from_str("Queer Gravity (Random)"),
        _ => String::from_str("Standard Level"),
    }
}

} // verus!
