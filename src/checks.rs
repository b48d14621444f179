//! Marker types that let generated code require, at compile time, that a
//! packed struct's total width is a whole number of bytes.
use vstd::prelude::*;

verus! {

/// Implemented only by the marker of a total width that is a multiple of 8.
pub trait TotalSizeIsMultipleOfEightBits {}

/// Marks a total width whose remainder modulo 8 is 0.
pub struct ZeroMod8 {}

/// Marks a total width whose remainder modulo 8 is 1.
pub struct OneMod8 {}

/// Marks a total width whose remainder modulo 8 is 2.
pub struct TwoMod8 {}

/// Marks a total width whose remainder modulo 8 is 3.
pub struct ThreeMod8 {}

/// Marks a total width whose remainder modulo 8 is 4.
pub struct FourMod8 {}

/// Marks a total width whose remainder modulo 8 is 5.
pub struct FiveMod8 {}

/// Marks a total width whose remainder modulo 8 is 6.
pub struct SixMod8 {}

/// Marks a total width whose remainder modulo 8 is 7.
pub struct SevenMod8 {}

impl TotalSizeIsMultipleOfEightBits for ZeroMod8 {}

/// Maps a remainder modulo 8 to its marker type.
pub trait Mod8Check {
    type Type;
}

/// The remainder `MOD8` of a total width modulo 8, as a type.
pub struct Mod8<const MOD8: usize> {}

impl Mod8Check for Mod8<0> {
    type Type = ZeroMod8;
}

impl Mod8Check for Mod8<1> {
    type Type = OneMod8;
}

impl Mod8Check for Mod8<2> {
    type Type = TwoMod8;
}

impl Mod8Check for Mod8<3> {
    type Type = ThreeMod8;
}

impl Mod8Check for Mod8<4> {
    type Type = FourMod8;
}

impl Mod8Check for Mod8<5> {
    type Type = FiveMod8;
}

impl Mod8Check for Mod8<6> {
    type Type = SixMod8;
}

impl Mod8Check for Mod8<7> {
    type Type = SevenMod8;
}

} // verus!
