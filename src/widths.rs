//! Field types of every width from 1 to 64 bits, each read and written
//! through the smallest unsigned integer that holds it.
use vstd::prelude::*;

use crate::Specifier;

verus! {

/// A field 1 bit wide.
pub struct B1 {}

impl Specifier for B1 {
    const BITS: usize = 1;

    type ACCESSOR = u8;
}

/// A field 2 bits wide.
pub struct B2 {}

impl Specifier for B2 {
    const BITS: usize = 2;

    type ACCESSOR = u8;
}

/// A field 3 bits wide.
pub struct B3 {}

impl Specifier for B3 {
    const BITS: usize = 3;

    type ACCESSOR = u8;
}

/// A field 4 bits wide.
pub struct B4 {}

impl Specifier for B4 {
    const BITS: usize = 4;

    type ACCESSOR = u8;
}

/// A field 5 bits wide.
pub struct B5 {}

impl Specifier for B5 {
    const BITS: usize = 5;

    type ACCESSOR = u8;
}

/// A field 6 bits wide.
pub struct B6 {}

impl Specifier for B6 {
    const BITS: usize = 6;

    type ACCESSOR = u8;
}

/// A field 7 bits wide.
pub struct B7 {}

impl Specifier for B7 {
    const BITS: usize = 7;

    type ACCESSOR = u8;
}

/// A field 8 bits wide.
pub struct B8 {}

impl Specifier for B8 {
    const BITS: usize = 8;

    type ACCESSOR = u8;
}

/// A field 9 bits wide.
pub struct B9 {}

impl Specifier for B9 {
    const BITS: usize = 9;

    type ACCESSOR = u16;
}

/// A field 10 bits wide.
pub struct B10 {}

impl Specifier for B10 {
    const BITS: usize = 10;

    type ACCESSOR = u16;
}

/// A field 11 bits wide.
pub struct B11 {}

impl Specifier for B11 {
    const BITS: usize = 11;

    type ACCESSOR = u16;
}

/// A field 12 bits wide.
pub struct B12 {}

impl Specifier for B12 {
    const BITS: usize = 12;

    type ACCESSOR = u16;
}

/// A field 13 bits wide.
pub struct B13 {}

impl Specifier for B13 {
    const BITS: usize = 13;

    type ACCESSOR = u16;
}

/// A field 14 bits wide.
pub struct B14 {}

impl Specifier for B14 {
    const BITS: usize = 14;

    type ACCESSOR = u16;
}

/// A field 15 bits wide.
pub struct B15 {}

impl Specifier for B15 {
    const BITS: usize = 15;

    type ACCESSOR = u16;
}

/// A field 16 bits wide.
pub struct B16 {}

impl Specifier for B16 {
    const BITS: usize = 16;

    type ACCESSOR = u16;
}

/// A field 17 bits wide.
pub struct B17 {}

impl Specifier for B17 {
    const BITS: usize = 17;

    type ACCESSOR = u32;
}

/// A field 18 bits wide.
pub struct B18 {}

impl Specifier for B18 {
    const BITS: usize = 18;

    type ACCESSOR = u32;
}

/// A field 19 bits wide.
pub struct B19 {}

impl Specifier for B19 {
    const BITS: usize = 19;

    type ACCESSOR = u32;
}

/// A field 20 bits wide.
pub struct B20 {}

impl Specifier for B20 {
    const BITS: usize = 20;

    type ACCESSOR = u32;
}

/// A field 21 bits wide.
pub struct B21 {}

impl Specifier for B21 {
    const BITS: usize = 21;

    type ACCESSOR = u32;
}

/// A field 22 bits wide.
pub struct B22 {}

impl Specifier for B22 {
    const BITS: usize = 22;

    type ACCESSOR = u32;
}

/// A field 23 bits wide.
pub struct B23 {}

impl Specifier for B23 {
    const BITS: usize = 23;

    type ACCESSOR = u32;
}

/// A field 24 bits wide.
pub struct B24 {}

impl Specifier for B24 {
    const BITS: usize = 24;

    type ACCESSOR = u32;
}

/// A field 25 bits wide.
pub struct B25 {}

impl Specifier for B25 {
    const BITS: usize = 25;

    type ACCESSOR = u32;
}

/// A field 26 bits wide.
pub struct B26 {}

impl Specifier for B26 {
    const BITS: usize = 26;

    type ACCESSOR = u32;
}

/// A field 27 bits wide.
pub struct B27 {}

impl Specifier for B27 {
    const BITS: usize = 27;

    type ACCESSOR = u32;
}

/// A field 28 bits wide.
pub struct B28 {}

impl Specifier for B28 {
    const BITS: usize = 28;

    type ACCESSOR = u32;
}

/// A field 29 bits wide.
pub struct B29 {}

impl Specifier for B29 {
    const BITS: usize = 29;

    type ACCESSOR = u32;
}

/// A field 30 bits wide.
pub struct B30 {}

impl Specifier for B30 {
    const BITS: usize = 30;

    type ACCESSOR = u32;
}

/// A field 31 bits wide.
pub struct B31 {}

impl Specifier for B31 {
    const BITS: usize = 31;

    type ACCESSOR = u32;
}

/// A field 32 bits wide.
pub struct B32 {}

impl Specifier for B32 {
    const BITS: usize = 32;

    type ACCESSOR = u32;
}

/// A field 33 bits wide.
pub struct B33 {}

impl Specifier for B33 {
    const BITS: usize = 33;

    type ACCESSOR = u64;
}

/// A field 34 bits wide.
pub struct B34 {}

impl Specifier for B34 {
    const BITS: usize = 34;

    type ACCESSOR = u64;
}

/// A field 35 bits wide.
pub struct B35 {}

impl Specifier for B35 {
    const BITS: usize = 35;

    type ACCESSOR = u64;
}

/// A field 36 bits wide.
pub struct B36 {}

impl Specifier for B36 {
    const BITS: usize = 36;

    type ACCESSOR = u64;
}

/// A field 37 bits wide.
pub struct B37 {}

impl Specifier for B37 {
    const BITS: usize = 37;

    type ACCESSOR = u64;
}

/// A field 38 bits wide.
pub struct B38 {}

impl Specifier for B38 {
    const BITS: usize = 38;

    type ACCESSOR = u64;
}

/// A field 39 bits wide.
pub struct B39 {}

impl Specifier for B39 {
    const BITS: usize = 39;

    type ACCESSOR = u64;
}

/// A field 40 bits wide.
pub struct B40 {}

impl Specifier for B40 {
    const BITS: usize = 40;

    type ACCESSOR = u64;
}

/// A field 41 bits wide.
pub struct B41 {}

impl Specifier for B41 {
    const BITS: usize = 41;

    type ACCESSOR = u64;
}

/// A field 42 bits wide.
pub struct B42 {}

impl Specifier for B42 {
    const BITS: usize = 42;

    type ACCESSOR = u64;
}

/// A field 43 bits wide.
pub struct B43 {}

impl Specifier for B43 {
    const BITS: usize = 43;

    type ACCESSOR = u64;
}

/// A field 44 bits wide.
pub struct B44 {}

impl Specifier for B44 {
    const BITS: usize = 44;

    type ACCESSOR = u64;
}

/// A field 45 bits wide.
pub struct B45 {}

impl Specifier for B45 {
    const BITS: usize = 45;

    type ACCESSOR = u64;
}

/// A field 46 bits wide.
pub struct B46 {}

impl Specifier for B46 {
    const BITS: usize = 46;

    type ACCESSOR = u64;
}

/// A field 47 bits wide.
pub struct B47 {}

impl Specifier for B47 {
    const BITS: usize = 47;

    type ACCESSOR = u64;
}

/// A field 48 bits wide.
pub struct B48 {}

impl Specifier for B48 {
    const BITS: usize = 48;

    type ACCESSOR = u64;
}

/// A field 49 bits wide.
pub struct B49 {}

impl Specifier for B49 {
    const BITS: usize = 49;

    type ACCESSOR = u64;
}

/// A field 50 bits wide.
pub struct B50 {}

impl Specifier for B50 {
    const BITS: usize = 50;

    type ACCESSOR = u64;
}

/// A field 51 bits wide.
pub struct B51 {}

impl Specifier for B51 {
    const BITS: usize = 51;

    type ACCESSOR = u64;
}

/// A field 52 bits wide.
pub struct B52 {}

impl Specifier for B52 {
    const BITS: usize = 52;

    type ACCESSOR = u64;
}

/// A field 53 bits wide.
pub struct B53 {}

impl Specifier for B53 {
    const BITS: usize = 53;

    type ACCESSOR = u64;
}

/// A field 54 bits wide.
pub struct B54 {}

impl Specifier for B54 {
    const BITS: usize = 54;

    type ACCESSOR = u64;
}

/// A field 55 bits wide.
pub struct B55 {}

impl Specifier for B55 {
    const BITS: usize = 55;

    type ACCESSOR = u64;
}

/// A field 56 bits wide.
pub struct B56 {}

impl Specifier for B56 {
    const BITS: usize = 56;

    type ACCESSOR = u64;
}

/// A field 57 bits wide.
pub struct B57 {}

impl Specifier for B57 {
    const BITS: usize = 57;

    type ACCESSOR = u64;
}

/// A field 58 bits wide.
pub struct B58 {}

impl Specifier for B58 {
    const BITS: usize = 58;

    type ACCESSOR = u64;
}

/// A field 59 bits wide.
pub struct B59 {}

impl Specifier for B59 {
    const BITS: usize = 59;

    type ACCESSOR = u64;
}

/// A field 60 bits wide.
pub struct B60 {}

impl Specifier for B60 {
    const BITS: usize = 60;

    type ACCESSOR = u64;
}

/// A field 61 bits wide.
pub struct B61 {}

impl Specifier for B61 {
    const BITS: usize = 61;

    type ACCESSOR = u64;
}

/// A field 62 bits wide.
pub struct B62 {}

impl Specifier for B62 {
    const BITS: usize = 62;

    type ACCESSOR = u64;
}

/// A field 63 bits wide.
pub struct B63 {}

impl Specifier for B63 {
    const BITS: usize = 63;

    type ACCESSOR = u64;
}

/// A field 64 bits wide.
pub struct B64 {}

impl Specifier for B64 {
    const BITS: usize = 64;

    type ACCESSOR = u64;
}

} // verus!
