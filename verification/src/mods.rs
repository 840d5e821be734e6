//! Gameplay modifier bitsets.
//!
//! A play carries a 32-bit modifier set; each modifier occupies one bit.  The
//! bit positions follow the game's replay format (half-time is bit 8,
//! double-time bit 6, nightcore bit 9, random bit 21, and bit 29 marks the
//! alternate "score v2" scoring mode).

use vstd::prelude::*;

verus! {

/// Easy modifier bit.
pub const MOD_EASY: u32 = 0x2;

/// Hard-rock modifier bit.
pub const MOD_HARD_ROCK: u32 = 0x10;

/// Double-time modifier bit.
pub const MOD_DOUBLE_TIME: u32 = 0x40;

/// Half-time modifier bit.
pub const MOD_HALF_TIME: u32 = 0x100;

/// Nightcore modifier bit; the game sets it together with double-time.
pub const MOD_NIGHTCORE: u32 = 0x200;

/// Random modifier bit; plays carrying it are excluded from rating.
pub const MOD_RANDOM: u32 = 0x20_0000;

/// Score-v2 scoring-mode bit; selects the alternate accuracy weighting.
pub const MOD_SCORE_V2: u32 = 0x2000_0000;

/// A set of gameplay modifiers, one bit per modifier.
#[derive(Clone, Copy, PartialEq, Eq, Structural, Debug)]
pub struct Mods {
    pub bits: u32,
}

impl Mods {
    /// Whether the given modifier bit is set.
    pub open spec fn spec_has(self, flag: u32) -> bool {
        self.bits & flag != 0
    }

    /// Half-time is set.
    pub open spec fn is_half_time(self) -> bool {
        self.spec_has(MOD_HALF_TIME)
    }

    /// Double-time or nightcore is set.
    pub open spec fn is_double_time(self) -> bool {
        self.spec_has(MOD_DOUBLE_TIME) || self.spec_has(MOD_NIGHTCORE)
    }

    /// Random is set.
    pub open spec fn is_random(self) -> bool {
        self.spec_has(MOD_RANDOM)
    }

    /// Score v2 is set.
    pub open spec fn is_score_v2(self) -> bool {
        self.spec_has(MOD_SCORE_V2)
    }

    /// Wraps a raw bitset.
    pub fn new(bits: u32) -> (r: Mods)
        ensures
            r.bits == bits,
    {
        Mods { bits }
    }

    /// The empty modifier set.
    pub fn none() -> (r: Mods)
        ensures
            r.bits == 0,
    {
        Mods { bits: 0 }
    }

    /// Tests the given modifier bit.
    pub fn has(self, flag: u32) -> (r: bool)
        ensures
            r == self.spec_has(flag),
    {
        self.bits & flag != 0
    }

    /// Tests the half-time bit.
    pub fn half_time(self) -> (r: bool)
        ensures
            r == self.is_half_time(),
    {
        self.has(MOD_HALF_TIME)
    }

    /// Tests for double-time or nightcore.
    pub fn double_time(self) -> (r: bool)
        ensures
            r == self.is_double_time(),
    {
        self.has(MOD_DOUBLE_TIME) || self.has(MOD_NIGHTCORE)
    }

    /// Tests the random bit.
    pub fn random(self) -> (r: bool)
        ensures
            r == self.is_random(),
    {
        self.has(MOD_RANDOM)
    }

    /// Tests the score-v2 bit.
    pub fn score_v2(self) -> (r: bool)
        ensures
            r == self.is_score_v2(),
    {
        self.has(MOD_SCORE_V2)
    }
}

} // verus!
