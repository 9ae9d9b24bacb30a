//! Pseudo-class state of an element, as a set of flags.

use vstd::prelude::*;

verus! {

/// `:focus`.
pub const FOCUS: u64 = 0x2;

/// `:hover`.
pub const HOVER: u64 = 0x4;

/// `:checked`.
pub const CHECKED: u64 = 0x20;

/// `:indeterminate`.
pub const INDETERMINATE: u64 = 0x40;

/// `:placeholder-shown`.
pub const PLACEHOLDER_SHOWN: u64 = 0x80;

/// `:target`.
pub const URLTARGET: u64 = 0x100;

/// `:defined`.
pub const DEFINED: u64 = 0x20000;

/// `:in-range`.
pub const INRANGE: u64 = 0x40000;

/// `:out-of-range`.
pub const OUTOFRANGE: u64 = 0x80000;

/// `:focus-visible`.
pub const FOCUSRING: u64 = 0x100000;

/// `:focus-within`.
pub const FOCUS_WITHIN: u64 = 0x200000;

/// `:paused`.
pub const PAUSED: u64 = 0x400000;

/// `:muted`.
pub const MUTED: u64 = 0x800000;

/// `:seeking`.
pub const SEEKING: u64 = 0x1000000;

/// The bits that hold the level of `:heading()`.
pub const HEADING_LEVEL_BITS: u64 = 0xf0000000000000;

/// A set of pseudo-class state flags.
#[derive(Clone, Copy, Debug, PartialEq, Eq, Hash, Structural)]
pub struct ElementState {
    /// One bit for each flag in the set.
    pub bits: u64,
}

impl ElementState {
    /// The set with these bits.
    pub fn new(bits: u64) -> (state: Self)
        ensures
            state == (ElementState { bits }),
    {
        ElementState { bits }
    }

    /// The set without flags.
    pub fn empty() -> (state: Self)
        ensures
            state == (ElementState { bits: 0 }),
    {
        ElementState { bits: 0 }
    }

    /// The bits of this set.
    pub fn bits(self) -> (bits: u64)
        ensures
            bits == self.bits,
    {
        self.bits
    }

    /// Whether the set has no flag.
    pub open spec fn spec_is_empty(self) -> bool {
        self.bits == 0
    }

    /// Return whether the set has no flag.
    pub fn is_empty(self) -> (empty: bool)
        ensures
            empty == self.spec_is_empty(),
    {
        self.bits == 0
    }

    /// Whether the set has a flag in common with `bits`.
    pub open spec fn meets(self, bits: u64) -> bool {
        self.bits & bits != 0
    }

    /// Return whether two sets have a flag in common.
    pub fn intersects(self, other: ElementState) -> (common: bool)
        ensures
            common == self.meets(other.bits),
    {
        self.bits & other.bits != 0
    }

    /// Return the flags of either set.
    pub fn union(self, other: ElementState) -> (state: ElementState)
        ensures
            state.bits == self.bits | other.bits,
    {
        ElementState { bits: self.bits | other.bits }
    }
}

} // verus!
