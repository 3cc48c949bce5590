//! DMX value granularities: how many consecutive channels one logical
//! value occupies, and the value range that each granularity allows.
use vstd::prelude::*;

verus! {

/// Number of DMX channels that carry one logical value.
#[derive(Debug, Clone, Copy)]
pub enum DmxGranularity {
    Single,
    Double,
    Tripple,
}

impl DmxGranularity {
    /// Smallest raw value of any granularity.
    pub open spec fn spec_min(&self) -> u32 {
        0
    }

    /// Largest raw value: one, two or three full octets.
    pub open spec fn spec_max(&self) -> u32 {
        match self {
            DmxGranularity::Single => 0xff,
            DmxGranularity::Double => 0xffff,
            DmxGranularity::Tripple => 0xffffff,
        }
    }

    pub fn min(&self) -> (r: u32)
        ensures
            r == self.spec_min(),
    {
        0
    }

    pub fn max(&self) -> (r: u32)
        ensures
            r == self.spec_max(),
    {
        match self {
            DmxGranularity::Single => 0xff,
            DmxGranularity::Double => 0xffff,
            DmxGranularity::Tripple => 0xffffff,
        }
    }
}

/// A value that is either constant or ramps linearly between two ends.
#[derive(Debug, Clone)]
pub enum MaybeLinear<T> {
    Constant(T),
    Linear { start: T, end: T },
}

} // verus!
