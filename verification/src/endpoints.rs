//! Endpoint configuration: which output drivers a universe feeds,
//! and at what cadence they put frames on the wire.
use vstd::prelude::*;

use crate::universe::UniverseId;

verus! {

/// Which universes feed which outputs. Keys are unique; the order of
/// entries carries no meaning.
#[derive(Debug, Clone)]
pub struct EndpointMapping {
    pub endpoints: Vec<(UniverseId, Vec<EndpointConfig>)>,
}

impl EndpointMapping {
    /// Every universe is mapped at most once.
    pub open spec fn wf(self) -> bool {
        forall|i: int, j: int|
            0 <= i < j < self.endpoints@.len() ==> (#[trigger] self.endpoints@[i]).0 != (
            #[trigger] self.endpoints@[j]).0
    }

    /// No universe feeds any output.
    pub fn empty() -> (r: Self)
        ensures
            r.wf(),
            r.endpoints@.len() == 0,
    {
        EndpointMapping { endpoints: Vec::new() }
    }
}

/// One configured output path for a universe.
#[derive(Debug)]
pub enum EndpointConfig {
    Logger,
    ArtNet,
    Sacn { universe: u16, speed: EndpointSpeed },
    Usb { port: String, speed: EndpointSpeed },
}

impl Clone for EndpointConfig {
    fn clone(&self) -> (r: Self)
        ensures
            r == *self,
    {
        match self {
            EndpointConfig::Logger => EndpointConfig::Logger,
            EndpointConfig::ArtNet => EndpointConfig::ArtNet,
            EndpointConfig::Sacn { universe, speed } => EndpointConfig::Sacn {
                universe: *universe,
                speed: *speed,
            },
            EndpointConfig::Usb { port, speed } => EndpointConfig::Usb {
                port: port.clone(),
                speed: *speed,
            },
        }
    }
}

/// How often a driver emits, as a named rate or a custom period.
#[derive(Debug, Clone, Copy, PartialEq, Eq, Hash, Structural)]
pub enum EndpointSpeed {
    Slow,
    Medium,
    Fast,
    Ultra,
    Custom(u64),
}

/// Names what `Duration::from_millis` returns, so that contracts can
/// speak of the period a millisecond count was turned into.
pub uninterp spec fn spec_duration_of_millis(ms: u64) -> core::time::Duration;

/// Relies on `core::time::Duration::from_millis`: the result is a
/// function of the millisecond count alone.
#[verifier::external_body]
fn duration_from_millis(ms: u64) -> (r: core::time::Duration)
    ensures
        r == spec_duration_of_millis(ms),
{
    core::time::Duration::from_millis(ms)
}

impl EndpointSpeed {
    /// The period in milliseconds: 200, 100, 30 and 5 for the named
    /// rates, and a custom period as given.
    pub open spec fn spec_ms(self) -> u64 {
        match self {
            EndpointSpeed::Slow => 200,
            EndpointSpeed::Medium => 100,
            EndpointSpeed::Fast => 30,
            EndpointSpeed::Ultra => 5,
            EndpointSpeed::Custom(ms) => ms,
        }
    }

    pub fn ms(&self) -> (r: u64)
        ensures
            r == self.spec_ms(),
    {
        match self {
            EndpointSpeed::Slow => 200,
            EndpointSpeed::Medium => 100,
            EndpointSpeed::Fast => 30,
            EndpointSpeed::Ultra => 5,
            EndpointSpeed::Custom(ms) => *ms,
        }
    }

    /// The period as a `Duration`.
    pub fn duration(&self) -> (r: core::time::Duration)
        ensures
            r == spec_duration_of_millis(self.spec_ms()),
    {
        duration_from_millis(self.ms())
    }
}

} // verus!
