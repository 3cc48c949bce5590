//! The fixture library loader's externally visible state. The
//! loader itself (download, unpack, parse) is an outside
//! collaborator; the core reads its status and its blueprints.
use vstd::prelude::*;

verus! {

/// Where the fixture library loader stands.
#[derive(Debug, Clone, Copy, PartialEq, Eq, Structural)]
pub enum OflState {
    Uninitialized,
    Loading,
    Idle,
    Reading,
}

} // verus!
