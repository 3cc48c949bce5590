//! Scope-filtered change notification: publishers send a mask of the
//! scopes that changed, waiters opt into the scopes they care about.
use vstd::prelude::*;

verus! {

/// Mask bit of the universes scope.
pub const UNIVERSES_BIT: u16 = 1;

/// Mask bit of the endpoints scope.
pub const ENDPOINTS_BIT: u16 = 2;

/// Mask bit of the settings scope.
pub const SETTINGS_BIT: u16 = 4;

/// A set of change scopes, as a bit mask over
/// `{UNIVERSES, ENDPOINTS, SETTINGS}`.
#[derive(Debug, Clone, Copy, PartialEq, Eq, PartialOrd, Ord, Hash, Structural)]
pub struct AdaptScopes {
    pub mask: u16,
}

impl AdaptScopes {
    /// No scope.
    pub fn none() -> (r: Self)
        ensures
            r.mask == 0,
    {
        AdaptScopes { mask: 0 }
    }

    /// The universes scope: the project's universe list changed.
    pub fn universes() -> (r: Self)
        ensures
            r.mask == UNIVERSES_BIT,
    {
        AdaptScopes { mask: UNIVERSES_BIT }
    }

    /// The endpoints scope: the endpoint mapping changed.
    pub fn endpoints() -> (r: Self)
        ensures
            r.mask == ENDPOINTS_BIT,
    {
        AdaptScopes { mask: ENDPOINTS_BIT }
    }

    /// The settings scope: the project settings changed.
    pub fn settings() -> (r: Self)
        ensures
            r.mask == SETTINGS_BIT,
    {
        AdaptScopes { mask: SETTINGS_BIT }
    }

    /// Every scope at once.
    pub fn all() -> (r: Self)
        ensures
            r.mask == UNIVERSES_BIT | ENDPOINTS_BIT | SETTINGS_BIT,
    {
        AdaptScopes { mask: UNIVERSES_BIT | ENDPOINTS_BIT | SETTINGS_BIT }
    }

    pub fn is_empty(&self) -> (r: bool)
        ensures
            r == (self.mask == 0),
    {
        self.mask == 0
    }

    pub fn union(&self, other: &AdaptScopes) -> (r: AdaptScopes)
        ensures
            r.mask == (self.mask | other.mask),
    {
        AdaptScopes { mask: self.mask | other.mask }
    }

    pub fn intersects(&self, other: &AdaptScopes) -> (r: bool)
        ensures
            r == spec_resolves(*self, *other),
    {
        self.mask & other.mask != 0
    }
}

/// Does a wait listening for `listen` resolve on a publication of
/// `published`? Exactly when the two masks intersect.
pub open spec fn spec_resolves(listen: AdaptScopes, published: AdaptScopes) -> bool {
    listen.mask & published.mask != 0
}

/// The decision a waiter makes on each publication: resolve when the
/// published mask intersects the listened scopes, otherwise skip the
/// publication silently.
pub fn wait_resolves(listen: AdaptScopes, published: AdaptScopes) -> (r: bool)
    ensures
        r == spec_resolves(listen, published),
{
    listen.intersects(&published)
}

/// A wait over a run of publications resolves at the first one whose
/// mask intersects the listened scopes; every earlier publication is
/// skipped, and a run with no intersecting mask resolves never.
pub fn first_resolving(publications: &Vec<AdaptScopes>, listen: AdaptScopes) -> (r: Option<usize>)
    ensures
        r matches Some(i) ==> i < publications@.len() && spec_resolves(listen, publications@[i as int])
            && forall|j: int| 0 <= j < i ==> !spec_resolves(listen, #[trigger] publications@[j]),
        r is None ==> forall|j: int|
            0 <= j < publications@.len() ==> !spec_resolves(listen, #[trigger] publications@[j]),
{
    let n = publications.len();
    let mut i: usize = 0;
    while i < n
        invariant
            i <= n,
            n == publications@.len(),
            forall|j: int| 0 <= j < i ==> !spec_resolves(listen, #[trigger] publications@[j]),
        decreases n - i,
    {
        if wait_resolves(listen, publications[i]) {
            return Some(i);
        }
        i += 1;
    }
    None
}

} // verus!
