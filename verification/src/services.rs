//! The RPC surface: service tags, the handshake dispatch, and the
//! event types the services publish.
use vstd::prelude::*;
use vstd::view::View as ValueView;

verus! {

/// The 5-byte tag a client sends first on every new connection.
pub type ServiceIdentifier = [u8; 5];

/// The tag of the general service: `genrl`.
pub open spec fn spec_general_ident() -> Seq<u8> {
    seq![103u8, 101u8, 110u8, 114u8, 108u8]
}

/// The tag of the project-selection service: `prjsl`.
pub open spec fn spec_project_selection_ident() -> Seq<u8> {
    seq![112u8, 114u8, 106u8, 115u8, 108u8]
}

/// The tag of the project service: `prjts`.
pub open spec fn spec_project_ident() -> Seq<u8> {
    seq![112u8, 114u8, 106u8, 116u8, 115u8]
}

/// Names the general service on the wire.
pub struct GeneralServiceIdent;

impl GeneralServiceIdent {
    pub fn ident() -> (r: ServiceIdentifier)
        ensures
            r@ == spec_general_ident(),
    {
        let r: ServiceIdentifier = [103, 101, 110, 114, 108];
        proof {
            assert(r@ =~= spec_general_ident());
        }
        r
    }
}

/// Names the project-selection service on the wire.
pub struct ProjectSelectionServiceIdent;

impl ProjectSelectionServiceIdent {
    pub fn ident() -> (r: ServiceIdentifier)
        ensures
            r@ == spec_project_selection_ident(),
    {
        let r: ServiceIdentifier = [112, 114, 106, 115, 108];
        proof {
            assert(r@ =~= spec_project_selection_ident());
        }
        r
    }
}

/// Names the project service on the wire.
pub struct ProjectServiceIdent;

impl ProjectServiceIdent {
    pub fn ident() -> (r: ServiceIdentifier)
        ensures
            r@ == spec_project_ident(),
    {
        let r: ServiceIdentifier = [112, 114, 106, 116, 115];
        proof {
            assert(r@ =~= spec_project_ident());
        }
        r
    }
}

/// The three services a connection can ask for.
#[derive(Debug, Clone, Copy, PartialEq, Eq, Structural)]
pub enum ServiceKind {
    General,
    ProjectSelection,
    Project,
}

/// Are the five bytes of `tag` exactly `a b c d e`?
fn tag_is(tag: &[u8], a: u8, b: u8, c: u8, d: u8, e: u8) -> (r: bool)
    ensures
        r == (tag@ == seq![a, b, c, d, e]),
{
    if tag.len() == 5 {
        let eq = tag[0] == a && tag[1] == b && tag[2] == c && tag[3] == d && tag[4] == e;
        proof {
            if eq {
                assert(tag@ =~= seq![a, b, c, d, e]);
            } else {
                assert(seq![a, b, c, d, e][0] == a);
                assert(seq![a, b, c, d, e][1] == b);
                assert(seq![a, b, c, d, e][2] == c);
                assert(seq![a, b, c, d, e][3] == d);
                assert(seq![a, b, c, d, e][4] == e);
            }
        }
        eq
    } else {
        proof {
            assert(seq![a, b, c, d, e].len() == 5);
        }
        false
    }
}

/// The handshake dispatch: which service the first bytes of a
/// connection name. An unknown or short tag names none, and the
/// connection is rejected.
pub fn identify_service(tag: &[u8]) -> (r: Option<ServiceKind>)
    ensures
        r == Some(ServiceKind::General) <==> tag@ == spec_general_ident(),
        r == Some(ServiceKind::ProjectSelection) <==> tag@ == spec_project_selection_ident(),
        r == Some(ServiceKind::Project) <==> tag@ == spec_project_ident(),
        r is None <==> tag@ != spec_general_ident() && tag@ != spec_project_selection_ident()
            && tag@ != spec_project_ident(),
{
    if tag_is(tag, 103, 101, 110, 114, 108) {
        Some(ServiceKind::General)
    } else if tag_is(tag, 112, 114, 106, 115, 108) {
        Some(ServiceKind::ProjectSelection)
    } else if tag_is(tag, 112, 114, 106, 116, 115) {
        Some(ServiceKind::Project)
    } else {
        None
    }
}

/// The general service's liveness reply.
#[derive(Debug, Clone, Copy, PartialEq, Eq, Structural)]
pub struct Alive;

/// The two screens a client can sit on; which one is valid depends
/// on whether a project is loaded.
#[derive(Debug, Clone, Copy, PartialEq, Eq, Structural)]
pub enum View {
    Project,
    Edit,
}

/// The process-wide event channel's payload.
#[derive(Debug, Clone, PartialEq)]
pub enum Info {
    Idle,
    Shutdown,
    Saved,
    Autosaved,
    Warning { title: String, msg: String },
    ProjectInfo { info: ProjectInfo },
}

/// Project-scoped change events.
#[derive(Debug, Clone, Copy, PartialEq, Eq, Structural)]
pub enum ProjectInfo {
    BlueprintsChanged,
    UniverseListChanged,
    SettingsChanged,
}

impl core::convert::From<ProjectInfo> for Info {
    fn from(value: ProjectInfo) -> (r: Info) {
        Info::ProjectInfo { info: value }
    }
}

impl vstd::std_specs::convert::FromSpecImpl<ProjectInfo> for Info {
    open spec fn obeys_from_spec() -> bool {
        true
    }

    open spec fn from_spec(t: ProjectInfo) -> Self {
        Info::ProjectInfo { info: t }
    }
}

} // verus!
