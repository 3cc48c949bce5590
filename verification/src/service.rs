//! The shared service object: the active project, its validity flag,
//! and the operations the three RPC services perform on them.
//!
//! The async shell owns the locks, channels and sockets; every
//! decision and mutation stands here.
use vstd::prelude::*;
use vstd::view::View as ValueView;
use vstd::multiset::Multiset;

use crate::adapt::{AdaptScopes, ENDPOINTS_BIT, SETTINGS_BIT, UNIVERSES_BIT};
use crate::blueprint::FixtureBlueprint;
use crate::endpoints::EndpointMapping;
use crate::project::{
    now_timestamp, project_file_name, spec_slug, ProjectMetadata, ProjectSettings, ProjectType,
    Timestamp,
};
use crate::text::{
    lemma_lex_le_total, lemma_lex_le_trans, spec_decimal_chars, spec_lex_le, str_le,
    u64_to_string,
};
use crate::services::{Alive, View};
use crate::universe::{FixtureUniverse, UniverseId};

verus! {

/// The stem a project file is addressed by.
pub type ProjectIdent = String;

/// What a project-scoped call can fail with.
#[derive(Debug, Clone, PartialEq)]
pub enum ProjectServiceError {
    InvalidProject,
    SavingFailed(String),
    BlueprintListFailed(String),
    RemocError(String),
}

impl ProjectServiceError {
    /// The error's wording.
    pub fn message(&self) -> (r: String)
        ensures
            r@ == match *self {
                ProjectServiceError::InvalidProject => "It is no valid project loaded!"@,
                ProjectServiceError::SavingFailed(s) => "Saving Project Failed: "@ + s@,
                ProjectServiceError::BlueprintListFailed(s) =>
                    "Listing available fixture blueprints failed: "@ + s@,
                ProjectServiceError::RemocError(s) => "Network communication error: "@ + s@,
            },
    {
        match self {
            ProjectServiceError::InvalidProject => "It is no valid project loaded!".to_owned(),
            ProjectServiceError::SavingFailed(s) => {
                let mut r = "Saving Project Failed: ".to_owned();
                r.append(s.as_str());
                r
            },
            ProjectServiceError::BlueprintListFailed(s) => {
                let mut r = "Listing available fixture blueprints failed: ".to_owned();
                r.append(s.as_str());
                r
            },
            ProjectServiceError::RemocError(s) => {
                let mut r = "Network communication error: ".to_owned();
                r.append(s.as_str());
                r
            },
        }
    }
}

/// What a project-selection call can fail with.
#[derive(Debug, Clone, PartialEq)]
pub enum ProjectSelectionServiceError {
    ProjectListError(String),
    ProjectCreateError(String),
    ProjectOpenError(String),
    ProjectDeleteError(String),
    RemocError(String),
}

impl ProjectSelectionServiceError {
    /// The error's wording.
    pub fn message(&self) -> (r: String)
        ensures
            r@ == match *self {
                ProjectSelectionServiceError::ProjectListError(s) =>
                    "Failed to list all projects: "@ + s@,
                ProjectSelectionServiceError::ProjectCreateError(s) =>
                    "Failed to create the project: "@ + s@,
                ProjectSelectionServiceError::ProjectOpenError(s) =>
                    "Failed to open project: "@ + s@,
                ProjectSelectionServiceError::ProjectDeleteError(s) =>
                    "Failed to delete the project: "@ + s@,
                ProjectSelectionServiceError::RemocError(s) =>
                    "Network communication error: "@ + s@,
            },
    {
        match self {
            ProjectSelectionServiceError::ProjectListError(s) => {
                let mut r = "Failed to list all projects: ".to_owned();
                r.append(s.as_str());
                r
            },
            ProjectSelectionServiceError::ProjectCreateError(s) => {
                let mut r = "Failed to create the project: ".to_owned();
                r.append(s.as_str());
                r
            },
            ProjectSelectionServiceError::ProjectOpenError(s) => {
                let mut r = "Failed to open project: ".to_owned();
                r.append(s.as_str());
                r
            },
            ProjectSelectionServiceError::ProjectDeleteError(s) => {
                let mut r = "Failed to delete the project: ".to_owned();
                r.append(s.as_str());
                r
            },
            ProjectSelectionServiceError::RemocError(s) => {
                let mut r = "Network communication error: ".to_owned();
                r.append(s.as_str());
                r
            },
        }
    }
}

/// The persistent root entity.
#[derive(Debug, Clone)]
pub struct Project {
    pub metadata: ProjectMetadata,
    pub blueprints: Vec<FixtureBlueprint>,
    pub settings: ProjectSettings,
    pub universes: Vec<FixtureUniverse>,
    pub endpoint_mapping: EndpointMapping,
}

impl Project {
    /// Universes are identified by `u16`, each is full-size, and the
    /// endpoint mapping maps each universe at most once.
    pub open spec fn wf(self) -> bool {
        &&& self.universes@.len() <= u16::MAX
        &&& forall|i: int| 0 <= i < self.universes@.len() ==> (#[trigger] self.universes@[i]).wf()
        &&& self.endpoint_mapping.wf()
    }

    /// The default (not yet valid) project: a placeholder name, one
    /// empty universe, autosave every thirty minutes, save on quit.
    pub fn new() -> (r: Self)
        ensures
            r.wf(),
            r.metadata.name@ == "Default invalid project"@,
            r.metadata.file_name@ == Seq::<char>::empty(),
            r.metadata.project_type == ProjectType::Json,
            r.blueprints@.len() == 0,
            r.settings == (ProjectSettings { save_on_quit: true, autosave: Some(1800000u64) }),
            r.universes@.len() == 1,
            r.endpoint_mapping.endpoints@.len() == 0,
    {
        proof {
            reveal_strlit("");
            assert(""@ =~= Seq::<char>::empty());
        }
        let now = now_timestamp();
        let mut universes: Vec<FixtureUniverse> = Vec::new();
        universes.push(FixtureUniverse::empty());
        Project {
            metadata: ProjectMetadata {
                name: "Default invalid project".to_owned(),
                last_saved: now,
                created_at: now,
                file_name: "".to_owned(),
                project_type: ProjectType::Json,
            },
            blueprints: Vec::new(),
            settings: ProjectSettings { save_on_quit: true, autosave: Some(1800000) },
            universes,
            endpoint_mapping: EndpointMapping::empty(),
        }
    }

    /// Prepare the project for its disk write: stamp `last_saved`
    /// with the current instant, clear the transient fields, and
    /// hand back what the write and the restore need — the file stem
    /// and the encoding.
    pub fn begin_save(&mut self) -> (r: (String, ProjectType))
        ensures
            r.0 == old(self).metadata.file_name,
            r.1 == old(self).metadata.project_type,
            final(self).metadata.name == old(self).metadata.name,
            final(self).metadata.created_at == old(self).metadata.created_at,
            final(self).metadata.file_name@ == Seq::<char>::empty(),
            final(self).metadata.project_type == ProjectType::Invalid,
            final(self).blueprints == old(self).blueprints,
            final(self).settings == old(self).settings,
            final(self).universes == old(self).universes,
            final(self).endpoint_mapping == old(self).endpoint_mapping,
    {
        let identifier = self.metadata.file_name.clone();
        let kind = self.metadata.project_type;
        self.metadata.last_saved = now_timestamp();
        self.metadata.file_name = "".to_owned();
        self.metadata.project_type = ProjectType::Invalid;
        proof {
            reveal_strlit("");
            assert(""@ =~= Seq::<char>::empty());
        }
        (identifier, kind)
    }

    /// Put the transient fields back after the disk write.
    pub fn finish_save(&mut self, identifier: String, kind: ProjectType)
        ensures
            final(self).metadata == spec_stamped(old(self).metadata, kind, identifier),
            final(self).blueprints == old(self).blueprints,
            final(self).settings == old(self).settings,
            final(self).universes == old(self).universes,
            final(self).endpoint_mapping == old(self).endpoint_mapping,
    {
        self.metadata.file_name = identifier;
        self.metadata.project_type = kind;
    }
}

/// A metadata record stamped with the kind and stem of the file it
/// came from.
pub open spec fn spec_stamped(
    m: ProjectMetadata,
    kind: ProjectType,
    ident: String,
) -> ProjectMetadata {
    ProjectMetadata {
        name: m.name,
        last_saved: m.last_saved,
        created_at: m.created_at,
        file_name: ident,
        project_type: kind,
    }
}

/// The default project, freshly made.
pub fn create_default_project() -> (r: Project)
    ensures
        r.wf(),
        r.universes@.len() == 1,
        r.blueprints@.len() == 0,
{
    Project::new()
}

/// Saving and then loading reproduces the metadata up to
/// `last_saved` and the transient fields: a record whose transients
/// were cleared for the write, stamped back with the kind and stem
/// the file itself carries, is the original record with only
/// `last_saved` renewed.
pub proof fn lemma_save_load_metadata_round_trip(
    m: ProjectMetadata,
    saved: ProjectMetadata,
    now: Timestamp,
)
    requires
        saved.name == m.name,
        saved.created_at == m.created_at,
        saved.last_saved == now,
        saved.file_name@ == Seq::<char>::empty(),
        saved.project_type == ProjectType::Invalid,
    ensures
        ({
            let restored = spec_stamped(saved, m.project_type, m.file_name);
            &&& restored.name == m.name
            &&& restored.created_at == m.created_at
            &&& restored.file_name == m.file_name
            &&& restored.project_type == m.project_type
            &&& restored.last_saved == now
        }),
{
}

/// The shared state behind the three services: the active project
/// and whether it was loaded from disk. (The event channels, the
/// fixture library handle and the runtime controller live with the
/// async shell.)
#[derive(Debug)]
pub struct ServiceImpl {
    pub project: Project,
    pub valid_project: bool,
}

impl ServiceImpl {
    /// The service state at process start: the default project, not
    /// yet valid.
    pub fn create() -> (r: Self)
        ensures
            r.project.wf(),
            !r.valid_project,
    {
        ServiceImpl { project: Project::new(), valid_project: false }
    }

    /// The liveness reply: always well.
    pub fn alive(&self) -> (r: Alive)
        ensures
            r == Alive,
    {
        Alive
    }

    /// Whether a client may sit on `view`: the project-selection
    /// screen while no valid project is loaded, the edit screen once
    /// one is.
    pub fn is_valid_view(&self, view: View) -> (r: bool)
        ensures
            r == match view {
                View::Project => !self.valid_project,
                View::Edit => self.valid_project,
            },
    {
        match view {
            View::Project => !self.valid_project,
            View::Edit => self.valid_project,
        }
    }

    /// Was the active project loaded from disk?
    pub fn project_valid(&self) -> (r: bool)
        ensures
            r == self.valid_project,
    {
        self.valid_project
    }

    /// The active project, or `InvalidProject` when none is loaded —
    /// in one step, so validity and use cannot drift apart.
    pub fn validate_project(&self) -> (r: Result<&Project, ProjectServiceError>)
        ensures
            r is Ok <==> self.valid_project,
            r matches Ok(p) ==> p == &self.project,
            r matches Err(e) ==> e == ProjectServiceError::InvalidProject,
    {
        if !self.valid_project {
            Err(ProjectServiceError::InvalidProject)
        } else {
            Ok(&self.project)
        }
    }

    /// The universes a client can address: `1..=N` for the project's
    /// `N` universes.
    pub fn universe_list(&self) -> (r: Result<Vec<UniverseId>, ProjectServiceError>)
        requires
            self.project.wf(),
        ensures
            r matches Ok(list) && list@.len() == self.project.universes@.len() && forall|i: int|
                0 <= i < list@.len() ==> #[trigger] list@[i] == i + 1,
    {
        let n = self.project.universes.len();
        let mut list: Vec<UniverseId> = Vec::new();
        let mut i: usize = 0;
        while i < n
            invariant
                i <= n,
                n <= u16::MAX,
                list@.len() == i,
                forall|j: int| 0 <= j < i ==> #[trigger] list@[j] == j + 1,
            decreases n - i,
        {
            list.push((i + 1) as UniverseId);
            i += 1;
        }
        Ok(list)
    }

    /// The project's settings; `InvalidProject` when none is loaded.
    pub fn get_settings(&self) -> (r: Result<ProjectSettings, ProjectServiceError>)
        ensures
            r is Ok <==> self.valid_project,
            r matches Ok(s) ==> s == self.project.settings,
            r matches Err(e) ==> e == ProjectServiceError::InvalidProject,
    {
        if !self.valid_project {
            Err(ProjectServiceError::InvalidProject)
        } else {
            Ok(self.project.settings)
        }
    }

    /// Replace the project's settings and say which adapt scope to
    /// notify; `InvalidProject`, with nothing changed, when no
    /// project is loaded.
    pub fn update_settings(&mut self, settings: ProjectSettings) -> (r: Result<
        AdaptScopes,
        ProjectServiceError,
    >)
        ensures
            r is Ok <==> old(self).valid_project,
            r matches Ok(scopes) ==> ({
                &&& scopes.mask == SETTINGS_BIT
                &&& final(self).project.settings == settings
                &&& final(self).project.metadata == old(self).project.metadata
                &&& final(self).project.blueprints == old(self).project.blueprints
                &&& final(self).project.universes == old(self).project.universes
                &&& final(self).project.endpoint_mapping == old(self).project.endpoint_mapping
                &&& final(self).valid_project == old(self).valid_project
            }),
            r matches Err(e) ==> e == ProjectServiceError::InvalidProject && *final(self)
                == *old(self),
    {
        if !self.valid_project {
            Err(ProjectServiceError::InvalidProject)
        } else {
            self.project.settings = settings;
            Ok(AdaptScopes::settings())
        }
    }

    /// The project's metadata; `InvalidProject` when none is loaded.
    pub fn get_meta(&self) -> (r: Result<ProjectMetadata, ProjectServiceError>)
        ensures
            r is Ok <==> self.valid_project,
            r matches Ok(m) ==> m == self.project.metadata,
            r matches Err(e) ==> e == ProjectServiceError::InvalidProject,
    {
        if !self.valid_project {
            Err(ProjectServiceError::InvalidProject)
        } else {
            Ok(clone_metadata(&self.project.metadata))
        }
    }

    /// Install a loaded project as the active one: stamp it with the
    /// kind and stem it was found under, mark the state valid, and
    /// hand back the adapt scopes to notify — all of them.
    pub fn install_project(&mut self, p: Project, kind: ProjectType, ident: String) -> (r:
        AdaptScopes)
        ensures
            final(self).valid_project,
            final(self).project.metadata == spec_stamped(p.metadata, kind, ident),
            final(self).project.blueprints == p.blueprints,
            final(self).project.settings == p.settings,
            final(self).project.universes == p.universes,
            final(self).project.endpoint_mapping == p.endpoint_mapping,
            r.mask == UNIVERSES_BIT | ENDPOINTS_BIT | SETTINGS_BIT,
    {
        let mut p = p;
        p.metadata.project_type = kind;
        p.metadata.file_name = ident;
        self.project = p;
        self.valid_project = true;
        AdaptScopes::all()
    }

    /// The decision of the general `save` call: with no valid
    /// project nothing happens and the reply is `false`; otherwise
    /// the project is prepared for its disk write and the stem and
    /// encoding to write are handed back.
    pub fn begin_general_save(&mut self) -> (r: Option<(String, ProjectType)>)
        ensures
            r is Some <==> old(self).valid_project,
            r is None ==> *final(self) == *old(self),
            r matches Some(pair) ==> ({
                &&& pair.0 == old(self).project.metadata.file_name
                &&& pair.1 == old(self).project.metadata.project_type
                &&& final(self).valid_project == old(self).valid_project
                &&& final(self).project.metadata.file_name@ == Seq::<char>::empty()
                &&& final(self).project.metadata.project_type == ProjectType::Invalid
            }),
    {
        if !self.valid_project {
            None
        } else {
            let pair = self.project.begin_save();
            Some(pair)
        }
    }
}

/// Is the text `s` one of the names in `existing`?
pub open spec fn spec_taken(existing: Seq<String>, s: Seq<char>) -> bool {
    exists|k: int| 0 <= k < existing.len() && (#[trigger] existing[k])@ == s
}

/// Does `existing` hold the text of `s`?
fn is_taken(existing: &Vec<String>, s: &String) -> (r: bool)
    ensures
        r == spec_taken(existing@, s@),
{
    let n = existing.len();
    let mut i: usize = 0;
    while i < n
        invariant
            i <= n,
            n == existing@.len(),
            forall|k: int| 0 <= k < i ==> (#[trigger] existing@[k])@ != s@,
        decreases n - i,
    {
        if existing[i].eq(s) {
            return true;
        }
        i += 1;
    }
    false
}

/// The stem candidate with suffix `i`: `<base>_<i>`.
pub open spec fn spec_candidate(base: Seq<char>, i: nat) -> Seq<char> {
    base + seq!['_'] + spec_decimal_chars(i)
}

/// The stem a new project is saved under, against the stems already
/// taken: the name's slug; when that is taken, the first free of
/// `<slug>_0`, `<slug>_1`, …. Only when every candidate up to suffix
/// `u32::MAX` is taken does the search give up.
pub fn make_save_file_name(name: &str, existing: &Vec<String>) -> (r: Option<String>)
    ensures
        ({
            let base = spec_slug(name@);
            &&& (r matches Some(s) ==> !spec_taken(existing@, s@))
            &&& ((r matches Some(s) && s@ == base) <==> !spec_taken(existing@, base))
            &&& (r matches Some(s) ==> (s@ != base ==> exists|i: nat|
                i <= u32::MAX && s@ == spec_candidate(base, i) && forall|j: nat|
                    j < i ==> spec_taken(existing@, spec_candidate(base, j))))
            &&& (r is None ==> spec_taken(existing@, base) && forall|i: nat|
                i <= u32::MAX ==> spec_taken(existing@, spec_candidate(base, i)))
        }),
{
    let base = project_file_name(name);
    if !is_taken(existing, &base) {
        return Some(base);
    }
    let mut i: u32 = 0;
    loop
        invariant
            spec_taken(existing@, spec_slug(name@)),
            base@ == spec_slug(name@),
            forall|j: nat| j < i ==> spec_taken(existing@, spec_candidate(base@, j)),
        decreases u32::MAX - i,
    {
        let mut cand = base.clone();
        cand.append("_");
        cand.append(u64_to_string(i as u64).as_str());
        proof {
            reveal_strlit("_");
            assert("_"@ =~= seq!['_']);
            assert(cand@ == spec_candidate(base@, i as nat));
        }
        if !is_taken(existing, &cand) {
            proof {
                assert(cand@.len() >= base@.len() + 2);
            }
            return Some(cand);
        }
        if i == u32::MAX {
            proof {
                assert(forall|j: nat|
                    j <= u32::MAX ==> spec_taken(existing@, spec_candidate(base@, j)));
            }
            return None;
        }
        i += 1;
    }
}

/// The project a `create` call persists: the default project under
/// the given name, created now, of the given kind, filed under the
/// given stem.
pub fn create_project(name: String, kind: ProjectType, file_name: String) -> (r: Project)
    ensures
        r.wf(),
        r.metadata.name == name,
        r.metadata.project_type == kind,
        r.metadata.file_name == file_name,
        r.blueprints@.len() == 0,
        r.universes@.len() == 1,
        r.settings == (ProjectSettings { save_on_quit: true, autosave: Some(1800000u64) }),
{
    let mut p = Project::new();
    p.metadata.name = name;
    p.metadata.created_at = now_timestamp();
    p.metadata.project_type = kind;
    p.metadata.file_name = file_name;
    p
}

/// The stem of a file name: everything before the first dot, or the
/// whole name when it has none.
pub fn file_stem(file_name: &str) -> (r: String)
    ensures
        r@ == file_name@.take(r@.len() as int),
        forall|j: int| 0 <= j < r@.len() ==> file_name@[j] != '.',
        r@.len() == file_name@.len() || file_name@[r@.len() as int] == '.',
{
    let len = file_name.unicode_len();
    let mut k: usize = 0;
    while k < len && file_name.get_char(k) != '.'
        invariant
            k <= len,
            len == file_name@.len(),
            forall|j: int| 0 <= j < k ==> file_name@[j] != '.',
        decreases len - k,
    {
        k += 1;
    }
    let stem = file_name.substring_char(0, k);
    proof {
        assert(stem@ =~= file_name@.take(k as int));
    }
    stem.to_owned()
}

/// The record `list` shows for one project file: what the file
/// stores, stamped with its loader's kind and the file's own stem.
pub fn stamp_listed_metadata(meta: ProjectMetadata, kind: ProjectType, file_name: &str) -> (r:
    ProjectMetadata)
    ensures
        r.name == meta.name,
        r.last_saved == meta.last_saved,
        r.created_at == meta.created_at,
        r.project_type == kind,
        r.file_name@ == file_name@.take(r.file_name@.len() as int),
        forall|j: int| 0 <= j < r.file_name@.len() ==> file_name@[j] != '.',
        r.file_name@.len() == file_name@.len() || file_name@[r.file_name@.len() as int] == '.',
{
    let stem = file_stem(file_name);
    let mut m = meta;
    m.project_type = kind;
    m.file_name = stem;
    m
}

/// The blueprints of `bps` whose identifier is *not* among `ids`, in
/// order: what an import keeps of the existing list.
pub open spec fn spec_kept_blueprints(bps: Seq<FixtureBlueprint>, ids: Seq<String>) -> Seq<
    FixtureBlueprint,
>
    decreases bps.len(),
{
    if bps.len() == 0 {
        Seq::empty()
    } else {
        let rest = spec_kept_blueprints(bps.drop_last(), ids);
        if spec_taken(ids, bps.last().meta.identifier@) {
            rest
        } else {
            rest.push(bps.last())
        }
    }
}

/// The blueprints of `bps` whose identifier *is* among `ids`, in
/// order: what an import takes from the library's offerings.
pub open spec fn spec_selected_blueprints(bps: Seq<FixtureBlueprint>, ids: Seq<String>) -> Seq<
    FixtureBlueprint,
>
    decreases bps.len(),
{
    if bps.len() == 0 {
        Seq::empty()
    } else {
        let rest = spec_selected_blueprints(bps.drop_last(), ids);
        if spec_taken(ids, bps.last().meta.identifier@) {
            rest.push(bps.last())
        } else {
            rest
        }
    }
}

/// Is the blueprint list ordered by identifier?
pub open spec fn spec_sorted_by_identifier(s: Seq<FixtureBlueprint>) -> bool {
    forall|i: int, j: int|
        0 <= i < j < s.len() ==> spec_lex_le(
            (#[trigger] s[i]).meta.identifier@,
            (#[trigger] s[j]).meta.identifier@,
        )
}

proof fn lemma_blueprint_multiset_push(s: Seq<FixtureBlueprint>, b: FixtureBlueprint)
    ensures
        s.push(b).to_multiset() == s.to_multiset().insert(b),
{
    vstd::seq_lib::to_multiset_build(s, b);
}

proof fn lemma_blueprint_multiset_remove(s: Seq<FixtureBlueprint>, i: int)
    requires
        0 <= i < s.len(),
    ensures
        s.remove(i).to_multiset() == s.to_multiset().remove(s[i]),
{
    vstd::seq_lib::to_multiset_remove(s, i);
}

proof fn lemma_blueprint_multiset_empty()
    ensures
        Seq::<FixtureBlueprint>::empty().to_multiset() == Multiset::<FixtureBlueprint>::empty(),
{
    broadcast use vstd::multiset::group_multiset_axioms;

    let s = Seq::<FixtureBlueprint>::empty();
    s.to_multiset_ensures();
    assert forall|y: FixtureBlueprint|
        s.to_multiset().count(y) == Multiset::<FixtureBlueprint>::empty().count(y) by {
        assert(!s.contains(y));
    }
    assert(s.to_multiset() =~= Multiset::<FixtureBlueprint>::empty());
}

/// Order blueprints by identifier; the collection itself is kept.
fn sort_blueprints_by_identifier(v: Vec<FixtureBlueprint>) -> (r: Vec<FixtureBlueprint>)
    ensures
        spec_sorted_by_identifier(r@),
        r@.to_multiset() == v@.to_multiset(),
{
    let mut src = v;
    let mut out: Vec<FixtureBlueprint> = Vec::new();
    proof {
        broadcast use vstd::multiset::group_multiset_axioms;

        lemma_blueprint_multiset_empty();
        assert(out@.to_multiset().add(src@.to_multiset()) =~= v@.to_multiset());
    }
    while src.len() > 0
        invariant
            out@.to_multiset().add(src@.to_multiset()) == v@.to_multiset(),
            spec_sorted_by_identifier(out@),
            forall|a: int, b: int|
                0 <= a < out@.len() && 0 <= b < src@.len() ==> spec_lex_le(
                    (#[trigger] out@[a]).meta.identifier@,
                    (#[trigger] src@[b]).meta.identifier@,
                ),
        decreases src@.len(),
    {
        let mut min: usize = 0;
        let mut j: usize = 1;
        proof {
            lemma_lex_le_total(src@[0].meta.identifier@, src@[0].meta.identifier@);
        }
        while j < src.len()
            invariant
                1 <= j <= src@.len(),
                min < j,
                src@.len() > 0,
                forall|k: int|
                    0 <= k < j ==> spec_lex_le(
                        src@[min as int].meta.identifier@,
                        (#[trigger] src@[k]).meta.identifier@,
                    ),
            decreases src@.len() - j,
        {
            if str_le(src[j].meta.identifier.as_str(), src[min].meta.identifier.as_str()) {
                proof {
                    lemma_lex_le_total(src@[j as int].meta.identifier@, src@[j as int].meta.identifier@);
                    assert forall|k: int|
                        0 <= k < j implies spec_lex_le(
                        src@[j as int].meta.identifier@,
                        (#[trigger] src@[k]).meta.identifier@,
                    ) by {
                        lemma_lex_le_trans(
                            src@[j as int].meta.identifier@,
                            src@[min as int].meta.identifier@,
                            src@[k].meta.identifier@,
                        );
                    }
                }
                min = j;
            } else {
                proof {
                    lemma_lex_le_total(
                        src@[j as int].meta.identifier@,
                        src@[min as int].meta.identifier@,
                    );
                }
            }
            j += 1;
        }
        let ghost src_before = src@;
        let x = src.remove(min);
        proof {
            broadcast use vstd::multiset::group_multiset_axioms;

            assert(src@ == src_before.remove(min as int));
            src_before.to_multiset_ensures();
            assert(src_before.contains(x)) by {
                assert(src_before[min as int] == x);
            }
            lemma_blueprint_multiset_remove(src_before, min as int);
            assert(src@.to_multiset() == src_before.to_multiset().remove(x));
            assert forall|b: int|
                0 <= b < src@.len() implies spec_lex_le(
                x.meta.identifier@,
                (#[trigger] src@[b]).meta.identifier@,
            ) by {
                if b < min {
                    assert(src@[b] == src_before[b]);
                } else {
                    assert(src@[b] == src_before[b + 1]);
                }
            }
            assert forall|a: int, b: int|
                0 <= a < out@.len() && 0 <= b < src@.len() implies spec_lex_le(
                (#[trigger] out@[a]).meta.identifier@,
                (#[trigger] src@[b]).meta.identifier@,
            ) by {
                if b < min {
                    assert(src@[b] == src_before[b]);
                } else {
                    assert(src@[b] == src_before[b + 1]);
                }
            }
        }
        let ghost out_before = out@;
        out.push(x);
        proof {
            broadcast use vstd::multiset::group_multiset_axioms;

            lemma_blueprint_multiset_push(out_before, x);
            assert(out@.to_multiset() == out_before.to_multiset().insert(x));
            assert(out@.to_multiset().add(src@.to_multiset()) =~= v@.to_multiset());
            assert forall|a: int, b: int|
                0 <= a < b < out@.len() implies spec_lex_le(
                (#[trigger] out@[a]).meta.identifier@,
                (#[trigger] out@[b]).meta.identifier@,
            ) by {
                if b < out_before.len() as int {
                    assert(out@[a] == out_before[a] && out@[b] == out_before[b]);
                } else {
                    assert(out@[b] == x && out@[a] == out_before[a]);
                }
            }
        }
    }
    proof {
        broadcast use vstd::multiset::group_multiset_axioms;

        assert(src@ =~= Seq::<FixtureBlueprint>::empty());
        lemma_blueprint_multiset_empty();
        assert(out@.to_multiset() =~= v@.to_multiset());
    }
    out
}

impl ServiceImpl {
    /// Import the chosen blueprints: every blueprint already present
    /// under a requested identifier is replaced by the library's
    /// copy, the imported ones are added, and the list is re-ordered
    /// by identifier. The reply says whether the haul missed some
    /// requested identifier — the caller publishes a warning then.
    pub fn import_fixture_blueprints(
        &mut self,
        identifiers: &Vec<String>,
        available: Vec<FixtureBlueprint>,
    ) -> (warn: bool)
        ensures
            warn == (spec_selected_blueprints(available@, identifiers@).len()
                != identifiers@.len()),
            spec_sorted_by_identifier(final(self).project.blueprints@),
            final(self).project.blueprints@.to_multiset() == spec_kept_blueprints(
                old(self).project.blueprints@,
                identifiers@,
            ).to_multiset().add(
                spec_selected_blueprints(available@, identifiers@).to_multiset(),
            ),
            final(self).project.metadata == old(self).project.metadata,
            final(self).project.settings == old(self).project.settings,
            final(self).project.universes == old(self).project.universes,
            final(self).project.endpoint_mapping == old(self).project.endpoint_mapping,
            final(self).valid_project == old(self).valid_project,
    {
        let mut pool: Vec<FixtureBlueprint> = Vec::new();
        core::mem::swap(&mut pool, &mut self.project.blueprints);
        let ghost old_bps = pool@;
        let ghost kept_target = spec_kept_blueprints(old_bps, identifiers@).to_multiset();
        let mut result: Vec<FixtureBlueprint> = Vec::new();
        proof {
            broadcast use vstd::multiset::group_multiset_axioms;

            lemma_blueprint_multiset_empty();
            assert(result@.to_multiset().add(
                spec_kept_blueprints(pool@, identifiers@).to_multiset(),
            ) =~= kept_target);
        }
        loop
            invariant
                result@.to_multiset().add(spec_kept_blueprints(pool@, identifiers@).to_multiset())
                    == kept_target,
                kept_target == spec_kept_blueprints(old_bps, identifiers@).to_multiset(),
            ensures
                result@.to_multiset() == kept_target,
            decreases pool@.len(),
        {
            let ghost pool_before = pool@;
            match pool.pop() {
                Some(b) => {
                    proof {
                        assert(pool@ == pool_before.drop_last());
                        assert(b == pool_before.last());
                    }
                    if !is_taken(identifiers, &b.meta.identifier) {
                        let ghost res_before = result@;
                        result.push(b);
                        proof {
                            broadcast use vstd::multiset::group_multiset_axioms;

                            assert(spec_kept_blueprints(pool_before, identifiers@)
                                == spec_kept_blueprints(pool@, identifiers@).push(b));
                            lemma_blueprint_multiset_push(res_before, b);
                            lemma_blueprint_multiset_push(
                                spec_kept_blueprints(pool@, identifiers@),
                                b,
                            );
                            assert(result@.to_multiset().add(
                                spec_kept_blueprints(pool@, identifiers@).to_multiset(),
                            ) =~= kept_target);
                        }
                    } else {
                        proof {
                            assert(spec_kept_blueprints(pool_before, identifiers@)
                                == spec_kept_blueprints(pool@, identifiers@));
                        }
                    }
                },
                None => {
                    proof {
                        broadcast use vstd::multiset::group_multiset_axioms;

                        assert(pool_before.len() == 0);
                        assert(spec_kept_blueprints(pool@, identifiers@) == Seq::<
                            FixtureBlueprint,
                        >::empty());
                        lemma_blueprint_multiset_empty();
                        assert(result@.to_multiset().add(
                            spec_kept_blueprints(pool@, identifiers@).to_multiset(),
                        ) =~= result@.to_multiset());
                    }
                    break;
                },
            }
        }
        let mut avail = available;
        let total_available = avail.len();
        let ghost avail0 = avail@;
        let ghost sel_target = spec_selected_blueprints(avail0, identifiers@);
        let mut selected_count: usize = 0;
        loop
            invariant
                avail0.len() == total_available,
                avail@.len() <= avail0.len(),
                selected_count <= avail0.len() - avail@.len(),
                selected_count + spec_selected_blueprints(avail@, identifiers@).len()
                    == sel_target.len(),
                sel_target == spec_selected_blueprints(avail0, identifiers@),
                result@.to_multiset().add(
                    spec_selected_blueprints(avail@, identifiers@).to_multiset(),
                ) == kept_target.add(sel_target.to_multiset()),
                kept_target == spec_kept_blueprints(old_bps, identifiers@).to_multiset(),
            ensures
                selected_count == sel_target.len(),
                result@.to_multiset() == kept_target.add(sel_target.to_multiset()),
            decreases avail@.len(),
        {
            let ghost avail_before = avail@;
            match avail.pop() {
                Some(b) => {
                    proof {
                        assert(avail@ == avail_before.drop_last());
                        assert(b == avail_before.last());
                    }
                    if is_taken(identifiers, &b.meta.identifier) {
                        let ghost res_before = result@;
                        result.push(b);
                        proof {
                            broadcast use vstd::multiset::group_multiset_axioms;

                            assert(spec_selected_blueprints(avail_before, identifiers@)
                                == spec_selected_blueprints(avail@, identifiers@).push(b));
                            lemma_blueprint_multiset_push(res_before, b);
                            lemma_blueprint_multiset_push(
                                spec_selected_blueprints(avail@, identifiers@),
                                b,
                            );
                            assert(selected_count < usize::MAX);
                        }
                        selected_count += 1;
                        proof {
                            assert(result@.to_multiset().add(
                                spec_selected_blueprints(avail@, identifiers@).to_multiset(),
                            ) =~= kept_target.add(sel_target.to_multiset()));
                        }
                    } else {
                        proof {
                            assert(spec_selected_blueprints(avail_before, identifiers@)
                                == spec_selected_blueprints(avail@, identifiers@));
                        }
                    }
                },
                None => {
                    proof {
                        broadcast use vstd::multiset::group_multiset_axioms;

                        assert(avail_before.len() == 0);
                        assert(spec_selected_blueprints(avail@, identifiers@) == Seq::<
                            FixtureBlueprint,
                        >::empty());
                        lemma_blueprint_multiset_empty();
                        assert(result@.to_multiset().add(
                            spec_selected_blueprints(avail@, identifiers@).to_multiset(),
                        ) =~= result@.to_multiset());
                    }
                    break;
                },
            }
        }
        let warn = selected_count != identifiers.len();
        let sorted = sort_blueprints_by_identifier(result);
        self.project.blueprints = sorted;
        warn
    }
}

/// The status line published after a successful save.
pub fn saved_status_line(name: &str) -> (r: String)
    ensures
        r@ == "Saved Project '"@ + name@ + "' to disk!"@,
{
    let mut r = "Saved Project '".to_owned();
    r.append(name);
    r.append("' to disk!");
    r
}

/// A field-true copy of a metadata record.
fn clone_metadata(m: &ProjectMetadata) -> (r: ProjectMetadata)
    ensures
        r == *m,
{
    ProjectMetadata {
        name: m.name.clone(),
        last_saved: m.last_saved,
        created_at: m.created_at,
        file_name: m.file_name.clone(),
        project_type: m.project_type,
    }
}

} // verus!
