use mlc_core::blueprint::{
    blueprint_head, gen_each_pixel, make_identifier, FixtureBlueprint, Metadata, Mode,
};
use mlc_core::global::{autosave_deadline, should_save_on_shutdown};
use mlc_core::project::{ProjectSettings, ProjectType};
use mlc_core::service::{
    create_default_project, create_project, file_stem, make_save_file_name, saved_status_line,
    stamp_listed_metadata, ProjectServiceError, ProjectSelectionServiceError, ServiceImpl,
};
use mlc_core::services::{
    identify_service, GeneralServiceIdent, Info, ProjectInfo, ProjectSelectionServiceIdent,
    ProjectServiceIdent, ServiceKind, View,
};

fn blueprint(identifier: &str) -> FixtureBlueprint {
    FixtureBlueprint {
        meta: Metadata {
            name: String::from(identifier),
            identifier: String::from(identifier),
            manufacturer: String::from("maker"),
        },
        channels: vec![String::from("dim")],
        modes: vec![Mode { name: String::from("basic"), channels: vec![Some(String::from("dim"))] }],
        matrix: None,
    }
}

#[test]
fn test_gen_each_pixel() {
    let dims = [2, 2, 2];
    let g = gen_each_pixel(dims[0], dims[1], dims[2]);
    let r = vec![
        "(1, 1, 1)",
        "(2, 1, 1)",
        "(1, 2, 1)",
        "(2, 2, 1)",
        "(1, 1, 2)",
        "(2, 1, 2)",
        "(1, 2, 2)",
        "(2, 2, 2)",
    ];
    assert_eq!(r, g);
}

#[test]
fn service_tags_dispatch() {
    assert_eq!(identify_service(b"genrl"), Some(ServiceKind::General));
    assert_eq!(identify_service(b"prjsl"), Some(ServiceKind::ProjectSelection));
    assert_eq!(identify_service(b"prjts"), Some(ServiceKind::Project));
    assert_eq!(identify_service(b"nope!"), None);
    assert_eq!(identify_service(b"gen"), None);
    assert_eq!(identify_service(&GeneralServiceIdent::ident()), Some(ServiceKind::General));
    assert_eq!(
        identify_service(&ProjectSelectionServiceIdent::ident()),
        Some(ServiceKind::ProjectSelection)
    );
    assert_eq!(identify_service(&ProjectServiceIdent::ident()), Some(ServiceKind::Project));
}

#[test]
fn fresh_service_is_on_the_project_view() {
    let s = ServiceImpl::create();
    let _ = s.alive();
    assert!(s.is_valid_view(View::Project));
    assert!(!s.is_valid_view(View::Edit));
    assert!(!s.project_valid());
    assert!(s.validate_project().is_err());
}

#[test]
fn open_then_edit_view_and_universe_list() {
    let mut s = ServiceImpl::create();
    let p = create_project(
        String::from("Demo"),
        ProjectType::Json,
        String::from("demo"),
    );
    let scopes = s.install_project(p, ProjectType::Json, String::from("demo"));
    assert!(!scopes.is_empty());
    assert!(s.is_valid_view(View::Edit));
    assert!(!s.is_valid_view(View::Project));
    assert_eq!(s.universe_list().unwrap(), vec![1]);
    assert_eq!(s.get_meta().unwrap().file_name, "demo");
    assert_eq!(s.get_meta().unwrap().name, "Demo");
}

#[test]
fn project_scoped_calls_need_a_valid_project() {
    let mut s = ServiceImpl::create();
    assert_eq!(s.get_settings().unwrap_err(), ProjectServiceError::InvalidProject);
    assert_eq!(s.get_meta().unwrap_err(), ProjectServiceError::InvalidProject);
    let settings = ProjectSettings { save_on_quit: false, autosave: None };
    assert_eq!(s.update_settings(settings).unwrap_err(), ProjectServiceError::InvalidProject);
    assert!(s.begin_general_save().is_none());
}

#[test]
fn update_settings_notifies_the_settings_scope() {
    let mut s = ServiceImpl::create();
    let p = create_default_project();
    s.install_project(p, ProjectType::Json, String::from("x"));
    let settings = ProjectSettings { save_on_quit: false, autosave: Some(50) };
    let scopes = s.update_settings(settings.clone()).unwrap();
    assert_eq!(scopes, mlc_core::adapt::AdaptScopes::settings());
    assert_eq!(s.get_settings().unwrap(), settings);
}

#[test]
fn save_clears_and_restores_the_transients() {
    let mut s = ServiceImpl::create();
    let p = create_project(String::from("Demo"), ProjectType::Json, String::from("demo"));
    s.install_project(p, ProjectType::Json, String::from("demo"));
    let before = s.get_meta().unwrap();

    let (ident, kind) = s.begin_general_save().unwrap();
    assert_eq!(ident, "demo");
    assert_eq!(kind, ProjectType::Json);
    let cleared = s.get_meta().unwrap();
    assert_eq!(cleared.file_name, "");
    assert_eq!(cleared.project_type, ProjectType::Invalid);

    s.project.finish_save(ident, kind);
    let after = s.get_meta().unwrap();
    assert_eq!(after.name, before.name);
    assert_eq!(after.created_at, before.created_at);
    assert_eq!(after.file_name, before.file_name);
    assert_eq!(after.project_type, before.project_type);
}

#[test]
fn save_file_names_avoid_taken_stems() {
    assert_eq!(make_save_file_name("Demo", &vec![]), Some(String::from("demo")));
    let taken = vec![String::from("demo")];
    assert_eq!(make_save_file_name("Demo", &taken), Some(String::from("demo_0")));
    let taken = vec![String::from("demo"), String::from("demo_0"), String::from("demo_1")];
    assert_eq!(make_save_file_name("Demo", &taken), Some(String::from("demo_2")));
}

#[test]
fn created_projects_carry_their_identity() {
    let p = create_project(String::from("Demo"), ProjectType::Json, String::from("demo"));
    assert_eq!(p.metadata.name, "Demo");
    assert_eq!(p.metadata.project_type, ProjectType::Json);
    assert_eq!(p.metadata.file_name, "demo");
    assert_eq!(p.universes.len(), 1);
    assert!(p.blueprints.is_empty());
    assert_eq!(p.settings, ProjectSettings { save_on_quit: true, autosave: Some(1800000) });
}

#[test]
fn default_project_is_the_stub() {
    let p = create_default_project();
    assert_eq!(p.metadata.name, "Default invalid project");
    assert_eq!(p.metadata.file_name, "");
    assert_eq!(p.universes.len(), 1);
}

#[test]
fn listing_stamps_kind_and_stem() {
    let p = create_default_project();
    let m = stamp_listed_metadata(p.metadata, ProjectType::Binary, "show.mbp");
    assert_eq!(m.project_type, ProjectType::Binary);
    assert_eq!(m.file_name, "show");
    assert_eq!(file_stem("archive.tar.gz"), "archive");
    assert_eq!(file_stem("plain"), "plain");
}

#[test]
fn import_replaces_sorts_and_warns() {
    let mut s = ServiceImpl::create();
    let mut p = create_default_project();
    p.blueprints = vec![blueprint("delta"), blueprint("alpha")];
    s.install_project(p, ProjectType::Json, String::from("x"));

    let ids = vec![String::from("delta"), String::from("zeta")];
    let available = vec![blueprint("zeta"), blueprint("delta")];
    let warn = s.import_fixture_blueprints(&ids, available);
    assert!(!warn);
    let names: Vec<String> =
        s.project.blueprints.iter().map(|b| b.meta.identifier.clone()).collect();
    assert_eq!(names, vec!["alpha", "delta", "zeta"]);

    let warn = s.import_fixture_blueprints(&vec![String::from("missing")], vec![]);
    assert!(warn);
}

#[test]
fn blueprint_heads_summarize() {
    let b = blueprint("maker:lamp");
    let head = blueprint_head(&b);
    assert_eq!(head.meta.identifier, "maker:lamp");
    assert_eq!(head.modes, vec!["basic"]);
    assert_eq!(head.num_channels, 1);
}

#[test]
fn identifiers_join_the_slugs() {
    assert_eq!(make_identifier("Fixture X", "Big Maker"), "big_maker:fixture_x");
}

#[test]
fn error_messages_name_the_failure() {
    assert_eq!(
        ProjectServiceError::InvalidProject.message(),
        "It is no valid project loaded!"
    );
    assert_eq!(
        ProjectServiceError::SavingFailed(String::from("disk full")).message(),
        "Saving Project Failed: disk full"
    );
    assert_eq!(
        ProjectSelectionServiceError::ProjectOpenError(String::from("gone")).message(),
        "Failed to open project: gone"
    );
    assert_eq!(
        ProjectSelectionServiceError::ProjectListError(String::from("io")).message(),
        "Failed to list all projects: io"
    );
    assert_eq!(
        ProjectSelectionServiceError::ProjectCreateError(String::from("full")).message(),
        "Failed to create the project: full"
    );
    assert_eq!(
        ProjectSelectionServiceError::ProjectDeleteError(String::from("kept")).message(),
        "Failed to delete the project: kept"
    );
    assert_eq!(
        ProjectServiceError::BlueprintListFailed(String::from("offline")).message(),
        "Listing available fixture blueprints failed: offline"
    );
    assert_eq!(
        ProjectServiceError::RemocError(String::from("closed")).message(),
        "Network communication error: closed"
    );
}

#[test]
fn project_info_wraps_into_info() {
    let info: Info = ProjectInfo::SettingsChanged.into();
    assert_eq!(info, Info::ProjectInfo { info: ProjectInfo::SettingsChanged });
}

#[test]
fn saved_status_line_names_the_project() {
    assert_eq!(saved_status_line("Demo"), "Saved Project 'Demo' to disk!");
}

#[test]
fn shutdown_saves_only_willing_valid_projects() {
    let mut s = ServiceImpl::create();
    assert!(!should_save_on_shutdown(&s));
    let p = create_default_project();
    s.install_project(p, ProjectType::Json, String::from("x"));
    assert!(should_save_on_shutdown(&s));
    let settings = ProjectSettings { save_on_quit: false, autosave: None };
    s.update_settings(settings).unwrap();
    assert!(!should_save_on_shutdown(&s));
}

#[test]
fn autosave_arms_only_for_valid_projects() {
    let with = ProjectSettings { save_on_quit: true, autosave: Some(50) };
    let without = ProjectSettings { save_on_quit: true, autosave: None };
    assert_eq!(autosave_deadline(&with, true), Some(50));
    assert_eq!(autosave_deadline(&with, false), None);
    assert_eq!(autosave_deadline(&without, true), None);
}
