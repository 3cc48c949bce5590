//! The global lifecycle services: shutdown sequencing, autosave,
//! and the listener. The loops live in the async shell; their
//! decisions stand here.
use vstd::prelude::*;

use crate::project::ProjectSettings;
use crate::service::ServiceImpl;

verus! {

/// Runs the phase-1 shutdown sequence from the async shell.
pub struct ShutdownService;

/// Runs the autosave loop from the async shell.
pub struct AutosaveService;

/// Runs the listener from the async shell.
pub struct ServerService;

/// Whether the Phase-1 shutdown handler saves the project before
/// advancing: only a valid project with `save_on_quit` set is
/// written out.
pub fn should_save_on_shutdown(service: &ServiceImpl) -> (r: bool)
    ensures
        r == (service.valid_project && service.project.settings.save_on_quit),
{
    service.project_valid() && service.project.settings.save_on_quit
}

/// The deadline the autosave loop arms: the project's autosave
/// period while a valid project has one, and none otherwise — the
/// loop then pends until an adapt or the shutdown wakes it.
pub fn autosave_deadline(settings: &ProjectSettings, valid: bool) -> (r: Option<u64>)
    ensures
        r == if valid {
            settings.autosave
        } else {
            None::<u64>
        },
{
    if valid {
        settings.autosave
    } else {
        None
    }
}

} // verus!
