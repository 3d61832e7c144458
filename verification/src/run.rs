//! What a run acts on: the host directory of the configuration, narrowed by
//! the selector.

use crate::error::RunError;
use crate::select::Selector;
use crate::server::{directory, host_views, Server, SessionInfo};
use vstd::prelude::*;

verus! {

/// The host directory of `server`. A configuration without a valid member in
/// a valid group has none, which ends the run before it starts.
pub fn host_directory(server: &Server) -> (found: Result<Vec<SessionInfo>, RunError>)
    ensures
        directory(server@).len() == 0 <==> found is Err,
        found matches Err(error) ==> error is DirectoryEmpty,
        found matches Ok(hosts) ==> host_views(hosts@) == directory(server@),
{
    match server.valid_session_info() {
        Some(hosts) => Ok(hosts),
        None => Err(RunError::DirectoryEmpty),
    }
}

/// The hosts that a run acts on: those of the directory of `server` that
/// `selector` picks, in the directory's order. An empty directory is an
/// error; a selection that picks nothing is not.
pub fn targets(server: &Server, selector: &Selector) -> (found: Result<Vec<SessionInfo>, RunError>)
    ensures
        directory(server@).len() == 0 <==> found is Err,
        found matches Err(error) ==> error is DirectoryEmpty,
        found matches Ok(hosts) ==> host_views(hosts@) == selector.selection(directory(server@)),
{
    match host_directory(server) {
        Ok(hosts) => Ok(selector.pick(&hosts)),
        Err(error) => Err(error),
    }
}

} // verus!
