//! Reporting the active build.
use vstd::prelude::*;

use crate::common::GdError;
use crate::gdman::GodotVersionInfo;

verus! {

/// Reports the active build.
#[derive(Clone, Copy, Debug)]
pub struct CurrentVersionCommand {}

impl CurrentVersionCommand {
    /// What to report, given the lookup of the active build: its name, or
    /// `None` where no build is active; any other failure stands.
    pub fn report(&self, current: Result<GodotVersionInfo, GdError>) -> (r: Result<Option<String>, GdError>)
        ensures
            current is Ok ==> r is Ok && r->Ok_0 is Some && r->Ok_0->0@ == current->Ok_0.name_parts.version_name@,
            current is Err && current->Err_0 is NoActiveVersion ==> r is Ok && r->Ok_0 is None,
            current is Err && !(current->Err_0 is NoActiveVersion) ==> r is Err && r->Err_0 == current->Err_0,
    {
        match current {
            Ok(info) => Ok(Some(info.name_parts.version_name)),
            Err(GdError::NoActiveVersion) => Ok(None),
            Err(e) => Err(e),
        }
    }
}

} // verus!
