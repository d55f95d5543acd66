//! Listing the installed builds.
use vstd::prelude::*;

use crate::gdman::GodotVersionInfo;

verus! {

/// Lists the installed builds.
#[derive(Clone, Copy, Debug)]
pub struct ListVersionsCommand {}

impl ListVersionsCommand {
    /// The names of the installed builds, in order.
    pub fn names(&self, installed: &Vec<GodotVersionInfo>) -> (r: Vec<String>)
        ensures
            r@.len() == installed@.len(),
            forall|k: int| 0 <= k < r@.len() ==> (#[trigger] r@[k])@ == installed@[k].name_parts.version_name@,
    {
        let mut out: Vec<String> = Vec::new();
        let mut i: usize = 0;
        while i < installed.len()
            invariant
                i <= installed@.len(),
                out@.len() == i,
                forall|k: int| 0 <= k < i ==> (#[trigger] out@[k])@ == installed@[k].name_parts.version_name@,
            decreases installed@.len() - i,
        {
            out.push(installed[i].name_parts.version_name.clone());
            i = i + 1;
        }
        out
    }
}

} // verus!
