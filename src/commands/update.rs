//! Choosing the version an update moves the active build to.
use vstd::prelude::*;

use crate::common::GdError;
use crate::gd_semver::{range_text_valid, version_display, Version, VersionRange};
use crate::text::{push_str, same_text};

verus! {

/// How far an update may move: `patch` (the default) keeps major and minor,
/// `minor` keeps major, `major` takes the latest release. With `uninstall`,
/// the build that was active is removed afterwards.
#[derive(Clone, Copy, Debug)]
pub struct UpdateVersionCommand {
    pub patch: bool,
    pub minor: bool,
    pub major: bool,
    pub uninstall: bool,
}

/// The requirement text for an update from the version written `current`:
/// none for a major update, `^current` for a minor one, `~current` otherwise.
pub open spec fn update_request_text(cmd: UpdateVersionCommand, current: Seq<char>) -> Option<Seq<char>> {
    if cmd.major && !cmd.minor && !cmd.patch {
        None
    } else if cmd.minor && !cmd.major && !cmd.patch {
        Some(seq!['^'] + current)
    } else {
        Some(seq!['~'] + current)
    }
}

impl UpdateVersionCommand {
    /// The requirement that releases must meet to replace the active version
    /// `current` (`None`: any release); fails where the text is no
    /// requirement.
    pub fn target_request(&self, current: &Version) -> (r: Result<Option<VersionRange>, GdError>)
        ensures
            ({
                let text = update_request_text(*self, version_display(current@));
                &&& text is None ==> r is Ok && r->Ok_0 is None
                &&& text is Some ==> (r is Ok <==> range_text_valid(text->0))
                &&& text is Some && r is Ok ==> r->Ok_0 is Some && r->Ok_0->0@ == text->0
                &&& r is Err ==> r->Err_0 is InvalidVersion
            }),
    {
        if self.major && !self.minor && !self.patch {
            return Ok(None);
        }
        let mut text = String::new();
        if self.minor && !self.major && !self.patch {
            text.push('^');
        } else {
            text.push('~');
        }
        let numbers = current.to_text();
        push_str(&mut text, numbers.as_str());
        let range = VersionRange::parse(text.as_str())?;
        Ok(Some(range))
    }

    /// The build to remove once `new_name` is active: the one that was active
    /// (`current_name`), where `uninstall` was asked for and it is another
    /// build.
    pub fn version_to_remove(&self, current_name: &str, new_name: &str) -> (r: Option<String>)
        ensures
            r is Some <==> (self.uninstall && current_name@ != new_name@),
            r is Some ==> r->0@ == current_name@,
    {
        if self.uninstall && !same_text(current_name, new_name) {
            Some(String::from_str(current_name))
        } else {
            None
        }
    }
}

} // verus!
