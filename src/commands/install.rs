//! The steps of an install: look for an installed build first, then resolve
//! a release, then download unless the resolved build is already there.
use vstd::prelude::*;

use crate::common::{supports, Architecture, Flavour, GdError, Platform};
use crate::gd_semver::{exact_view, flatten_version, MaybeVersionOrVersionReq, VersionModel};
use crate::gdman::{activate_by_name_if_installed, activate_by_parts_if_installed, asset_version_name, executable_of, zip_suffix, DirEntryInfo};
use crate::github::github_repo::{first_asset_from, selected_index, Release};
use crate::github::godot_repo::{asset_fragment, canonical_name, find_release_with_asset};
use crate::text::{strip_trailing, texts};

verus! {

/// What to install: the latest release, or one matching a version request;
/// for a platform, an architecture and a flavour.
#[derive(Clone, Debug)]
pub struct InstallVersionCommand {
    pub latest: bool,
    pub version: Option<MaybeVersionOrVersionReq>,
    pub platform: Platform,
    pub architecture: Architecture,
    pub flavour: Flavour,
}

/// What the caller is to do next.
#[derive(Clone, Debug)]
pub enum InstallAction {
    /// Point the activation link at this path (relative to the versions
    /// directory); the install is done.
    Activate(Vec<String>),
    /// Fetch the release feed and hand it to `select_download`.
    FetchReleases,
    /// Download the archive at the address (second) into the build directory
    /// named first, then activate it.
    Download(String, String),
}

/// The exact version requested, if any.
pub open spec fn request_exact(cmd: InstallVersionCommand) -> Option<VersionModel> {
    match cmd.version {
        Some(m) => exact_view(m.version_exact),
        None => None,
    }
}

/// The requirement requested, if any.
pub open spec fn request_like(cmd: InstallVersionCommand) -> Option<Seq<char>> {
    match cmd.version {
        Some(m) => Some(m.version_like@),
        None => None,
    }
}

/// The canonical name of the requested build, for an exact request.
pub open spec fn local_name(cmd: InstallVersionCommand) -> Seq<char> {
    canonical_name(cmd.version->0.input_str@, cmd.platform, cmd.architecture, cmd.flavour)
}

/// The listing (`None`: no such directory) shows the build `name` installed.
pub open spec fn local_hit(platform: Platform, name: Seq<char>, listing: Option<Vec<DirEntryInfo>>) -> bool {
    listing is Some && executable_of(platform, name, listing->0@) is Some
}

fn activate_or(platform: Platform, name: &str, listing: &Option<Vec<DirEntryInfo>>, otherwise: InstallAction) -> (r: InstallAction)
    ensures
        local_hit(platform, name@, *listing) ==> r is Activate && texts(r->Activate_0@) == seq![name@]
            + executable_of(platform, name@, listing->0@)->0,
        !local_hit(platform, name@, *listing) ==> r == otherwise,
{
    match activate_by_name_if_installed(platform, name, listing) {
        Some(target) => InstallAction::Activate(target),
        None => otherwise,
    }
}

impl InstallVersionCommand {
    /// The build to look for before any download: for an exact request, its
    /// canonical name; otherwise none.
    pub fn local_candidate(&self) -> (r: Result<Option<String>, GdError>)
        ensures
            request_exact(*self) is None ==> r is Ok && r->Ok_0 is None,
            request_exact(*self) is Some ==> {
                &&& r is Ok <==> supports(self.platform, self.architecture)
                &&& r is Ok ==> r->Ok_0 is Some && r->Ok_0->0@ == local_name(*self)
                &&& r is Err ==> r->Err_0 == GdError::UnsupportedVariant(self.platform, self.architecture)
            },
    {
        let (input, _like, exact) = flatten_version(&self.version);
        if exact.is_some() {
            activate_by_parts_if_installed(&input, &self.platform, &self.architecture, &self.flavour)
        } else {
            Ok(None)
        }
    }

    /// The first step, given the listing of the directory named by
    /// `local_candidate` (`None` where there is no candidate or no such
    /// directory): with an exact request whose build is installed, activate
    /// it and fetch nothing; otherwise fetch the releases.
    pub fn first_step(&self, listing: &Option<Vec<DirEntryInfo>>) -> (r: Result<InstallAction, GdError>)
        ensures
            request_exact(*self) is None ==> r is Ok && r->Ok_0 is FetchReleases,
            request_exact(*self) is Some && !supports(self.platform, self.architecture) ==> r is Err
                && r->Err_0 == GdError::UnsupportedVariant(self.platform, self.architecture),
            request_exact(*self) is Some && supports(self.platform, self.architecture) ==> {
                &&& r is Ok
                &&& (r->Ok_0 is FetchReleases <==> !local_hit(self.platform, local_name(*self), *listing))
                &&& r->Ok_0 is Activate ==> texts(r->Ok_0->Activate_0@) == seq![local_name(*self)]
                    + executable_of(self.platform, local_name(*self), listing->0@)->0
                &&& !(r->Ok_0 is Download)
            },
    {
        match self.local_candidate()? {
            None => Ok(InstallAction::FetchReleases),
            Some(name) => Ok(activate_or(self.platform, name.as_str(), listing, InstallAction::FetchReleases)),
        }
    }

    /// The build to download: the request's release (the latest where there
    /// is none) and its asset for the variant, as the build directory name
    /// (the asset name without `.zip`) and the download address.
    pub fn select_download(&self, releases: &Vec<Release>) -> (r: Result<(String, String), GdError>)
        ensures
            !supports(self.platform, self.architecture) ==> r is Err,
            supports(self.platform, self.architecture) ==> ({
                let sel = selected_index(releases@, request_exact(*self), request_like(*self));
                let pats = seq![asset_fragment(self.platform, self.architecture, self.flavour)];
                &&& r is Ok <==> (sel is Some && first_asset_from(releases@[sel->0].assets@, pats, 0) is Some)
                &&& r is Ok ==> {
                    let asset = releases@[sel->0].assets@[first_asset_from(releases@[sel->0].assets@, pats, 0)->0];
                    &&& r->Ok_0.0@ == strip_trailing(asset.name@, zip_suffix())
                    &&& r->Ok_0.1@ == asset.browser_download_url@
                }
            }),
    {
        let (_input, like, exact) = flatten_version(&self.version);
        let release = find_release_with_asset(&exact, &like, &self.platform, &self.architecture, &self.flavour, releases)?;
        let asset = &release.assets[0];
        Ok((asset_version_name(asset.name.as_str()), asset.browser_download_url.clone()))
    }

    /// The step after resolving: activate the build `name` if it is already
    /// installed (given its directory's listing), else download it from `url`.
    pub fn after_resolution(&self, name: &str, url: &str, listing: &Option<Vec<DirEntryInfo>>) -> (r: InstallAction)
        ensures
            local_hit(self.platform, name@, *listing) ==> r is Activate && texts(r->Activate_0@) == seq![name@]
                + executable_of(self.platform, name@, listing->0@)->0,
            !local_hit(self.platform, name@, *listing) ==> r is Download && r->Download_0@ == name@
                && r->Download_1@ == url@,
    {
        activate_or(
            self.platform,
            name,
            listing,
            InstallAction::Download(String::from_str(name), String::from_str(url)),
        )
    }
}

} // verus!
