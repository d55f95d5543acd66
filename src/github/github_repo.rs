//! Releases as the feed lists them, and the choice of one release and one of
//! its assets for a version request.
use vstd::prelude::*;

use crate::common::GdError;
use crate::gd_semver::{
    exact_view, like_view, parse_semver_version, parsed_version, range_allows, stable_label_list, stable_labels, precedes,
    version_text_ok, Version, VersionModel, VersionRange,
};
use crate::text::push_str;

verus! {

/// A downloadable file of a release.
#[derive(Clone, Debug)]
pub struct Asset {
    pub url: String,
    pub name: String,
    pub size: i64,
    pub browser_download_url: String,
}

/// A release of the feed; `published_at` is in seconds since the Unix epoch.
#[derive(Clone, Debug)]
pub struct Release {
    pub url: String,
    pub tag_name: String,
    pub published_at: i64,
    pub assets: Vec<Asset>,
}

pub open spec fn same_asset(a: Asset, b: Asset) -> bool {
    &&& a.url@ == b.url@
    &&& a.name@ == b.name@
    &&& a.size == b.size
    &&& a.browser_download_url@ == b.browser_download_url@
}

/// The two releases agree on all but their assets.
pub open spec fn same_release_head(a: Release, b: Release) -> bool {
    &&& a.url@ == b.url@
    &&& a.tag_name@ == b.tag_name@
    &&& a.published_at == b.published_at
}

impl Asset {
    /// A copy with the same fields.
    pub fn copy(&self) -> (r: Asset)
        ensures
            same_asset(r, *self),
    {
        Asset {
            url: self.url.clone(),
            name: self.name.clone(),
            size: self.size,
            browser_download_url: self.browser_download_url.clone(),
        }
    }
}

/// The version a release's tag denotes, a `stable` label dropped; `None`
/// where the tag is no version.
pub open spec fn tag_version(r: Release) -> Option<VersionModel> {
    if version_text_ok(r.tag_name@) {
        Some(parsed_version(r.tag_name@, stable_labels()))
    } else {
        None
    }
}

/// The first release from index `i` on whose tag denotes exactly `v`.
pub open spec fn first_exact_from(rels: Seq<Release>, v: VersionModel, i: int) -> Option<int>
    decreases rels.len() - i,
{
    if i < 0 || i >= rels.len() {
        None
    } else if tag_version(rels[i]) == Some(v) {
        Some(i)
    } else {
        first_exact_from(rels, v, i + 1)
    }
}

/// The greatest version among the first `n` releases that the requirement
/// accepts; an equal version found later does not displace an earlier one.
pub open spec fn best_among(rels: Seq<Release>, like: Option<Seq<char>>, n: int) -> Option<int>
    decreases n,
{
    if n <= 0 {
        None
    } else {
        let prev = best_among(rels, like, n - 1);
        let k = n - 1;
        match tag_version(rels[k]) {
            Some(v) => if !range_allows(like, v) {
                prev
            } else {
                match prev {
                    None => Some(k),
                    Some(j) => if precedes(tag_version(rels[j])->0, v) {
                        Some(k)
                    } else {
                        prev
                    },
                }
            },
            None => prev,
        }
    }
}

/// The release that a request selects: with an exact version, the first
/// release of that version; otherwise the greatest that the requirement (if
/// any) accepts.
pub open spec fn selected_index(rels: Seq<Release>, exact: Option<VersionModel>, like: Option<Seq<char>>) -> Option<int> {
    match exact {
        Some(v) => first_exact_from(rels, v, 0),
        None => best_among(rels, like, rels.len() as int),
    }
}

/// Relies on `regex::Regex::new` and `regex::Regex::is_match`: whether the
/// regular expression `pattern` matches somewhere in `text` (never, where it
/// does not compile). Depends on its arguments alone.
pub uninterp spec fn pattern_found(pattern: Seq<char>, text: Seq<char>) -> bool;

/// Relies on `regex::Regex::new` and `regex::Regex::is_match`.
#[verifier::external_body]
fn pattern_matches(pattern: &str, text: &str) -> (r: bool)
    ensures
        r == pattern_found(pattern@, text@),
{
    match regex::Regex::new(pattern) {
        Ok(re) => re.is_match(text),
        Err(_) => false,
    }
}

/// The texts of a list of patterns.
pub open spec fn patterns_view(patterns: Seq<String>) -> Seq<Seq<char>> {
    patterns.map_values(|p: String| p@)
}

/// Every pattern matches the name.
pub open spec fn all_patterns_match(patterns: Seq<Seq<char>>, name: Seq<char>) -> bool {
    forall|k: int| 0 <= k < patterns.len() ==> pattern_found(#[trigger] patterns[k], name)
}

/// The first asset whose name every pattern matches.
pub open spec fn first_asset_from(assets: Seq<Asset>, patterns: Seq<Seq<char>>, i: int) -> Option<int>
    decreases assets.len() - i,
{
    if i < 0 || i >= assets.len() {
        None
    } else if all_patterns_match(patterns, assets[i].name@) {
        Some(i)
    } else {
        first_asset_from(assets, patterns, i + 1)
    }
}

/// The address of the feed that lists a repository's releases.
pub fn releases_url(owner: &str, repo: &str) -> (r: String)
    ensures
        r@ == seq!['h', 't', 't', 'p', 's', ':', '/', '/', 'a', 'p', 'i', '.', 'g', 'i', 't', 'h', 'u', 'b', '.', 'c', 'o', 'm']
            + seq!['/', 'r', 'e', 'p', 'o', 's', '/'] + owner@ + seq!['/'] + repo@ + seq!['/', 'r', 'e', 'l', 'e', 'a', 's', 'e', 's'],
{
    let mut out = String::new();
    crate::text::push_chars(&mut out, &vec!['h', 't', 't', 'p', 's', ':', '/', '/', 'a', 'p', 'i', '.', 'g', 'i', 't', 'h', 'u', 'b', '.', 'c', 'o', 'm']);
    crate::text::push_chars(&mut out, &vec!['/', 'r', 'e', 'p', 'o', 's', '/']);
    push_str(&mut out, owner);
    out.push('/');
    push_str(&mut out, repo);
    crate::text::push_chars(&mut out, &vec!['/', 'r', 'e', 'l', 'e', 'a', 's', 'e', 's']);
    out
}

fn tag_version_of(release: &Release) -> (r: Option<Version>)
    ensures
        r is Some <==> tag_version(*release) is Some,
        r is Some ==> r->0@ == tag_version(*release)->0,
{
    let ignore = stable_label_list();
    match parse_semver_version(release.tag_name.as_str(), &ignore) {
        Ok(v) => Some(v),
        Err(_) => None,
    }
}

fn range_allows_exec(like: &Option<VersionRange>, v: &Version) -> (r: bool)
    ensures
        r == range_allows(like_view(*like), v@),
{
    match like {
        Some(range) => range.matches(v),
        None => true,
    }
}

/// The index of the first release whose tag denotes exactly `version_exact`;
/// releases whose tag is no version are passed over.
fn find_exact_release_version(releases: &Vec<Release>, version_exact: &Version) -> (r: Option<usize>)
    ensures
        r is Some ==> r->0 < releases@.len(),
        r is Some <==> first_exact_from(releases@, version_exact@, 0) is Some,
        r is Some ==> r->0 as int == first_exact_from(releases@, version_exact@, 0)->0,
{
    let mut i: usize = 0;
    while i < releases.len()
        invariant
            i <= releases@.len(),
            first_exact_from(releases@, version_exact@, 0) == first_exact_from(releases@, version_exact@, i as int),
        decreases releases@.len() - i,
    {
        match tag_version_of(&releases[i]) {
            Some(v) => {
                if v.same(version_exact) {
                    return Some(i);
                }
            },
            None => {},
        }
        i = i + 1;
    }
    None
}

/// The index of the release with the greatest version that `version_like`
/// accepts (any, where there is no requirement); the first of equal versions
/// wins.
fn find_latest_release(releases: &Vec<Release>, version_like: &Option<VersionRange>) -> (r: Option<usize>)
    ensures
        r is Some ==> r->0 < releases@.len(),
        r is Some <==> best_among(releases@, like_view(*version_like), releases@.len() as int) is Some,
        r is Some ==> r->0 as int == best_among(releases@, like_view(*version_like), releases@.len() as int)->0,
{
    let mut best: Option<usize> = None;
    let mut best_version: Option<Version> = None;
    let mut i: usize = 0;
    while i < releases.len()
        invariant
            i <= releases@.len(),
            best is Some <==> best_among(releases@, like_view(*version_like), i as int) is Some,
            best is Some ==> best->0 as int == best_among(releases@, like_view(*version_like), i as int)->0,
            best is Some <==> best_version is Some,
            best is Some ==> best->0 < i && tag_version(releases@[best->0 as int]) == Some(best_version->0@),
        decreases releases@.len() - i,
    {
        match tag_version_of(&releases[i]) {
            Some(v) => {
                if range_allows_exec(version_like, &v) {
                    let replace = match &best_version {
                        None => true,
                        Some(b) => b.precedes(&v),
                    };
                    if replace {
                        best = Some(i);
                        best_version = Some(v);
                    }
                }
            },
            None => {},
        }
        i = i + 1;
    }
    best
}

/// Copies a release, keeping only the asset at index `j`.
fn with_single_asset(release: &Release, j: usize) -> (r: Release)
    requires
        j < release.assets@.len(),
    ensures
        same_release_head(r, *release),
        r.assets@.len() == 1,
        same_asset(r.assets@[0], release.assets@[j as int]),
{
    let mut assets: Vec<Asset> = Vec::new();
    assets.push(release.assets[j].copy());
    Release {
        url: release.url.clone(),
        tag_name: release.tag_name.clone(),
        published_at: release.published_at,
        assets,
    }
}

/// Copies a release with all its assets.
fn copy_release(release: &Release) -> (r: Release)
    ensures
        same_release_head(r, *release),
        r.assets@.len() == release.assets@.len(),
        forall|j: int| 0 <= j < r.assets@.len() ==> same_asset(#[trigger] r.assets@[j], release.assets@[j]),
{
    let mut assets: Vec<Asset> = Vec::new();
    let mut j: usize = 0;
    while j < release.assets.len()
        invariant
            j <= release.assets@.len(),
            assets@.len() == j,
            forall|k: int| 0 <= k < j ==> same_asset(#[trigger] assets@[k], release.assets@[k]),
        decreases release.assets@.len() - j,
    {
        assets.push(release.assets[j].copy());
        j = j + 1;
    }
    Release {
        url: release.url.clone(),
        tag_name: release.tag_name.clone(),
        published_at: release.published_at,
        assets,
    }
}

fn select_release(releases: &Vec<Release>, version_exact: &Option<Version>, version_like: &Option<VersionRange>) -> (r: Option<usize>)
    ensures
        r is Some ==> r->0 < releases@.len(),
        r is Some <==> selected_index(releases@, exact_view(*version_exact), like_view(*version_like)) is Some,
        r is Some ==> r->0 as int == selected_index(releases@, exact_view(*version_exact), like_view(*version_like))->0,
{
    match version_exact {
        Some(v) => find_exact_release_version(releases, v),
        None => find_latest_release(releases, version_like),
    }
}

/// The release that the request selects (see `selected_index`).
pub fn find_release(releases: &Vec<Release>, version_exact: &Option<Version>, version_like: &Option<VersionRange>) -> (r: Result<Release, GdError>)
    ensures
        r is Ok <==> selected_index(releases@, exact_view(*version_exact), like_view(*version_like)) is Some,
        r is Ok ==> {
            let k = selected_index(releases@, exact_view(*version_exact), like_view(*version_like))->0;
            &&& same_release_head(r->Ok_0, releases@[k])
            &&& r->Ok_0.assets@.len() == releases@[k].assets@.len()
            &&& forall|j: int| 0 <= j < r->Ok_0.assets@.len() ==> same_asset(#[trigger] r->Ok_0.assets@[j], releases@[k].assets@[j])
        },
        r is Err ==> (if version_exact is Some {
            r->Err_0 is ExactNotFound
        } else {
            r->Err_0 is NoMatchingRelease
        }),
{
    match select_release(releases, version_exact, version_like) {
        Some(k) => Ok(copy_release(&releases[k])),
        None => match version_exact {
            Some(_) => Err(GdError::ExactNotFound),
            None => Err(GdError::NoMatchingRelease),
        },
    }
}

fn all_match_exec(patterns: &Vec<String>, name: &String) -> (r: bool)
    ensures
        r == all_patterns_match(patterns_view(patterns@), name@),
{
    let mut k: usize = 0;
    while k < patterns.len()
        invariant
            k <= patterns@.len(),
            patterns_view(patterns@).len() == patterns@.len(),
            forall|m: int| 0 <= m < k ==> pattern_found(#[trigger] patterns_view(patterns@)[m], name@),
        decreases patterns@.len() - k,
    {
        if !pattern_matches(patterns[k].as_str(), name.as_str()) {
            assert(patterns_view(patterns@)[k as int] == patterns@[k as int]@);
            return false;
        }
        k = k + 1;
    }
    true
}

fn first_asset(assets: &Vec<Asset>, patterns: &Vec<String>) -> (r: Option<usize>)
    ensures
        r is Some ==> r->0 < assets@.len(),
        r is Some <==> first_asset_from(assets@, patterns_view(patterns@), 0) is Some,
        r is Some ==> r->0 as int == first_asset_from(assets@, patterns_view(patterns@), 0)->0,
{
    let mut i: usize = 0;
    while i < assets.len()
        invariant
            i <= assets@.len(),
            first_asset_from(assets@, patterns_view(patterns@), 0) == first_asset_from(assets@, patterns_view(patterns@), i as int),
        decreases assets@.len() - i,
    {
        if all_match_exec(patterns, &assets[i].name) {
            return Some(i);
        }
        i = i + 1;
    }
    None
}

/// The release that the request selects, with only the first of its assets
/// whose name every pattern of `asset_name_like` matches.
pub fn find_release_with_asset(
    releases: &Vec<Release>,
    version_exact: &Option<Version>,
    version_like: &Option<VersionRange>,
    asset_name_like: &Vec<String>,
) -> (r: Result<Release, GdError>)
    ensures
        ({
            let sel = selected_index(releases@, exact_view(*version_exact), like_view(*version_like));
            &&& r is Ok <==> (sel is Some && first_asset_from(releases@[sel->0].assets@, patterns_view(asset_name_like@), 0) is Some)
            &&& r is Ok ==> {
                let rel = releases@[sel->0];
                let j = first_asset_from(rel.assets@, patterns_view(asset_name_like@), 0)->0;
                &&& same_release_head(r->Ok_0, rel)
                &&& r->Ok_0.assets@.len() == 1
                &&& same_asset(r->Ok_0.assets@[0], rel.assets@[j])
            }
            &&& sel is None ==> r is Err && (if version_exact is Some {
                r->Err_0 is ExactNotFound
            } else {
                r->Err_0 is NoMatchingRelease
            })
            &&& (sel is Some && r is Err) ==> r->Err_0 is NoMatchingAsset
        }),
{
    let k = match select_release(releases, version_exact, version_like) {
        Some(k) => k,
        None => {
            return match version_exact {
                Some(_) => Err(GdError::ExactNotFound),
                None => Err(GdError::NoMatchingRelease),
            };
        },
    };
    let release = &releases[k];
    match first_asset(&release.assets, asset_name_like) {
        Some(j) => Ok(with_single_asset(release, j)),
        None => Err(GdError::NoMatchingAsset(release.tag_name.clone())),
    }
}

} // verus!
