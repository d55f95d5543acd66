//! The naming grammar of the engine's release assets and installation
//! directories: `Godot_v<version>_<fragment>`, where the fragment names the
//! platform, the architecture and the flavour.
use vstd::prelude::*;

use crate::common::{supports, Architecture, Flavour, GdError, Platform};
use crate::gd_semver::{
    exact_view, like_view, parse_semver_version, parsed_version, stable_label_list, stable_labels, version_text_ok, Version, VersionRange,
};
use crate::github::github_repo::{self as gh, first_asset_from, patterns_view, same_asset, same_release_head, selected_index, Release};
use crate::text::{
    chars_of, contains, find_from, has_infix, lemma_next_index_of_bounds, next_index_of, occurs_at, push_chars, push_str,
    string_of,
};

verus! {

// ---------------------------------------------------------------------------
// The words of the grammar
// ---------------------------------------------------------------------------

pub open spec fn word_mono() -> Seq<char> {
    seq!['m', 'o', 'n', 'o']
}

pub open spec fn word_win32() -> Seq<char> {
    seq!['w', 'i', 'n', '3', '2']
}

pub open spec fn word_win64() -> Seq<char> {
    seq!['w', 'i', 'n', '6', '4']
}

pub open spec fn word_macos() -> Seq<char> {
    seq!['m', 'a', 'c', 'o', 's']
}

pub open spec fn word_linux() -> Seq<char> {
    seq!['l', 'i', 'n', 'u', 'x']
}

pub open spec fn word_arm32() -> Seq<char> {
    seq!['a', 'r', 'm', '3', '2']
}

pub open spec fn word_arm64() -> Seq<char> {
    seq!['a', 'r', 'm', '6', '4']
}

pub open spec fn word_x86_64() -> Seq<char> {
    seq!['x', '8', '6', '_', '6', '4']
}

pub open spec fn word_x86_32() -> Seq<char> {
    seq!['x', '8', '6', '_', '3', '2']
}

/// The architecture part of a Linux fragment.
pub open spec fn linux_arch_word(a: Architecture) -> Seq<char> {
    match a {
        Architecture::Arm32 => word_arm32(),
        Architecture::Arm64 => word_arm64(),
        Architecture::X64 => word_x86_64(),
        _ => word_x86_32(),
    }
}

/// The asset-name fragment of a supported variant.
pub open spec fn asset_fragment(p: Platform, a: Architecture, f: Flavour) -> Seq<char> {
    let mono = if f == Flavour::Mono {
        word_mono().push('_')
    } else {
        Seq::empty()
    };
    match p {
        Platform::Windows => mono + seq!['w', 'i', 'n'] + (if a == Architecture::X64 {
            seq!['6', '4']
        } else {
            seq!['3', '2']
        }) + (if f == Flavour::Mono {
            Seq::empty()
        } else {
            seq!['.', 'e', 'x', 'e']
        }),
        Platform::Linux => mono + word_linux() + (if f == Flavour::Mono {
            seq!['_']
        } else {
            seq!['.']
        }) + linux_arch_word(a),
        Platform::MacOS => mono + word_macos() + seq!['.', 'u', 'n', 'i', 'v', 'e', 'r', 's', 'a', 'l'],
    }
}

pub open spec fn name_prefix() -> Seq<char> {
    seq!['G', 'o', 'd', 'o', 't', '_', 'v']
}

/// The canonical name of a build: `Godot_v<version>_<fragment>`.
pub open spec fn canonical_name(version: Seq<char>, p: Platform, a: Architecture, f: Flavour) -> Seq<char> {
    name_prefix() + version + seq!['_'] + asset_fragment(p, a, f)
}

// ---------------------------------------------------------------------------
// Reading a name
// ---------------------------------------------------------------------------

/// The first index at or after `i` where `_v` starts, or `s.len()`.
pub open spec fn marker_from(s: Seq<char>, i: int) -> int
    decreases s.len() - i,
{
    if i < 0 || i + 1 >= s.len() {
        s.len() as int
    } else if s[i] == '_' && s[i + 1] == 'v' {
        i
    } else {
        marker_from(s, i + 1)
    }
}

/// Where the version text of a name starts and ends: after the first `_v`,
/// up to the next `_`.
pub open spec fn version_span(s: Seq<char>) -> Option<(int, int)> {
    let m = marker_from(s, 0);
    let e = next_index_of(s, '_', m + 1);
    if m < s.len() && e < s.len() {
        Some((m + 2, e))
    } else {
        None
    }
}

pub open spec fn flavour_of(s: Seq<char>) -> Flavour {
    if has_infix(s, word_mono()) {
        Flavour::Mono
    } else {
        Flavour::Standard
    }
}

pub open spec fn platform_of(s: Seq<char>) -> Option<Platform> {
    if has_infix(s, word_win32()) || has_infix(s, word_win64()) {
        Some(Platform::Windows)
    } else if has_infix(s, word_macos()) {
        Some(Platform::MacOS)
    } else if has_infix(s, word_linux()) {
        Some(Platform::Linux)
    } else {
        None
    }
}

pub open spec fn architecture_of(s: Seq<char>, p: Platform) -> Option<Architecture> {
    match p {
        Platform::MacOS => Some(Architecture::Universal),
        Platform::Windows => if has_infix(s, word_win32()) {
            Some(Architecture::X86)
        } else if has_infix(s, word_win64()) {
            Some(Architecture::X64)
        } else {
            None
        },
        Platform::Linux => if has_infix(s, word_arm32()) {
            Some(Architecture::Arm32)
        } else if has_infix(s, word_arm64()) {
            Some(Architecture::Arm64)
        } else if has_infix(s, word_x86_64()) {
            Some(Architecture::X64)
        } else if has_infix(s, word_x86_32()) {
            Some(Architecture::X86)
        } else {
            None
        },
    }
}

/// The version text of a name, where the name has one.
pub open spec fn version_text_of(s: Seq<char>) -> Option<Seq<char>> {
    match version_span(s) {
        Some(span) => Some(s.subrange(span.0, span.1)),
        None => None,
    }
}

/// Whether `s` reads as a canonical name.
pub open spec fn name_ok(s: Seq<char>) -> bool {
    &&& version_text_of(s) is Some
    &&& version_text_ok(version_text_of(s)->0)
    &&& platform_of(s) is Some
    &&& architecture_of(s, platform_of(s)->0) is Some
}

/// The parts of a canonical name.
#[derive(Clone, Debug)]
pub struct GodotVersionNameParts {
    pub version_string: String,
    pub version: Version,
    pub version_name: String,
    pub platform: Platform,
    pub architecture: Architecture,
    pub flavour: Flavour,
}

/// `parts` are what the name `s` reads as.
pub open spec fn parts_of_name(s: Seq<char>, parts: GodotVersionNameParts) -> bool {
    let p = platform_of(s)->0;
    &&& parts.version_name@ == s
    &&& parts.version_string@ == version_text_of(s)->0
    &&& parts.version@ == parsed_version(version_text_of(s)->0, stable_labels())
    &&& parts.platform == p
    &&& parts.architecture == architecture_of(s, p)->0
    &&& parts.flavour == flavour_of(s)
}

proof fn lemma_marker_from(s: Seq<char>, i: int)
    requires
        0 <= i,
    ensures
        marker_from(s, i) < s.len() ==> i <= marker_from(s, i) && marker_from(s, i) + 1 < s.len()
            && s[marker_from(s, i)] == '_' && s[marker_from(s, i) + 1] == 'v',
    decreases s.len() - i,
{
    if i + 1 < s.len() && !(s[i] == '_' && s[i + 1] == 'v') {
        lemma_marker_from(s, i + 1);
    }
}

fn marker_position(s: &Vec<char>) -> (r: usize)
    ensures
        r == marker_from(s@, 0),
{
    let mut i: usize = 0;
    while i < s.len() && i + 1 < s.len()
        invariant
            i <= s@.len(),
            marker_from(s@, 0) == marker_from(s@, i as int),
        decreases s@.len() - i,
    {
        if s[i] == '_' && s[i + 1] == 'v' {
            return i;
        }
        i = i + 1;
    }
    s.len()
}

/// The version text of a name and the version it denotes, a `stable` label
/// dropped.
fn parse_version_from_version_name(version_name: &str) -> (r: Result<(String, Version), GdError>)
    ensures
        r is Ok <==> (version_text_of(version_name@) is Some && version_text_ok(
            version_text_of(version_name@)->0,
        )),
        r is Ok ==> r->Ok_0.0@ == version_text_of(version_name@)->0 && r->Ok_0.1@ == parsed_version(
            version_text_of(version_name@)->0,
            stable_labels(),
        ),
        r is Err ==> r->Err_0 is InvalidName,
{
    let s = chars_of(version_name);
    let m = marker_position(&s);
    if m >= s.len() {
        return Err(GdError::InvalidName(String::from_str(version_name)));
    }
    let e = find_from(&s, '_', m + 1);
    if e >= s.len() {
        return Err(GdError::InvalidName(String::from_str(version_name)));
    }
    proof {
        lemma_marker_from(s@, 0);
        lemma_next_index_of_bounds(s@, '_', m + 1);
    }
    let version_string = string_of(&s, m + 2, e);
    let ignore = stable_label_list();
    match parse_semver_version(version_string.as_str(), &ignore) {
        Ok(v) => Ok((version_string, v)),
        Err(_) => Err(GdError::InvalidName(String::from_str(version_name))),
    }
}

fn parse_flavour_from_version_name(version_name: &Vec<char>) -> (r: Flavour)
    ensures
        r == flavour_of(version_name@),
{
    if contains(version_name, &vec!['m', 'o', 'n', 'o']) {
        Flavour::Mono
    } else {
        Flavour::Standard
    }
}

fn parse_platform_from_version_name(version_name: &Vec<char>) -> (r: Option<Platform>)
    ensures
        r == platform_of(version_name@),
{
    if contains(version_name, &vec!['w', 'i', 'n', '3', '2']) || contains(version_name, &vec!['w', 'i', 'n', '6', '4']) {
        return Some(Platform::Windows);
    }
    if contains(version_name, &vec!['m', 'a', 'c', 'o', 's']) {
        return Some(Platform::MacOS);
    }
    if contains(version_name, &vec!['l', 'i', 'n', 'u', 'x']) {
        return Some(Platform::Linux);
    }
    None
}

fn parse_architecture_from_version_name(version_name: &Vec<char>, platform: Platform) -> (r: Option<Architecture>)
    ensures
        r == architecture_of(version_name@, platform),
{
    match platform {
        Platform::MacOS => Some(Architecture::Universal),
        Platform::Windows => {
            if contains(version_name, &vec!['w', 'i', 'n', '3', '2']) {
                return Some(Architecture::X86);
            }
            if contains(version_name, &vec!['w', 'i', 'n', '6', '4']) {
                return Some(Architecture::X64);
            }
            None
        },
        Platform::Linux => {
            if contains(version_name, &vec!['a', 'r', 'm', '3', '2']) {
                return Some(Architecture::Arm32);
            }
            if contains(version_name, &vec!['a', 'r', 'm', '6', '4']) {
                return Some(Architecture::Arm64);
            }
            if contains(version_name, &vec!['x', '8', '6', '_', '6', '4']) {
                return Some(Architecture::X64);
            }
            if contains(version_name, &vec!['x', '8', '6', '_', '3', '2']) {
                return Some(Architecture::X86);
            }
            None
        },
    }
}

/// Reads a canonical name: the version text after `_v`, the platform, the
/// architecture and the flavour that its words name.
pub fn parse_version_name(version_name: &str) -> (r: Result<GodotVersionNameParts, GdError>)
    ensures
        r is Ok <==> name_ok(version_name@),
        r is Ok ==> parts_of_name(version_name@, r->Ok_0),
        r is Err ==> r->Err_0 is InvalidName,
{
    let (version_string, version) = parse_version_from_version_name(version_name)?;
    let s = chars_of(version_name);
    let flavour = parse_flavour_from_version_name(&s);
    let platform = match parse_platform_from_version_name(&s) {
        Some(p) => p,
        None => return Err(GdError::InvalidName(String::from_str(version_name))),
    };
    let architecture = match parse_architecture_from_version_name(&s, platform) {
        Some(a) => a,
        None => return Err(GdError::InvalidName(String::from_str(version_name))),
    };
    Ok(GodotVersionNameParts {
        version_string,
        version,
        version_name: String::from_str(version_name),
        platform,
        architecture,
        flavour,
    })
}

// ---------------------------------------------------------------------------
// Writing a name
// ---------------------------------------------------------------------------

/// The fragment that names a variant in asset names; fails where the platform
/// has no build for the architecture.
pub fn generate_asset_name(platform: &Platform, architecture: &Architecture, flavour: &Flavour) -> (r: Result<String, GdError>)
    ensures
        r is Ok <==> supports(*platform, *architecture),
        r is Ok ==> r->Ok_0@ == asset_fragment(*platform, *architecture, *flavour),
        r is Err ==> r->Err_0 == GdError::UnsupportedVariant(*platform, *architecture),
{
    if !supports_exec(*platform, *architecture) {
        return Err(GdError::UnsupportedVariant(*platform, *architecture));
    }
    let mut out = String::new();
    if *flavour == Flavour::Mono {
        push_chars(&mut out, &vec!['m', 'o', 'n', 'o', '_']);
    }
    let ghost mono = out@;
    assert(mono =~= (if *flavour == Flavour::Mono { word_mono().push('_') } else { Seq::<char>::empty() }));
    match platform {
        Platform::Windows => {
            push_chars(&mut out, &vec!['w', 'i', 'n']);
            if *architecture == Architecture::X64 {
                push_chars(&mut out, &vec!['6', '4']);
            } else {
                push_chars(&mut out, &vec!['3', '2']);
            }
            if *flavour != Flavour::Mono {
                push_chars(&mut out, &vec!['.', 'e', 'x', 'e']);
            }
        },
        Platform::Linux => {
            push_chars(&mut out, &vec!['l', 'i', 'n', 'u', 'x']);
            if *flavour == Flavour::Mono {
                push_chars(&mut out, &vec!['_']);
            } else {
                push_chars(&mut out, &vec!['.']);
            }
            match architecture {
                Architecture::Arm32 => push_chars(&mut out, &vec!['a', 'r', 'm', '3', '2']),
                Architecture::Arm64 => push_chars(&mut out, &vec!['a', 'r', 'm', '6', '4']),
                Architecture::X64 => push_chars(&mut out, &vec!['x', '8', '6', '_', '6', '4']),
                _ => push_chars(&mut out, &vec!['x', '8', '6', '_', '3', '2']),
            }
        },
        Platform::MacOS => {
            push_chars(&mut out, &vec!['m', 'a', 'c', 'o', 's', '.', 'u', 'n', 'i', 'v', 'e', 'r', 's', 'a', 'l']);
        },
    }
    assert(out@ =~= asset_fragment(*platform, *architecture, *flavour));
    Ok(out)
}

fn supports_exec(platform: Platform, architecture: Architecture) -> (r: bool)
    ensures
        r == supports(platform, architecture),
{
    match platform {
        Platform::Windows => architecture == Architecture::X86 || architecture == Architecture::X64,
        Platform::Linux => architecture != Architecture::Universal,
        Platform::MacOS => architecture == Architecture::Universal,
    }
}

/// The canonical name of a build of `version` for a variant.
pub fn generate_version_name(version: &str, platform: &Platform, architecture: &Architecture, flavour: &Flavour) -> (r: Result<String, GdError>)
    ensures
        r is Ok <==> supports(*platform, *architecture),
        r is Ok ==> r->Ok_0@ == canonical_name(version@, *platform, *architecture, *flavour),
        r is Err ==> r->Err_0 == GdError::UnsupportedVariant(*platform, *architecture),
{
    let fragment = generate_asset_name(platform, architecture, flavour)?;
    let mut out = String::new();
    push_chars(&mut out, &vec!['G', 'o', 'd', 'o', 't', '_', 'v']);
    push_str(&mut out, version);
    push_chars(&mut out, &vec!['_']);
    push_str(&mut out, fragment.as_str());
    assert(out@ =~= canonical_name(version@, *platform, *architecture, *flavour));
    Ok(out)
}

/// The release that the request selects, with only its first asset for the
/// variant: the first whose name the variant's fragment matches.
pub fn find_release_with_asset(
    version_exact: &Option<Version>,
    version_like: &Option<VersionRange>,
    platform: &Platform,
    architecture: &Architecture,
    flavour: &Flavour,
    releases: &Vec<Release>,
) -> (r: Result<Release, GdError>)
    ensures
        !supports(*platform, *architecture) ==> r is Err && r->Err_0 == GdError::UnsupportedVariant(
            *platform,
            *architecture,
        ),
        supports(*platform, *architecture) ==> ({
            let sel = selected_index(releases@, exact_view(*version_exact), like_view(*version_like));
            let pats = seq![asset_fragment(*platform, *architecture, *flavour)];
            &&& r is Ok <==> (sel is Some && first_asset_from(releases@[sel->0].assets@, pats, 0) is Some)
            &&& r is Ok ==> {
                let rel = releases@[sel->0];
                let j = first_asset_from(rel.assets@, pats, 0)->0;
                &&& same_release_head(r->Ok_0, rel)
                &&& r->Ok_0.assets@.len() == 1
                &&& same_asset(r->Ok_0.assets@[0], rel.assets@[j])
            }
            &&& sel is None ==> r is Err && (if version_exact is Some {
                r->Err_0 is ExactNotFound
            } else {
                r->Err_0 is NoMatchingRelease
            })
            &&& (sel is Some && r is Err) ==> r->Err_0 is NoMatchingAsset
        }),
{
    let fragment = generate_asset_name(platform, architecture, flavour)?;
    let mut checks: Vec<String> = Vec::new();
    checks.push(fragment);
    assert(patterns_view(checks@) =~= seq![asset_fragment(*platform, *architecture, *flavour)]);
    gh::find_release_with_asset(releases, version_exact, version_like, &checks)
}

// ---------------------------------------------------------------------------
// Reading back a written name
// ---------------------------------------------------------------------------

/// The words without `_` whose presence in a name decides its platform,
/// architecture or flavour.
pub open spec fn marker_words() -> Seq<Seq<char>> {
    seq![word_mono(), word_win32(), word_win64(), word_macos(), word_linux(), word_arm32(), word_arm64()]
}

/// A word without `v` or `_`, whose first character is not in the prefix,
/// occurs in `Godot_v<version>_<fragment>` exactly where it occurs in the
/// fragment, if the version lacks it.
proof fn lemma_plain_word_in_name(v: Seq<char>, fr: Seq<char>, w: Seq<char>)
    requires
        w.len() > 0,
        !w.contains('v'),
        !w.contains('_'),
        !name_prefix().contains(w[0]),
        !has_infix(v, w),
    ensures
        has_infix(name_prefix() + v + seq!['_'] + fr, w) == has_infix(fr, w),
{
    let p = name_prefix();
    let u = seq!['_'];
    crate::text::lemma_infix_needs_char(p, w, 0);
    crate::text::lemma_infix_split(p, v, w);
    if p.len() > 0 {
        assert(p.last() == 'v');
    }
    crate::text::lemma_infix_needs_char(u, w, 0);
    crate::text::lemma_infix_split(p + v, u, w);
    assert((p + v + u).last() == '_');
    crate::text::lemma_infix_split(p + v + u, fr, w);
}

/// `x86_64` and `x86_32` occur in `Godot_v<version>_<fragment>` exactly where
/// they occur in the fragment: the head of such a name has `_` only before
/// `v` and at its end.
proof fn lemma_underscore_word_in_name(v: Seq<char>, fr: Seq<char>, w: Seq<char>)
    requires
        w.len() == 6,
        w[3] == '_',
        w[4] != 'v',
        !v.contains('_'),
        fr.len() > 0,
        !w.contains(fr[0]),
    ensures
        has_infix(name_prefix() + v + seq!['_'] + fr, w) == has_infix(fr, w),
{
    let p = name_prefix();
    let q = p + v + seq!['_'];
    if has_infix(q, w) {
        let i = choose|i: int| occurs_at(q, w, i);
        assert(q.subrange(i, i + 6)[3] == q[i + 3]);
        assert(q.subrange(i, i + 6)[4] == q[i + 4]);
        if i + 3 >= 7 {
            assert(q[i + 3] == v[i + 3 - 7]);
        } else {
            assert(q[i + 3] == p[i + 3]);
            assert(i + 3 == 5);
            assert(q[6] == 'v');
        }
    }
    assert(q.last() == '_');
    crate::text::lemma_infix_split(q, fr, w);
}

proof fn lemma_absent(s: Seq<char>, w: Seq<char>, k: int)
    requires
        0 <= k < w.len(),
        !s.contains(w[k]),
    ensures
        !has_infix(s, w),
{
    crate::text::lemma_infix_needs_char(s, w, k);
}

proof fn lemma_present(s: Seq<char>, w: Seq<char>, i: int)
    requires
        0 <= i,
        i + w.len() <= s.len(),
        s.subrange(i, i + w.len()) =~= w,
    ensures
        has_infix(s, w),
{
    crate::text::lemma_infix_at(s, w, i);
}

#[verifier::rlimit(60)]
proof fn lemma_windows_fragment(a: Architecture, f: Flavour)
    requires
        supports(Platform::Windows, a),
    ensures
        platform_of(asset_fragment(Platform::Windows, a, f)) == Some(Platform::Windows),
        architecture_of(asset_fragment(Platform::Windows, a, f), Platform::Windows) == Some(a),
        flavour_of(asset_fragment(Platform::Windows, a, f)) == f,
{
    let fr = asset_fragment(Platform::Windows, a, f);
    if f == Flavour::Mono {
        if a == Architecture::X64 {
            assert(fr =~= seq!['m', 'o', 'n', 'o', '_', 'w', 'i', 'n', '6', '4']);
            lemma_present(fr, word_mono(), 0);
            lemma_absent(fr, word_win32(), 3);
            lemma_present(fr, word_win64(), 5);
        } else {
            assert(fr =~= seq!['m', 'o', 'n', 'o', '_', 'w', 'i', 'n', '3', '2']);
            lemma_present(fr, word_mono(), 0);
            lemma_present(fr, word_win32(), 5);
        }
    } else {
        if a == Architecture::X64 {
            assert(fr =~= seq!['w', 'i', 'n', '6', '4', '.', 'e', 'x', 'e']);
            lemma_absent(fr, word_mono(), 0);
            lemma_absent(fr, word_win32(), 3);
            lemma_present(fr, word_win64(), 0);
        } else {
            assert(fr =~= seq!['w', 'i', 'n', '3', '2', '.', 'e', 'x', 'e']);
            lemma_absent(fr, word_mono(), 0);
            lemma_present(fr, word_win32(), 0);
        }
    }
}

proof fn lemma_arch_word_chars(a: Architecture)
    ensures
        !linux_arch_word(a).contains('w'),
        !linux_arch_word(a).contains('c'),
        !linux_arch_word(a).contains('o'),
        !linux_arch_word(a).contains('l'),
{
    match a {
        Architecture::Arm32 => {},
        Architecture::Arm64 => {},
        Architecture::X64 => {},
        _ => {},
    }
}

/// The words that decide platform and flavour occur in a Linux fragment
/// exactly where they occur in its head, `linux.` or `mono_linux_`.
proof fn lemma_linux_head_word(head: Seq<char>, a: Architecture, w: Seq<char>, k: int)
    requires
        head.len() > 0,
        head.last() == '.' || head.last() == '_',
        !w.contains('.'),
        !w.contains('_'),
        0 <= k < w.len(),
        w[k] == 'w' || w[k] == 'c' || w[k] == 'o' || w[k] == 'l',
    ensures
        has_infix(head + linux_arch_word(a), w) == has_infix(head, w),
{
    lemma_arch_word_chars(a);
    lemma_absent(linux_arch_word(a), w, k);
    crate::text::lemma_infix_split(head, linux_arch_word(a), w);
}

#[verifier::rlimit(60)]
proof fn lemma_linux_head_mono(a: Architecture)
    requires
        supports(Platform::Linux, a),
    ensures
        platform_of(asset_fragment(Platform::Linux, a, Flavour::Mono)) == Some(Platform::Linux),
        flavour_of(asset_fragment(Platform::Linux, a, Flavour::Mono)) == Flavour::Mono,
{
    let fr = asset_fragment(Platform::Linux, a, Flavour::Mono);
    let head = seq!['m', 'o', 'n', 'o', '_', 'l', 'i', 'n', 'u', 'x', '_'];
    assert(fr =~= head + linux_arch_word(a));
    lemma_linux_head_word(head, a, word_mono(), 1);
    lemma_linux_head_word(head, a, word_win32(), 0);
    lemma_linux_head_word(head, a, word_win64(), 0);
    lemma_linux_head_word(head, a, word_macos(), 2);
    lemma_linux_head_word(head, a, word_linux(), 0);
    lemma_absent(head, word_win32(), 0);
    lemma_absent(head, word_win64(), 0);
    lemma_absent(head, word_macos(), 2);
    lemma_present(head, word_mono(), 0);
    lemma_present(head, word_linux(), 5);
}

#[verifier::rlimit(60)]
proof fn lemma_linux_head_standard(a: Architecture)
    requires
        supports(Platform::Linux, a),
    ensures
        platform_of(asset_fragment(Platform::Linux, a, Flavour::Standard)) == Some(Platform::Linux),
        flavour_of(asset_fragment(Platform::Linux, a, Flavour::Standard)) == Flavour::Standard,
{
    let fr = asset_fragment(Platform::Linux, a, Flavour::Standard);
    let head = seq!['l', 'i', 'n', 'u', 'x', '.'];
    assert(fr =~= head + linux_arch_word(a));
    lemma_linux_head_word(head, a, word_mono(), 1);
    lemma_linux_head_word(head, a, word_win32(), 0);
    lemma_linux_head_word(head, a, word_win64(), 0);
    lemma_linux_head_word(head, a, word_macos(), 2);
    lemma_linux_head_word(head, a, word_linux(), 0);
    lemma_absent(head, word_win32(), 0);
    lemma_absent(head, word_win64(), 0);
    lemma_absent(head, word_macos(), 2);
    lemma_absent(head, word_mono(), 1);
    lemma_present(head, word_linux(), 0);
}

proof fn lemma_linux_fragment_arch(a: Architecture, f: Flavour)
    requires
        supports(Platform::Linux, a),
    ensures
        architecture_of(asset_fragment(Platform::Linux, a, f), Platform::Linux) == Some(a),
{
    let fr = asset_fragment(Platform::Linux, a, f);
    let head = if f == Flavour::Mono {
        seq!['m', 'o', 'n', 'o', '_', 'l', 'i', 'n', 'u', 'x', '_']
    } else {
        seq!['l', 'i', 'n', 'u', 'x', '.']
    };
    let at = head.len() as int;
    assert(fr =~= head + linux_arch_word(a));
    match a {
        Architecture::Arm32 => {
            lemma_present(fr, word_arm32(), at);
        },
        Architecture::Arm64 => {
            lemma_absent(fr, word_arm32(), 3);
            lemma_present(fr, word_arm64(), at);
        },
        Architecture::X64 => {
            lemma_absent(fr, word_arm32(), 0);
            lemma_absent(fr, word_arm64(), 0);
            lemma_present(fr, word_x86_64(), at);
        },
        _ => {
            lemma_absent(fr, word_arm32(), 0);
            lemma_absent(fr, word_arm64(), 0);
            lemma_absent(fr, word_x86_64(), 5);
            lemma_present(fr, word_x86_32(), at);
        },
    }
}

#[verifier::rlimit(60)]
proof fn lemma_macos_mono_fragment()
    ensures
        platform_of(asset_fragment(Platform::MacOS, Architecture::Universal, Flavour::Mono)) == Some(Platform::MacOS),
        flavour_of(asset_fragment(Platform::MacOS, Architecture::Universal, Flavour::Mono)) == Flavour::Mono,
{
    let fr = asset_fragment(Platform::MacOS, Architecture::Universal, Flavour::Mono);
    assert(fr =~= seq!['m', 'o', 'n', 'o', '_', 'm', 'a', 'c', 'o', 's', '.', 'u', 'n', 'i', 'v', 'e', 'r', 's', 'a', 'l']);
    lemma_present(fr, word_mono(), 0);
    lemma_absent(fr, word_win32(), 0);
    lemma_absent(fr, word_win64(), 0);
    lemma_present(fr, word_macos(), 5);
}

#[verifier::rlimit(60)]
proof fn lemma_macos_standard_fragment()
    ensures
        platform_of(asset_fragment(Platform::MacOS, Architecture::Universal, Flavour::Standard)) == Some(Platform::MacOS),
        flavour_of(asset_fragment(Platform::MacOS, Architecture::Universal, Flavour::Standard)) == Flavour::Standard,
{
    let fr = asset_fragment(Platform::MacOS, Architecture::Universal, Flavour::Standard);
    let tail = seq!['.', 'u', 'n', 'i', 'v', 'e', 'r', 's', 'a', 'l'];
    assert(fr =~= word_macos() + tail);
    lemma_absent(fr, word_win32(), 0);
    lemma_absent(fr, word_win64(), 0);
    lemma_present(fr, word_macos(), 0);
    lemma_absent(word_macos(), word_mono(), 2);
    lemma_absent(tail, word_mono(), 0);
    crate::text::lemma_infix_split(word_macos(), tail, word_mono());
}

/// Each fragment reads as the variant it was written for.
proof fn lemma_fragment_reads(p: Platform, a: Architecture, f: Flavour)
    requires
        supports(p, a),
    ensures
        platform_of(asset_fragment(p, a, f)) == Some(p),
        architecture_of(asset_fragment(p, a, f), p) == Some(a),
        flavour_of(asset_fragment(p, a, f)) == f,
{
    match p {
        Platform::Windows => lemma_windows_fragment(a, f),
        Platform::Linux => {
            if f == Flavour::Mono {
                lemma_linux_head_mono(a);
            } else {
                lemma_linux_head_standard(a);
            }
            lemma_linux_fragment_arch(a, f);
        },
        Platform::MacOS => {
            if f == Flavour::Mono {
                lemma_macos_mono_fragment();
            } else {
                lemma_macos_standard_fragment();
            }
        },
    }
}

/// Writing a canonical name and reading it back gives what went in: the
/// version text, and the platform, architecture and flavour, for every
/// supported variant and every version text that reads as a version and holds
/// none of the words that name a variant (`mono`, `win32`, `win64`, `macos`,
/// `linux`, `arm32`, `arm64`).
pub proof fn lemma_name_round_trip(v: Seq<char>, p: Platform, a: Architecture, f: Flavour)
    requires
        supports(p, a),
        version_text_ok(v),
        forall|k: int| 0 <= k < marker_words().len() ==> !has_infix(v, #[trigger] marker_words()[k]),
    ensures
        name_ok(canonical_name(v, p, a, f)),
        version_text_of(canonical_name(v, p, a, f)) == Some(v),
        platform_of(canonical_name(v, p, a, f)) == Some(p),
        architecture_of(canonical_name(v, p, a, f), p) == Some(a),
        flavour_of(canonical_name(v, p, a, f)) == f,
{
    let pre = name_prefix();
    let fr = asset_fragment(p, a, f);
    let n = canonical_name(v, p, a, f);
    let e = 7 + v.len() as int;
    crate::gd_semver::lemma_version_text_chars(v);
    assert(!v.contains('_'));
    // The version text.
    assert(n[0] == 'G' && n[1] == 'o' && n[2] == 'd' && n[3] == 'o' && n[4] == 't');
    assert(n[5] == '_' && n[6] == 'v');
    assert(marker_from(n, 0) == marker_from(n, 1));
    assert(marker_from(n, 1) == marker_from(n, 2));
    assert(marker_from(n, 2) == marker_from(n, 3));
    assert(marker_from(n, 3) == marker_from(n, 4));
    assert(marker_from(n, 4) == marker_from(n, 5));
    assert(marker_from(n, 5) == 5);
    assert(n[e] == '_');
    assert forall|j: int| 6 <= j < e implies n[j] != '_' by {
        if j > 6 {
            assert(n[j] == v[j - 7]);
        }
    }
    crate::text::lemma_next_index_of_at(n, '_', 6, e);
    assert(n.subrange(7, e) =~= v);
    // The words.
    assert(marker_words()[0] == word_mono());
    assert(marker_words()[1] == word_win32());
    assert(marker_words()[2] == word_win64());
    assert(marker_words()[3] == word_macos());
    assert(marker_words()[4] == word_linux());
    assert(marker_words()[5] == word_arm32());
    assert(marker_words()[6] == word_arm64());
    lemma_plain_word_in_name(v, fr, word_mono());
    lemma_plain_word_in_name(v, fr, word_win32());
    lemma_plain_word_in_name(v, fr, word_win64());
    lemma_plain_word_in_name(v, fr, word_macos());
    lemma_plain_word_in_name(v, fr, word_linux());
    lemma_plain_word_in_name(v, fr, word_arm32());
    lemma_plain_word_in_name(v, fr, word_arm64());
    assert(fr[0] == 'w' || fr[0] == 'l' || fr[0] == 'm');
    lemma_underscore_word_in_name(v, fr, word_x86_64());
    lemma_underscore_word_in_name(v, fr, word_x86_32());
    lemma_fragment_reads(p, a, f);
}

} // verus!
