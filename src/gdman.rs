//! The installation directory and the activation link: where a build's
//! executable lies, which builds are installed, which one is active, and where
//! the entries of a downloaded archive go.
//!
//! Paths are lists of components. The functions here take what a caller read
//! from the disk (a directory listing, a link target) and return what the
//! caller is to do or create.
use vstd::prelude::*;

use crate::common::{Architecture, Flavour, GdError, Platform};
use crate::github::godot_repo::{
    canonical_name, generate_version_name, name_ok, parse_version_name, parts_of_name, GodotVersionNameParts,
};
use crate::common::supports;
use crate::text::{
    chars_of, ends_with, same_chars, lemma_texts_index, lemma_texts_len, lemma_texts_push, push_chars, push_str, slice_of, strip_leading,
    strip_trailing, string_of, texts, trim_end_matches, trim_start_matches,
};

verus! {

/// One entry of a directory listing.
#[derive(Clone, Debug)]
pub struct DirEntryInfo {
    pub name: String,
    pub is_file: bool,
    pub is_dir: bool,
}

/// An installed build: its directory (or, for the active build, its
/// executable) and what its name reads as.
#[derive(Clone, Debug)]
pub struct GodotVersionInfo {
    pub path: Vec<String>,
    pub name_parts: GodotVersionNameParts,
}

pub open spec fn zip_suffix() -> Seq<char> {
    seq!['.', 'z', 'i', 'p']
}

pub open spec fn is_zip_name(name: Seq<char>) -> bool {
    name.len() >= 4 && name.subrange(name.len() - 4, name.len() as int) == zip_suffix()
}

/// The index of the last `c` before index `n`, or -1.
pub open spec fn last_index_before(s: Seq<char>, c: char, n: int) -> int
    decreases n,
{
    if n <= 0 {
        -1
    } else if s[n - 1] == c {
        n - 1
    } else {
        last_index_before(s, c, n - 1)
    }
}

/// A file name without its extension: up to the last dot, unless that dot
/// starts the name.
pub open spec fn stem_of(name: Seq<char>) -> Seq<char> {
    let d = last_index_before(name, '.', name.len() as int);
    if d > 0 {
        name.subrange(0, d)
    } else {
        name
    }
}

/// The indices of the entries among the first `n` that are files (or, with
/// `dirs`, directories).
pub open spec fn entries_of_kind(entries: Seq<DirEntryInfo>, n: int, dirs: bool) -> Seq<int>
    decreases n,
{
    if n <= 0 {
        Seq::empty()
    } else {
        let prev = entries_of_kind(entries, n - 1, dirs);
        let e = entries[n - 1];
        if (dirs && e.is_dir) || (!dirs && e.is_file) {
            prev.push(n - 1)
        } else {
            prev
        }
    }
}

/// The entry is the Windows executable of the directory `dir_name`.
pub open spec fn windows_exe_entry(e: DirEntryInfo, dir_name: Seq<char>) -> bool {
    e.is_file && (e.name@ == dir_name || stem_of(e.name@) == dir_name) && !is_zip_name(e.name@)
}

pub open spec fn first_windows_exe(entries: Seq<DirEntryInfo>, dir_name: Seq<char>, i: int) -> Option<int>
    decreases entries.len() - i,
{
    if i < 0 || i >= entries.len() {
        None
    } else if windows_exe_entry(entries[i], dir_name) {
        Some(i)
    } else {
        first_windows_exe(entries, dir_name, i + 1)
    }
}

/// Where the executable of a build lies inside its directory, by platform:
/// on Linux the one file there, unless it is an archive; on Windows the first
/// file named as the directory, with or without an extension; on macOS
/// `Contents/MacOS/Godot` inside the one subdirectory.
pub open spec fn executable_of(platform: Platform, dir_name: Seq<char>, entries: Seq<DirEntryInfo>) -> Option<Seq<Seq<char>>> {
    match platform {
        Platform::Linux => {
            let files = entries_of_kind(entries, entries.len() as int, false);
            if files.len() == 1 && !is_zip_name(entries[files[0]].name@) {
                Some(seq![entries[files[0]].name@])
            } else {
                None
            }
        },
        Platform::Windows => match first_windows_exe(entries, dir_name, 0) {
            Some(i) => Some(seq![entries[i].name@]),
            None => None,
        },
        Platform::MacOS => {
            let dirs = entries_of_kind(entries, entries.len() as int, true);
            if dirs.len() == 1 {
                Some(seq![entries[dirs[0]].name@, bundle_contents(), bundle_macos(), bundle_binary()])
            } else {
                None
            }
        },
    }
}

pub open spec fn bundle_contents() -> Seq<char> {
    seq!['C', 'o', 'n', 't', 'e', 'n', 't', 's']
}

pub open spec fn bundle_macos() -> Seq<char> {
    seq!['M', 'a', 'c', 'O', 'S']
}

pub open spec fn bundle_binary() -> Seq<char> {
    seq!['G', 'o', 'd', 'o', 't']
}

proof fn lemma_entries_of_kind(entries: Seq<DirEntryInfo>, n: int, dirs: bool)
    requires
        0 <= n <= entries.len(),
    ensures
        forall|k: int| 0 <= k < entries_of_kind(entries, n, dirs).len() ==> 0 <= #[trigger] entries_of_kind(entries, n, dirs)[k] < n,
    decreases n,
{
    if n > 0 {
        lemma_entries_of_kind(entries, n - 1, dirs);
        let prev = entries_of_kind(entries, n - 1, dirs);
        assert forall|k: int| 0 <= k < entries_of_kind(entries, n, dirs).len() implies 0 <= #[trigger] entries_of_kind(entries, n, dirs)[k] < n by {
            if k < prev.len() {
                assert(entries_of_kind(entries, n, dirs)[k] == prev[k]);
            }
        }
    }
}

fn is_zip(name: &Vec<char>) -> (r: bool)
    ensures
        r == is_zip_name(name@),
{
    let suffix = vec!['.', 'z', 'i', 'p'];
    ends_with(name, &suffix)
}

fn stem(name: &Vec<char>) -> (r: Vec<char>)
    ensures
        r@ == stem_of(name@),
{
    let mut n: usize = name.len();
    while n > 0
        invariant
            n <= name@.len(),
            last_index_before(name@, '.', name@.len() as int) == last_index_before(name@, '.', n as int),
        decreases n,
    {
        if name[n - 1] == '.' {
            if n - 1 > 0 {
                return slice_of(name, 0, n - 1);
            }
            return slice_of(name, 0, name.len());
        }
        n = n - 1;
    }
    slice_of(name, 0, name.len())
}

/// The indices of the files (or, with `dirs`, the directories) of a listing.
fn indices_of_kind(entries: &Vec<DirEntryInfo>, dirs: bool) -> (r: Vec<usize>)
    ensures
        r@.len() == entries_of_kind(entries@, entries@.len() as int, dirs).len(),
        forall|k: int| 0 <= k < r@.len() ==> r@[k] as int == #[trigger] entries_of_kind(entries@, entries@.len() as int, dirs)[k],
{
    let mut r: Vec<usize> = Vec::new();
    let mut i: usize = 0;
    while i < entries.len()
        invariant
            i <= entries@.len(),
            r@.len() == entries_of_kind(entries@, i as int, dirs).len(),
            forall|k: int| 0 <= k < r@.len() ==> r@[k] as int == #[trigger] entries_of_kind(entries@, i as int, dirs)[k],
        decreases entries@.len() - i,
    {
        let e = &entries[i];
        if (dirs && e.is_dir) || (!dirs && e.is_file) {
            r.push(i);
        }
        i = i + 1;
    }
    r
}

fn word(c: &Vec<char>) -> (r: String)
    ensures
        r@ == c@,
{
    string_of(c, 0, c.len())
}

/// Where the executable lies inside the directory `dir_name`, given that
/// directory's listing: the components of its path relative to the directory.
pub fn get_godot_exe_path(platform: Platform, dir_name: &str, entries: &Vec<DirEntryInfo>) -> (r: Result<Vec<String>, GdError>)
    ensures
        r is Ok <==> executable_of(platform, dir_name@, entries@) is Some,
        r is Ok ==> texts(r->Ok_0@) == executable_of(platform, dir_name@, entries@)->0,
        r is Err ==> r->Err_0 is ExecutableNotFound,
{
    match platform {
        Platform::Linux => {
            let files = indices_of_kind(entries, false);
            proof {
                lemma_entries_of_kind(entries@, entries@.len() as int, false);
            }
            if files.len() == 1 {
                let name = &entries[files[0]].name;
                if !is_zip(&chars_of(name.as_str())) {
                    let mut out: Vec<String> = Vec::new();
                    out.push(name.clone());
                    proof {
                        lemma_texts_index(out@, 0);
                    }
                    assert(texts(out@) =~= executable_of(platform, dir_name@, entries@)->0);
                    return Ok(out);
                }
            }
            Err(GdError::ExecutableNotFound(String::from_str(dir_name)))
        },
        Platform::Windows => {
            let dir = chars_of(dir_name);
            let mut i: usize = 0;
            while i < entries.len()
                invariant
                    platform == Platform::Windows,
                    i <= entries@.len(),
                    dir@ == dir_name@,
                    first_windows_exe(entries@, dir_name@, 0) == first_windows_exe(entries@, dir_name@, i as int),
                decreases entries@.len() - i,
            {
                let e = &entries[i];
                if e.is_file {
                    let name = chars_of(e.name.as_str());
                    let st = stem(&name);
                    let named = same_chars(&name, &dir) || same_chars(&st, &dir);
                    if named && !is_zip(&name) {
                        let mut out: Vec<String> = Vec::new();
                        out.push(e.name.clone());
                        proof {
                            lemma_texts_index(out@, 0);
                        }
                        assert(name@ == entries@[i as int].name@);
                        assert(windows_exe_entry(entries@[i as int], dir_name@));
                        assert(first_windows_exe(entries@, dir_name@, i as int) == Some(i as int));
                        assert(first_windows_exe(entries@, dir_name@, 0) == Some(i as int));
                        assert(executable_of(platform, dir_name@, entries@) == Some(seq![entries@[i as int].name@]));
                        assert(texts(out@)[0] == entries@[i as int].name@);
                        assert(texts(out@) =~= executable_of(platform, dir_name@, entries@)->0);
                        return Ok(out);
                    }
                }
                i = i + 1;
            }
            Err(GdError::ExecutableNotFound(String::from_str(dir_name)))
        },
        Platform::MacOS => {
            let dirs = indices_of_kind(entries, true);
            proof {
                lemma_entries_of_kind(entries@, entries@.len() as int, true);
            }
            if dirs.len() == 1 {
                let mut out: Vec<String> = Vec::new();
                out.push(entries[dirs[0]].name.clone());
                out.push(word(&vec!['C', 'o', 'n', 't', 'e', 'n', 't', 's']));
                out.push(word(&vec!['M', 'a', 'c', 'O', 'S']));
                out.push(word(&vec!['G', 'o', 'd', 'o', 't']));
                proof {
                    lemma_texts_index(out@, 0);
                    lemma_texts_index(out@, 1);
                    lemma_texts_index(out@, 2);
                    lemma_texts_index(out@, 3);
                }
                assert(texts(out@) =~= executable_of(platform, dir_name@, entries@)->0);
                return Ok(out);
            }
            Err(GdError::ExecutableNotFound(String::from_str(dir_name)))
        },
    }
}

/// How many components lead from a build's directory to its executable.
pub open spec fn exe_depth(platform: Platform) -> int {
    if platform == Platform::MacOS {
        4
    } else {
        1
    }
}

/// The directory of the build whose executable is at `exe_path`: its parent,
/// or on macOS its fourth ancestor.
pub fn get_version_dir_from_exe_path(platform: Platform, exe_path: &Vec<String>) -> (r: Result<Vec<String>, GdError>)
    ensures
        r is Ok <==> exe_path@.len() > exe_depth(platform),
        r is Ok ==> texts(r->Ok_0@) == texts(exe_path@).subrange(0, exe_path@.len() - exe_depth(platform)),
        r is Err ==> r->Err_0 is InvalidName,
{
    let depth: usize = if platform == Platform::MacOS {
        4
    } else {
        1
    };
    if exe_path.len() <= depth {
        return Err(GdError::InvalidName(String::new()));
    }
    let keep = exe_path.len() - depth;
    let mut out: Vec<String> = Vec::new();
    let mut i: usize = 0;
    while i < keep
        invariant
            keep <= exe_path@.len(),
            i <= keep,
            texts(out@) == texts(exe_path@).subrange(0, i as int),
        decreases keep - i,
    {
        let ghost before = out@;
        out.push(exe_path[i].clone());
        proof {
            lemma_texts_push(before, exe_path@[i as int]);
            lemma_texts_index(exe_path@, i as int);
        }
        assert(texts(out@) =~= texts(exe_path@).subrange(0, i + 1));
        i = i + 1;
    }
    Ok(out)
}

fn copy_path(path: &Vec<String>) -> (r: Vec<String>)
    ensures
        texts(r@) == texts(path@),
{
    let mut out: Vec<String> = Vec::new();
    let mut i: usize = 0;
    while i < path.len()
        invariant
            i <= path@.len(),
            texts(out@) == texts(path@).subrange(0, i as int),
        decreases path@.len() - i,
    {
        let ghost before = out@;
        out.push(path[i].clone());
        proof {
            lemma_texts_push(before, path@[i as int]);
            lemma_texts_index(path@, i as int);
        }
        assert(texts(out@) =~= texts(path@).subrange(0, i + 1));
        i = i + 1;
    }
    assert(texts(path@).subrange(0, path@.len() as int) =~= texts(path@));
    out
}

/// The active build, from the target of the activation link (`None` where
/// there is no link): the build whose directory holds that executable.
pub fn get_current_version(platform: Platform, link_target: &Option<Vec<String>>) -> (r: Result<GodotVersionInfo, GdError>)
    ensures
        link_target is None ==> r is Err && r->Err_0 is NoActiveVersion,
        link_target is Some ==> {
            let t = texts(link_target->0@);
            let n = t.len() - exe_depth(platform);
            &&& r is Ok <==> (n > 0 && name_ok(t[n - 1]))
            &&& r is Ok ==> texts(r->Ok_0.path@) == t && parts_of_name(t[n - 1], r->Ok_0.name_parts)
            &&& r is Err ==> r->Err_0 is InvalidName
        },
{
    let target = match link_target {
        None => return Err(GdError::NoActiveVersion),
        Some(t) => t,
    };
    proof {
        lemma_texts_len(target@);
    }
    let dir = get_version_dir_from_exe_path(platform, target)?;
    proof {
        lemma_texts_len(dir@);
    }
    assert(dir@.len() > 0);
    let name = &dir[dir.len() - 1];
    proof {
        lemma_texts_index(dir@, dir@.len() - 1);
    }
    let name_parts = parse_version_name(name.as_str())?;
    Ok(GodotVersionInfo { path: copy_path(target), name_parts })
}

/// The names that `get_installed_versions` considers: those that start with
/// `Godot_`, in listing order.
pub open spec fn install_names(names: Seq<Seq<char>>, n: int) -> Seq<Seq<char>>
    decreases n,
{
    if n <= 0 {
        Seq::empty()
    } else {
        let prev = install_names(names, n - 1);
        if names[n - 1].len() >= 6 && names[n - 1].subrange(0, 6) == seq!['G', 'o', 'd', 'o', 't', '_'] {
            prev.push(names[n - 1])
        } else {
            prev
        }
    }
}

/// The installed builds, from the entry names of the versions directory
/// `versions_dir`: every entry whose name starts with `Godot_`, in listing
/// order; fails on the first such name that does not read as a canonical name.
pub fn get_installed_versions(versions_dir: &Vec<String>, entry_names: &Vec<String>) -> (r: Result<Vec<GodotVersionInfo>, GdError>)
    ensures
        ({
            let names = install_names(texts(entry_names@), entry_names@.len() as int);
            &&& r is Ok <==> forall|k: int| 0 <= k < names.len() ==> name_ok(#[trigger] names[k])
            &&& r is Ok ==> {
                let v = r->Ok_0@;
                &&& v.len() == names.len()
                &&& forall|k: int| 0 <= k < v.len() ==> parts_of_name(names[k], #[trigger] v[k].name_parts)
                    && texts(v[k].path@) == texts(versions_dir@).push(names[k])
            }
            &&& r is Err ==> r->Err_0 is InvalidName
        }),
{
    let ghost all = texts(entry_names@);
    let prefix = vec!['G', 'o', 'd', 'o', 't', '_'];
    let mut out: Vec<GodotVersionInfo> = Vec::new();
    let mut i: usize = 0;
    while i < entry_names.len()
        invariant
            i <= entry_names@.len(),
            all == texts(entry_names@),
            prefix@ == seq!['G', 'o', 'd', 'o', 't', '_'],
            out@.len() == install_names(all, i as int).len(),
            forall|k: int| 0 <= k < install_names(all, i as int).len() ==> name_ok(#[trigger] install_names(all, i as int)[k]),
            forall|k: int| 0 <= k < out@.len() ==> parts_of_name(install_names(all, i as int)[k], #[trigger] out@[k].name_parts)
                && texts(out@[k].path@) == texts(versions_dir@).push(install_names(all, i as int)[k]),
        decreases entry_names@.len() - i,
    {
        let name = &entry_names[i];
        let chars = chars_of(name.as_str());
        let starts = chars.len() >= 6 && crate::text::matches_at(&chars, &prefix, 0);
        assert(all[i as int] == name@);
        if starts {
            assert(chars@.subrange(0, 6) == prefix@);
            let name_parts = match parse_version_name(name.as_str()) {
                Ok(p) => p,
                Err(e) => {
                    assert(install_names(all, i + 1).last() == name@);
                    proof {
                        lemma_install_names_prefix(all, i + 1, entry_names@.len() as int);
                    }
                    return Err(e);
                },
            };
            let mut path = copy_path(versions_dir);
            path.push(name.clone());
            assert(texts(path@) =~= texts(versions_dir@).push(name@));
            out.push(GodotVersionInfo { path, name_parts });
        } else {
            assert(!(all[i as int].len() >= 6 && all[i as int].subrange(0, 6) == seq!['G', 'o', 'd', 'o', 't', '_']));
        }
        i = i + 1;
    }
    Ok(out)
}

/// The names considered among the first `n` entries come first among those of
/// the first `m`.
proof fn lemma_install_names_prefix(names: Seq<Seq<char>>, n: int, m: int)
    requires
        0 <= n <= m <= names.len(),
    ensures
        install_names(names, n).len() <= install_names(names, m).len(),
        forall|k: int| 0 <= k < install_names(names, n).len() ==> #[trigger] install_names(names, n)[k] == install_names(names, m)[k],
    decreases m - n,
{
    if n < m {
        lemma_install_names_prefix(names, n, m - 1);
    }
}

/// The activation link's file name: a shortcut on Windows, a symbolic link
/// elsewhere.
pub fn get_godot_link_path(platform: Platform) -> (r: String)
    ensures
        r@ == (if platform == Platform::Windows {
            seq!['g', 'o', 'd', 'o', 't', '.', 'l', 'n', 'k']
        } else {
            seq!['g', 'o', 'd', 'o', 't']
        }),
{
    if platform == Platform::Windows {
        word(&vec!['g', 'o', 'd', 'o', 't', '.', 'l', 'n', 'k'])
    } else {
        word(&vec!['g', 'o', 'd', 'o', 't'])
    }
}

/// Whether the build `version_name` is installed, given the listing of its
/// directory (`None` where the directory does not exist): its executable can
/// be found there.
pub fn already_installed(platform: Platform, version_name: &str, listing: &Option<Vec<DirEntryInfo>>) -> (r: bool)
    ensures
        r == (listing is Some && executable_of(platform, version_name@, listing->0@) is Some),
{
    match listing {
        None => false,
        Some(entries) => get_godot_exe_path(platform, version_name, entries).is_ok(),
    }
}

/// What the activation link is to point at for the build `version_name`, as a
/// path relative to the versions directory, given the listing of the build's
/// directory (`None` where it does not exist).
pub fn set_active_godot_version(platform: Platform, version_name: &str, listing: &Option<Vec<DirEntryInfo>>) -> (r: Result<Vec<String>, GdError>)
    ensures
        listing is None ==> r is Err && r->Err_0 is VersionNotInstalled,
        listing is Some ==> {
            let exe = executable_of(platform, version_name@, listing->0@);
            &&& r is Ok <==> exe is Some
            &&& r is Ok ==> texts(r->Ok_0@) == seq![version_name@] + exe->0
            &&& r is Err ==> r->Err_0 is ExecutableNotFound
        },
{
    let entries = match listing {
        None => return Err(GdError::VersionNotInstalled(String::from_str(version_name))),
        Some(e) => e,
    };
    let exe = get_godot_exe_path(platform, version_name, entries)?;
    let mut out: Vec<String> = Vec::new();
    out.push(String::from_str(version_name));
    proof {
        lemma_texts_push(Seq::empty(), out@[0]);
        assert(Seq::<String>::empty().push(out@[0]) == out@);
        assert(texts(out@) =~= seq![version_name@] + texts(exe@).subrange(0, 0));
    }
    let mut i: usize = 0;
    while i < exe.len()
        invariant
            i <= exe@.len(),
            texts(out@) == seq![version_name@] + texts(exe@).subrange(0, i as int),
        decreases exe@.len() - i,
    {
        let ghost before = out@;
        out.push(exe[i].clone());
        proof {
            lemma_texts_push(before, exe@[i as int]);
            lemma_texts_index(exe@, i as int);
        }
        assert(texts(out@) =~= seq![version_name@] + texts(exe@).subrange(0, i + 1));
        i = i + 1;
    }
    assert(texts(exe@).subrange(0, exe@.len() as int) =~= texts(exe@));
    Ok(out)
}

/// Activates the build `name` if it is installed: the link target (relative
/// to the versions directory) where it is, `None` where it is not.
pub fn activate_by_name_if_installed(platform: Platform, name: &str, listing: &Option<Vec<DirEntryInfo>>) -> (r: Option<Vec<String>>)
    ensures
        r is Some <==> (listing is Some && executable_of(platform, name@, listing->0@) is Some),
        r is Some ==> texts(r->0@) == seq![name@] + executable_of(platform, name@, listing->0@)->0,
{
    if already_installed(platform, name, listing) {
        match set_active_godot_version(platform, name, listing) {
            Ok(target) => Some(target),
            Err(_) => None,
        }
    } else {
        None
    }
}

/// The build to look for before any download, where an exact version text was
/// given: its canonical name for the variant.
pub fn activate_by_parts_if_installed(
    version: &Option<String>,
    platform: &Platform,
    architecture: &Architecture,
    flavour: &Flavour,
) -> (r: Result<Option<String>, GdError>)
    ensures
        version is None ==> r is Ok && r->Ok_0 is None,
        version is Some ==> {
            &&& r is Ok <==> supports(*platform, *architecture)
            &&& r is Ok ==> r->Ok_0 is Some && r->Ok_0->0@ == canonical_name(
                version->0@,
                *platform,
                *architecture,
                *flavour,
            )
            &&& r is Err ==> r->Err_0 == GdError::UnsupportedVariant(*platform, *architecture)
        },
{
    match version {
        Some(v) => {
            let name = generate_version_name(v.as_str(), platform, architecture, flavour)?;
            Ok(Some(name))
        },
        None => Ok(None),
    }
}

/// Where an archive entry goes, relative to the build directory
/// `out_dir_name`: a leading `<out_dir_name>/`, however often the archive
/// repeats it, is removed (empty: the directory itself).
pub fn extraction_path(out_dir_name: &str, entry_name: &str) -> (r: String)
    ensures
        r@ == strip_leading(entry_name@, out_dir_name@.push('/')),
{
    let mut prefix = chars_of(out_dir_name);
    prefix.push('/');
    let entry = chars_of(entry_name);
    let rest = trim_start_matches(&entry, &prefix);
    string_of(&rest, 0, rest.len())
}

/// The directory name of a build from its asset's name: every trailing
/// `.zip` removed.
pub fn asset_version_name(asset_name: &str) -> (r: String)
    ensures
        r@ == strip_trailing(asset_name@, zip_suffix()),
{
    let name = chars_of(asset_name);
    let rest = trim_end_matches(&name, &vec!['.', 'z', 'i', 'p']);
    string_of(&rest, 0, rest.len())
}

/// The file name of the archive downloaded for a build.
pub fn version_zip_name(version_name: &str) -> (r: String)
    ensures
        r@ == version_name@ + zip_suffix(),
{
    let mut out = String::new();
    push_str(&mut out, version_name);
    push_chars(&mut out, &vec!['.', 'z', 'i', 'p']);
    out
}

/// An archive that repeats the build directory's name before its files, once
/// or twice, extracts them at the top of the build directory: the entry
/// `<dir>/<dir>/<rest>` and the entry `<dir>/<rest>` both go to `<rest>`,
/// where `<rest>` does not itself start with `<dir>/`.
pub proof fn lemma_nested_archive_flattened(dir: Seq<char>, rest: Seq<char>)
    requires
        !(dir.len() + 1 <= rest.len() && rest.subrange(0, dir.len() + 1 as int) == dir.push('/')),
    ensures
        strip_leading(dir.push('/') + dir.push('/') + rest, dir.push('/')) == rest,
        strip_leading(dir.push('/') + rest, dir.push('/')) == rest,
{
    let p = dir.push('/');
    let once = p + rest;
    let twice = p + p + rest;
    assert(twice.subrange(0, p.len() as int) =~= p);
    assert(twice.subrange(p.len() as int, twice.len() as int) =~= once);
    assert(once.subrange(0, p.len() as int) =~= p);
    assert(once.subrange(p.len() as int, once.len() as int) =~= rest);
    assert(p.len() == dir.len() + 1);
    assert(strip_leading(rest, p) == rest);
    assert(strip_leading(once, p) == strip_leading(rest, p));
    assert(strip_leading(twice, p) == strip_leading(once, p));
}

} // verus!
