use gdman::commands::current::CurrentVersionCommand;
use gdman::commands::install::{InstallAction, InstallVersionCommand};
use gdman::commands::list::ListVersionsCommand;
use gdman::commands::uninstall::UninstallVersionsCommand;
use gdman::commands::update::UpdateVersionCommand;
use gdman::common::{Architecture, Flavour, FromOS, GdError, Platform};
use gdman::gd_semver::{flatten_version, parse_semver_version, MaybeVersionOrVersionReq, Version, VersionRange};
use gdman::gdman::{
    activate_by_name_if_installed, activate_by_parts_if_installed, already_installed, asset_version_name,
    extraction_path, get_current_version, get_godot_exe_path, get_godot_link_path, get_installed_versions,
    get_version_dir_from_exe_path, set_active_godot_version, version_zip_name, DirEntryInfo, GodotVersionInfo,
};
use gdman::github::github_repo::{self as gh, releases_url, Asset, Release};
use gdman::github::godot_repo::{self as gd, generate_asset_name, generate_version_name, parse_version_name};

fn stable() -> Option<Vec<String>> {
    Some(vec!["stable".to_string()])
}

fn v(major: u64, minor: u64, patch: u64, pre: &str) -> Version {
    Version { major, minor, patch, pre: pre.to_string() }
}

fn asset(name: &str) -> Asset {
    Asset {
        url: format!("https://api.example/{name}"),
        name: name.to_string(),
        size: 100,
        browser_download_url: format!("https://download.example/{name}"),
    }
}

fn release(tag: &str, assets: &[&str]) -> Release {
    Release {
        url: format!("https://api.example/releases/{tag}"),
        tag_name: tag.to_string(),
        published_at: 1_700_000_000,
        assets: assets.iter().map(|a| asset(a)).collect(),
    }
}

fn file(name: &str) -> DirEntryInfo {
    DirEntryInfo { name: name.to_string(), is_file: true, is_dir: false }
}

fn dir(name: &str) -> DirEntryInfo {
    DirEntryInfo { name: name.to_string(), is_file: false, is_dir: true }
}

fn strings(v: &[&str]) -> Vec<String> {
    v.iter().map(|s| s.to_string()).collect()
}

fn installed(name: &str) -> GodotVersionInfo {
    GodotVersionInfo {
        path: strings(&["/", "opt", "gdman", "versions", name]),
        name_parts: parse_version_name(name).unwrap(),
    }
}

fn request(s: &str) -> MaybeVersionOrVersionReq {
    MaybeVersionOrVersionReq::from_str(s).unwrap()
}

// ----- versions -----

#[test]
fn parse_version_defaults_missing_components() {
    assert_eq!(parse_semver_version("4", &None).unwrap(), v(4, 0, 0, ""));
    assert_eq!(parse_semver_version("4.2", &None).unwrap(), v(4, 2, 0, ""));
    assert_eq!(parse_semver_version("4.2.1", &None).unwrap(), v(4, 2, 1, ""));
}

#[test]
fn parse_version_drops_ignored_label() {
    let stable_tag = parse_semver_version("4.2.1-stable", &stable()).unwrap();
    assert_eq!(stable_tag, v(4, 2, 1, ""));
    assert_eq!(stable_tag, parse_semver_version("4.2.1", &None).unwrap());
    assert_eq!(parse_semver_version("4.2.1-stable", &None).unwrap(), v(4, 2, 1, "stable"));
    assert_eq!(parse_semver_version("4.3-beta1", &stable()).unwrap(), v(4, 3, 0, "beta1"));
}

#[test]
fn parse_version_drops_build_metadata() {
    assert_eq!(parse_semver_version("1.2.3+build.5", &None).unwrap(), v(1, 2, 3, ""));
    assert_eq!(parse_semver_version("1.2.3-rc.1+b-7", &None).unwrap(), v(1, 2, 3, "rc.1"));
}

#[test]
fn parse_version_rejects_malformed_text() {
    for bad in ["", "01", "1.02", "1.2.3.4", "1.0.0-", "1.0.0+", "1.0-01", "a.b", "1..2", "1.0.0-a_b", "v4.2", "99999999999999999999"] {
        match parse_semver_version(bad, &None) {
            Err(GdError::InvalidVersion(s)) => assert_eq!(s, bad),
            other => panic!("{bad} gave {other:?}"),
        }
    }
}

#[test]
fn parse_version_largest_component() {
    assert_eq!(parse_semver_version("18446744073709551615", &None).unwrap(), v(u64::MAX, 0, 0, ""));
    assert!(parse_semver_version("18446744073709551616", &None).is_err());
}

#[test]
fn version_precedence() {
    assert!(v(4, 1, 9, "").precedes(&v(4, 2, 0, "")));
    assert!(v(4, 2, 0, "beta1").precedes(&v(4, 2, 0, "")));
    assert!(!v(4, 2, 0, "").precedes(&v(4, 2, 0, "beta1")));
    assert!(v(4, 3, 0, "beta1").precedes(&v(4, 3, 0, "rc1")));
    assert!(v(4, 3, 0, "beta.2").precedes(&v(4, 3, 0, "beta.10")));
    assert!(!v(4, 2, 0, "").precedes(&v(4, 2, 0, "")));
    assert!(!v(5, 0, 0, "").precedes(&v(4, 9, 9, "")));
}

#[test]
fn version_text() {
    assert_eq!(v(4, 2, 1, "").to_text(), "4.2.1");
    assert_eq!(v(10, 0, 305, "rc.2").to_text(), "10.0.305-rc.2");
    assert_eq!(v(0, 0, 0, "").to_text(), "0.0.0");
}

#[test]
fn version_range_parse_and_match() {
    let range = VersionRange::parse("~4.2").unwrap();
    assert_eq!(range.as_str(), "~4.2");
    assert!(range.matches(&v(4, 2, 7, "")));
    assert!(!range.matches(&v(4, 3, 0, "")));
    assert!(matches!(VersionRange::parse("not a range"), Err(GdError::InvalidVersion(_))));
}

#[test]
fn request_exact_and_range() {
    let exact = request("4.2.0");
    assert_eq!(exact.input_str, "4.2.0");
    assert_eq!(exact.version_exact, Some(v(4, 2, 0, "")));
    let loose = request("~4.2");
    assert_eq!(loose.version_exact, None);
    assert!(loose.version_like.matches(&v(4, 2, 3, "")));
    assert!(matches!(MaybeVersionOrVersionReq::from_str("nope"), Err(GdError::InvalidVersion(_))));
}

#[test]
fn flatten_request() {
    let (input, like, exact) = flatten_version(&Some(request("4")));
    assert_eq!(input.unwrap(), "4");
    assert_eq!(like.unwrap().as_str(), "4");
    assert_eq!(exact.unwrap(), v(4, 0, 0, ""));
    let (input, like, exact) = flatten_version(&None);
    assert!(input.is_none() && like.is_none() && exact.is_none());
}

// ----- naming -----

#[test]
fn asset_fragments() {
    let f = |p, a, fl| generate_asset_name(&p, &a, &fl).unwrap();
    assert_eq!(f(Platform::Windows, Architecture::X64, Flavour::Standard), "win64.exe");
    assert_eq!(f(Platform::Windows, Architecture::X86, Flavour::Standard), "win32.exe");
    assert_eq!(f(Platform::Windows, Architecture::X64, Flavour::Mono), "mono_win64");
    assert_eq!(f(Platform::Linux, Architecture::X64, Flavour::Standard), "linux.x86_64");
    assert_eq!(f(Platform::Linux, Architecture::X86, Flavour::Standard), "linux.x86_32");
    assert_eq!(f(Platform::Linux, Architecture::Arm32, Flavour::Standard), "linux.arm32");
    assert_eq!(f(Platform::Linux, Architecture::Arm64, Flavour::Mono), "mono_linux_arm64");
    assert_eq!(f(Platform::Linux, Architecture::X64, Flavour::Mono), "mono_linux_x86_64");
    assert_eq!(f(Platform::MacOS, Architecture::Universal, Flavour::Standard), "macos.universal");
    assert_eq!(f(Platform::MacOS, Architecture::Universal, Flavour::Mono), "mono_macos.universal");
}

#[test]
fn asset_fragment_unsupported_variant() {
    for (p, a) in [
        (Platform::Windows, Architecture::Arm64),
        (Platform::Windows, Architecture::Universal),
        (Platform::Linux, Architecture::Universal),
        (Platform::MacOS, Architecture::X64),
    ] {
        match generate_asset_name(&p, &a, &Flavour::Standard) {
            Err(GdError::UnsupportedVariant(ep, ea)) => assert!(ep == p && ea == a),
            other => panic!("{other:?}"),
        }
    }
}

#[test]
fn canonical_name_generation() {
    assert_eq!(
        generate_version_name("4.2.1-stable", &Platform::Linux, &Architecture::X64, &Flavour::Mono).unwrap(),
        "Godot_v4.2.1-stable_mono_linux_x86_64"
    );
}

#[test]
fn canonical_name_round_trip_every_variant() {
    let variants = [
        (Platform::Windows, Architecture::X86),
        (Platform::Windows, Architecture::X64),
        (Platform::Linux, Architecture::X86),
        (Platform::Linux, Architecture::X64),
        (Platform::Linux, Architecture::Arm32),
        (Platform::Linux, Architecture::Arm64),
        (Platform::MacOS, Architecture::Universal),
    ];
    for version in ["4.2.1-stable", "3", "4.3-beta2", "4.1.0+build.7"] {
        for (p, a) in variants {
            for fl in [Flavour::Standard, Flavour::Mono] {
                let name = generate_version_name(version, &p, &a, &fl).unwrap();
                let parts = parse_version_name(&name).unwrap();
                assert_eq!(parts.version_string, version);
                assert_eq!(parts.version, parse_semver_version(version, &stable()).unwrap());
                assert_eq!(parts.version_name, name);
                assert_eq!(parts.platform, p);
                assert_eq!(parts.architecture, a);
                assert_eq!(parts.flavour, fl);
            }
        }
    }
}

#[test]
fn parse_name_upstream_examples() {
    let parts = parse_version_name("Godot_v4.2.1-stable_win64.exe").unwrap();
    assert_eq!(parts.version, v(4, 2, 1, ""));
    assert_eq!(parts.version_string, "4.2.1-stable");
    assert_eq!(parts.platform, Platform::Windows);
    assert_eq!(parts.architecture, Architecture::X64);
    assert_eq!(parts.flavour, Flavour::Standard);
    let parts = parse_version_name("Godot_v4.3-rc1_mono_macos.universal").unwrap();
    assert_eq!(parts.version, v(4, 3, 0, "rc1"));
    assert_eq!(parts.platform, Platform::MacOS);
    assert_eq!(parts.architecture, Architecture::Universal);
    assert_eq!(parts.flavour, Flavour::Mono);
}

#[test]
fn parse_name_rejects_malformed_names() {
    for bad in ["Godot", "Godot_v4.2.1", "Godot_v4.x_linux.x86_64", "Godot_v4.2_plan9", "Godot_v4.2_linux.riscv", "Godot_v_linux.x86_64"] {
        match parse_version_name(bad) {
            Err(GdError::InvalidName(s)) => assert_eq!(s, bad),
            other => panic!("{bad} gave {other:?}"),
        }
    }
}

// ----- resolution -----

fn feed() -> Vec<Release> {
    vec![
        release("4.2.0-stable", &["Godot_v4.2.0-stable_linux.x86_64.zip", "Godot_v4.2.0-stable_win64.exe.zip"]),
        release("4.2.1-stable", &[
            "Godot_v4.2.1-stable_linux.x86_64.zip",
            "Godot_v4.2.1-stable_mono_linux_x86_64.zip",
            "Godot_v4.2.1-stable_win64.exe.zip",
        ]),
        release("4.1.9-stable", &["Godot_v4.1.9-stable_linux.x86_64.zip"]),
    ]
}

#[test]
fn resolver_picks_greatest_in_range() {
    let like = Some(VersionRange::parse("~4.2").unwrap());
    let r = gd::find_release_with_asset(&None, &like, &Platform::Linux, &Architecture::X64, &Flavour::Standard, &feed()).unwrap();
    assert_eq!(r.tag_name, "4.2.1-stable");
    assert_eq!(r.assets.len(), 1);
    assert_eq!(r.assets[0].name, "Godot_v4.2.1-stable_linux.x86_64.zip");
    assert_eq!(r.published_at, 1_700_000_000);
}

#[test]
fn resolver_latest_without_request() {
    let r = gh::find_release(&feed(), &None, &None).unwrap();
    assert_eq!(r.tag_name, "4.2.1-stable");
    assert_eq!(r.assets.len(), 3);
}

#[test]
fn resolver_first_of_equal_versions_wins() {
    let rels = vec![release("4.2.0-stable", &["a"]), release("4.2.0", &["b"]), release("junk", &["c"])];
    let r = gh::find_release(&rels, &None, &None).unwrap();
    assert_eq!(r.assets[0].name, "a");
}

#[test]
fn resolver_exact_match_and_miss() {
    let exact = Some(v(4, 2, 0, ""));
    let r = gd::find_release_with_asset(&exact, &None, &Platform::Windows, &Architecture::X64, &Flavour::Standard, &feed()).unwrap();
    assert_eq!(r.tag_name, "4.2.0-stable");
    assert_eq!(r.assets[0].browser_download_url, "https://download.example/Godot_v4.2.0-stable_win64.exe.zip");
    let missing = Some(v(3, 5, 0, ""));
    assert!(matches!(gh::find_release(&feed(), &missing, &None), Err(GdError::ExactNotFound)));
}

#[test]
fn resolver_errors() {
    let like = Some(VersionRange::parse("^5").unwrap());
    assert!(matches!(gh::find_release(&feed(), &None, &like), Err(GdError::NoMatchingRelease)));
    let r = gd::find_release_with_asset(&None, &None, &Platform::MacOS, &Architecture::Universal, &Flavour::Standard, &feed());
    assert!(matches!(r, Err(GdError::NoMatchingAsset(tag)) if tag == "4.2.1-stable"));
    let r = gd::find_release_with_asset(&None, &None, &Platform::Windows, &Architecture::Arm64, &Flavour::Standard, &feed());
    assert!(matches!(r, Err(GdError::UnsupportedVariant(Platform::Windows, Architecture::Arm64))));
    assert!(matches!(gh::find_release(&vec![], &None, &None), Err(GdError::NoMatchingRelease)));
}

#[test]
fn asset_patterns_are_regular_expressions() {
    let rels = vec![release("4.2.1-stable", &["notes.txt", "Godot_v4.2.1-stable_linux-x86_64.zip"])];
    let pats = vec!["linux.x86_64".to_string()];
    let r = gh::find_release_with_asset(&rels, &None, &None, &pats).unwrap();
    assert_eq!(r.assets[0].name, "Godot_v4.2.1-stable_linux-x86_64.zip");
    let bad = vec!["(".to_string()];
    assert!(matches!(gh::find_release_with_asset(&rels, &None, &None, &bad), Err(GdError::NoMatchingAsset(_))));
}

#[test]
fn feed_address() {
    assert_eq!(releases_url("godotengine", "godot"), "https://api.github.com/repos/godotengine/godot/releases");
}

// ----- installation directory -----

#[test]
fn executable_on_linux() {
    let name = "Godot_v4.2.1-stable_linux.x86_64";
    assert_eq!(get_godot_exe_path(Platform::Linux, name, &vec![file(name)]).unwrap(), strings(&[name]));
    assert!(matches!(get_godot_exe_path(Platform::Linux, name, &vec![file("a"), file("b")]), Err(GdError::ExecutableNotFound(_))));
    assert!(get_godot_exe_path(Platform::Linux, name, &vec![file("x.zip")]).is_err());
    assert!(get_godot_exe_path(Platform::Linux, name, &vec![]).is_err());
    assert_eq!(get_godot_exe_path(Platform::Linux, name, &vec![dir("d"), file("g")]).unwrap(), strings(&["g"]));
}

#[test]
fn executable_on_windows() {
    let name = "Godot_v4.2.1-stable_win64.exe";
    let entries = vec![file("Godot_v4.2.1-stable_win64.exe.zip"), file("Godot_v4.2.1-stable_win64_console.exe"), file(name)];
    assert_eq!(get_godot_exe_path(Platform::Windows, name, &entries).unwrap(), strings(&[name]));
    let mono = "Godot_v4.2.1-stable_mono_win64";
    let entries = vec![dir("GodotSharp"), file("Godot_v4.2.1-stable_mono_win64.exe")];
    assert_eq!(get_godot_exe_path(Platform::Windows, mono, &entries).unwrap(), strings(&["Godot_v4.2.1-stable_mono_win64.exe"]));
    assert!(get_godot_exe_path(Platform::Windows, mono, &vec![file("other.exe")]).is_err());
}

#[test]
fn executable_on_macos() {
    let name = "Godot_v4.2.1-stable_macos.universal";
    assert_eq!(
        get_godot_exe_path(Platform::MacOS, name, &vec![file("readme"), dir("Godot.app")]).unwrap(),
        strings(&["Godot.app", "Contents", "MacOS", "Godot"])
    );
    assert!(get_godot_exe_path(Platform::MacOS, name, &vec![dir("a"), dir("b")]).is_err());
}

#[test]
fn version_dir_of_executable() {
    let exe = strings(&["/", "v", "Godot_v4_linux.x86_64", "Godot_v4_linux.x86_64"]);
    assert_eq!(get_version_dir_from_exe_path(Platform::Linux, &exe).unwrap(), strings(&["/", "v", "Godot_v4_linux.x86_64"]));
    let exe = strings(&["/", "v", "Godot_v4_macos.universal", "Godot.app", "Contents", "MacOS", "Godot"]);
    assert_eq!(get_version_dir_from_exe_path(Platform::MacOS, &exe).unwrap(), strings(&["/", "v", "Godot_v4_macos.universal"]));
    assert!(get_version_dir_from_exe_path(Platform::Linux, &strings(&["Godot"])).is_err());
}

#[test]
fn current_version_from_link() {
    let target = strings(&["/", "v", "Godot_v4.2.1-stable_linux.x86_64", "Godot_v4.2.1-stable_linux.x86_64"]);
    let info = get_current_version(Platform::Linux, &Some(target.clone())).unwrap();
    assert_eq!(info.path, target);
    assert_eq!(info.name_parts.version, v(4, 2, 1, ""));
    assert!(matches!(get_current_version(Platform::Linux, &None), Err(GdError::NoActiveVersion)));
    assert!(matches!(get_current_version(Platform::Linux, &Some(strings(&["/", "tmp", "godot"]))), Err(GdError::InvalidName(_))));
}

#[test]
fn installed_versions_from_listing() {
    let dir_path = strings(&["/", "opt", "versions"]);
    let names = strings(&["notes", "Godot_v4.2.1-stable_linux.x86_64", "Godot_v4.1-stable_mono_linux_x86_64"]);
    let list = get_installed_versions(&dir_path, &names).unwrap();
    assert_eq!(list.len(), 2);
    assert_eq!(list[0].path, strings(&["/", "opt", "versions", "Godot_v4.2.1-stable_linux.x86_64"]));
    assert_eq!(list[1].name_parts.flavour, Flavour::Mono);
    let bad = strings(&["Godot_broken"]);
    assert!(matches!(get_installed_versions(&dir_path, &bad), Err(GdError::InvalidName(_))));
    assert!(get_installed_versions(&dir_path, &vec![]).unwrap().is_empty());
}

#[test]
fn link_names() {
    assert_eq!(get_godot_link_path(Platform::Windows), "godot.lnk");
    assert_eq!(get_godot_link_path(Platform::Linux), "godot");
    assert_eq!(get_godot_link_path(Platform::MacOS), "godot");
}

#[test]
fn activation_decisions() {
    let name = "Godot_v4.2.1-stable_linux.x86_64";
    let listing = Some(vec![file(name)]);
    assert!(already_installed(Platform::Linux, name, &listing));
    assert!(!already_installed(Platform::Linux, name, &None));
    assert_eq!(set_active_godot_version(Platform::Linux, name, &listing).unwrap(), strings(&[name, name]));
    assert!(matches!(set_active_godot_version(Platform::Linux, name, &None), Err(GdError::VersionNotInstalled(_))));
    assert!(matches!(set_active_godot_version(Platform::Linux, name, &Some(vec![])), Err(GdError::ExecutableNotFound(_))));
    assert_eq!(activate_by_name_if_installed(Platform::Linux, name, &listing).unwrap(), strings(&[name, name]));
    assert!(activate_by_name_if_installed(Platform::Linux, name, &Some(vec![])).is_none());
}

#[test]
fn activation_candidate_from_parts() {
    let r = activate_by_parts_if_installed(&Some("4.2.1-stable".to_string()), &Platform::Linux, &Architecture::X64, &Flavour::Standard);
    assert_eq!(r.unwrap().unwrap(), "Godot_v4.2.1-stable_linux.x86_64");
    assert!(activate_by_parts_if_installed(&None, &Platform::Linux, &Architecture::X64, &Flavour::Standard).unwrap().is_none());
    assert!(activate_by_parts_if_installed(&Some("4".to_string()), &Platform::MacOS, &Architecture::X64, &Flavour::Standard).is_err());
}

#[test]
fn nested_archive_is_flattened() {
    let d = "Godot_v4.2-stable_win64";
    assert_eq!(extraction_path(d, "Godot_v4.2-stable_win64/Godot_v4.2-stable_win64/Godot.exe"), "Godot.exe");
    assert_eq!(extraction_path(d, "Godot_v4.2-stable_win64/Godot.exe"), "Godot.exe");
    assert_eq!(extraction_path(d, "Godot_v4.2-stable_win64/"), "");
    assert_eq!(extraction_path(d, "Godot.exe"), "Godot.exe");
    assert_eq!(extraction_path(d, "GodotSharp/Api/x.dll"), "GodotSharp/Api/x.dll");
}

#[test]
fn archive_names() {
    assert_eq!(asset_version_name("Godot_v4.2.1-stable_win64.exe.zip"), "Godot_v4.2.1-stable_win64.exe");
    assert_eq!(asset_version_name("a.zip.zip"), "a");
    assert_eq!(asset_version_name("plain"), "plain");
    assert_eq!(version_zip_name("Godot_v4_linux.x86_64"), "Godot_v4_linux.x86_64.zip");
}

// ----- commands -----

fn uninstall_cmd(version: Option<&str>, force: bool, unused: bool) -> UninstallVersionsCommand {
    UninstallVersionsCommand { version: version.map(request), architecture: None, flavour: None, force, unused }
}

fn two_variants() -> Vec<GodotVersionInfo> {
    vec![
        installed("Godot_v4.2.1-stable_linux.x86_64"),
        installed("Godot_v4.2.1-stable_mono_linux_x86_64"),
        installed("Godot_v4.1-stable_linux.x86_64"),
    ]
}

#[test]
fn uninstall_two_matches_needs_force() {
    let current = Some(installed("Godot_v4.1-stable_linux.x86_64"));
    let r = uninstall_cmd(Some("4.2.1"), false, false).plan(&two_variants(), &current);
    assert!(matches!(r, Err(GdError::AmbiguousUninstall)));
    let plan = uninstall_cmd(Some("4.2.1"), true, false).plan(&two_variants(), &current).unwrap();
    assert_eq!(plan.remove, vec![0, 1]);
    assert!(plan.blocked_active.is_none());
}

#[test]
fn uninstall_filters_and_policies() {
    let current = Some(installed("Godot_v4.2.1-stable_linux.x86_64"));
    assert!(matches!(uninstall_cmd(None, true, false).plan(&two_variants(), &current), Err(GdError::NoFilterSpecified)));
    let none = uninstall_cmd(Some("3"), false, false).plan(&two_variants(), &current).unwrap();
    assert!(none.remove.is_empty() && none.blocked_active.is_none());
    let unused = uninstall_cmd(None, false, true).plan(&two_variants(), &current).unwrap();
    assert_eq!(unused.remove, vec![1, 2]);
    let mut cmd = uninstall_cmd(Some("4.2.1"), false, false);
    cmd.flavour = Some(Flavour::Mono);
    assert_eq!(cmd.plan(&two_variants(), &current).unwrap().remove, vec![1]);
    let mut cmd = uninstall_cmd(Some("~4.2"), true, false);
    cmd.architecture = Some(Architecture::X64);
    let plan = cmd.plan(&two_variants(), &current).unwrap();
    assert_eq!(plan.remove, vec![1]);
    assert_eq!(plan.blocked_active.unwrap(), "Godot_v4.2.1-stable_linux.x86_64");
}

fn install_cmd(version: Option<&str>) -> InstallVersionCommand {
    InstallVersionCommand {
        latest: version.is_none(),
        version: version.map(request),
        platform: Platform::Linux,
        architecture: Architecture::X64,
        flavour: Flavour::Standard,
    }
}

#[test]
fn install_exact_installed_skips_network() {
    let cmd = install_cmd(Some("4.2.0"));
    let name = cmd.local_candidate().unwrap().unwrap();
    assert_eq!(name, "Godot_v4.2.0_linux.x86_64");
    match cmd.first_step(&Some(vec![file(&name)])).unwrap() {
        InstallAction::Activate(target) => assert_eq!(target, strings(&[&name, &name])),
        other => panic!("{other:?}"),
    }
    assert!(matches!(cmd.first_step(&None).unwrap(), InstallAction::FetchReleases));
    assert!(matches!(cmd.first_step(&Some(vec![])).unwrap(), InstallAction::FetchReleases));
}

#[test]
fn install_range_goes_to_network() {
    let cmd = install_cmd(Some("~4.2"));
    assert!(cmd.local_candidate().unwrap().is_none());
    assert!(matches!(cmd.first_step(&None).unwrap(), InstallAction::FetchReleases));
    let (name, url) = cmd.select_download(&feed()).unwrap();
    assert_eq!(name, "Godot_v4.2.1-stable_linux.x86_64");
    assert_eq!(url, "https://download.example/Godot_v4.2.1-stable_linux.x86_64.zip");
    match cmd.after_resolution(&name, &url, &None) {
        InstallAction::Download(n, u) => assert!(n == name && u == url),
        other => panic!("{other:?}"),
    }
    assert!(matches!(cmd.after_resolution(&name, &url, &Some(vec![file("godot")])), InstallAction::Activate(_)));
    assert!(install_cmd(None).select_download(&feed()).is_ok());
}

#[test]
fn update_requests() {
    let current = v(4, 2, 1, "");
    let cmd = |patch, minor, major| UpdateVersionCommand { patch, minor, major, uninstall: false };
    assert_eq!(cmd(true, false, false).target_request(&current).unwrap().unwrap().as_str(), "~4.2.1");
    assert_eq!(cmd(false, false, false).target_request(&current).unwrap().unwrap().as_str(), "~4.2.1");
    assert_eq!(cmd(false, true, false).target_request(&current).unwrap().unwrap().as_str(), "^4.2.1");
    assert!(cmd(false, false, true).target_request(&current).unwrap().is_none());
    let up = UpdateVersionCommand { patch: true, minor: false, major: false, uninstall: true };
    assert_eq!(up.version_to_remove("a", "b").unwrap(), "a");
    assert!(up.version_to_remove("a", "a").is_none());
}

#[test]
fn current_and_list_reports() {
    let c = CurrentVersionCommand {};
    let info = installed("Godot_v4.2.1-stable_linux.x86_64");
    assert_eq!(c.report(Ok(info.clone())).unwrap().unwrap(), "Godot_v4.2.1-stable_linux.x86_64");
    assert!(c.report(Err(GdError::NoActiveVersion)).unwrap().is_none());
    assert!(matches!(c.report(Err(GdError::InvalidName("x".to_string()))), Err(GdError::InvalidName(_))));
    let names = ListVersionsCommand {}.names(&two_variants());
    assert_eq!(names, strings(&["Godot_v4.2.1-stable_linux.x86_64", "Godot_v4.2.1-stable_mono_linux_x86_64", "Godot_v4.1-stable_linux.x86_64"]));
}

#[test]
fn system_names() {
    assert_eq!(Platform::from_os("linux", "x86_64").unwrap(), Platform::Linux);
    assert_eq!(Platform::from_os("windows", "x86").unwrap(), Platform::Windows);
    assert_eq!(Platform::from_os("macos", "aarch64").unwrap(), Platform::MacOS);
    assert!(matches!(Platform::from_os("freebsd", "x86_64"), Err(GdError::UnsupportedSystem(_))));
    assert_eq!(Architecture::from_os("macos", "aarch64").unwrap(), Architecture::Universal);
    assert_eq!(Architecture::from_os("linux", "aarch64").unwrap(), Architecture::Arm64);
    assert_eq!(Architecture::from_os("linux", "arm").unwrap(), Architecture::Arm32);
    assert_eq!(Architecture::from_os("windows", "x86").unwrap(), Architecture::X86);
    assert_eq!(Architecture::from_os("linux", "x86_64").unwrap(), Architecture::X64);
    assert!(Architecture::from_os("linux", "riscv64").is_err());
}
