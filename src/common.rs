use vstd::prelude::*;

use crate::text::{chars_of, same_chars};

verus! {

/// The operating system a build targets.
#[derive(Clone, Copy, Debug, PartialEq, Eq, Structural)]
pub enum Platform {
    Windows,
    Linux,
    MacOS,
}

/// The build flavour: the standard engine or the Mono (C#) one.
#[derive(Clone, Copy, Debug, PartialEq, Eq, Structural)]
pub enum Flavour {
    Standard,
    Mono,
}

/// The processor architecture a build targets.
#[derive(Clone, Copy, Debug, PartialEq, Eq, Structural)]
pub enum Architecture {
    Arm32,
    Arm64,
    X86,
    X64,
    Universal,
}

/// Which architectures each platform ships builds for.
pub open spec fn supports(platform: Platform, architecture: Architecture) -> bool {
    match platform {
        Platform::Windows => architecture == Architecture::X86 || architecture == Architecture::X64,
        Platform::Linux => architecture != Architecture::Universal,
        Platform::MacOS => architecture == Architecture::Universal,
    }
}

/// Everything that can go wrong; each variant carries the value it concerns,
/// where there is one.
#[derive(Clone, Debug)]
pub enum GdError {
    InvalidVersion(String),
    UnsupportedVariant(Platform, Architecture),
    InvalidName(String),
    NoMatchingRelease,
    ExactNotFound,
    NoMatchingAsset(String),
    DownloadFailed(String),
    ExtractionFailed(String),
    VersionNotInstalled(String),
    ExecutableNotFound(String),
    NoActiveVersion,
    NoFilterSpecified,
    AmbiguousUninstall,
    CannotRemoveActive(String),
    FilesystemError(String),
    NetworkError(String),
    UnsupportedSystem(String),
}

/// Reads a value off the names that the standard library gives the running
/// system's operating system (`std::env::consts::OS`) and architecture
/// (`std::env::consts::ARCH`).
pub trait FromOS<T> {
    fn from_os(os: &str, arch: &str) -> Result<T, GdError>;
}

pub open spec fn os_linux() -> Seq<char> {
    seq!['l', 'i', 'n', 'u', 'x']
}

pub open spec fn os_windows() -> Seq<char> {
    seq!['w', 'i', 'n', 'd', 'o', 'w', 's']
}

pub open spec fn os_macos() -> Seq<char> {
    seq!['m', 'a', 'c', 'o', 's']
}

/// The platform an operating system name stands for.
pub open spec fn platform_named(os: Seq<char>) -> Option<Platform> {
    if os == os_linux() {
        Some(Platform::Linux)
    } else if os == os_windows() {
        Some(Platform::Windows)
    } else if os == os_macos() {
        Some(Platform::MacOS)
    } else {
        None
    }
}

/// The architecture of a system: universal on macOS, else by the
/// architecture name.
pub open spec fn architecture_named(os: Seq<char>, arch: Seq<char>) -> Option<Architecture> {
    if os == os_macos() {
        Some(Architecture::Universal)
    } else if arch == seq!['a', 'r', 'm'] {
        Some(Architecture::Arm32)
    } else if arch == seq!['a', 'a', 'r', 'c', 'h', '6', '4'] {
        Some(Architecture::Arm64)
    } else if arch == seq!['x', '8', '6'] {
        Some(Architecture::X86)
    } else if arch == seq!['x', '8', '6', '_', '6', '4'] {
        Some(Architecture::X64)
    } else {
        None
    }
}

impl Platform {
    /// The platform for an operating system name; fails for other systems.
    pub fn from_os_name(os: &str) -> (r: Result<Platform, GdError>)
        ensures
            r is Ok <==> platform_named(os@) is Some,
            r is Ok ==> r->Ok_0 == platform_named(os@)->0,
            r is Err ==> r->Err_0 is UnsupportedSystem,
    {
        let name = chars_of(os);
        if same_chars(&name, &vec!['l', 'i', 'n', 'u', 'x']) {
            Ok(Platform::Linux)
        } else if same_chars(&name, &vec!['w', 'i', 'n', 'd', 'o', 'w', 's']) {
            Ok(Platform::Windows)
        } else if same_chars(&name, &vec!['m', 'a', 'c', 'o', 's']) {
            Ok(Platform::MacOS)
        } else {
            Err(GdError::UnsupportedSystem(String::from_str(os)))
        }
    }
}

impl Architecture {
    /// The architecture for an operating system and architecture name; fails
    /// for other architectures.
    pub fn from_os_names(os: &str, arch: &str) -> (r: Result<Architecture, GdError>)
        ensures
            r is Ok <==> architecture_named(os@, arch@) is Some,
            r is Ok ==> r->Ok_0 == architecture_named(os@, arch@)->0,
            r is Err ==> r->Err_0 is UnsupportedSystem,
    {
        let name = chars_of(arch);
        if same_chars(&chars_of(os), &vec!['m', 'a', 'c', 'o', 's']) {
            Ok(Architecture::Universal)
        } else if same_chars(&name, &vec!['a', 'r', 'm']) {
            Ok(Architecture::Arm32)
        } else if same_chars(&name, &vec!['a', 'a', 'r', 'c', 'h', '6', '4']) {
            Ok(Architecture::Arm64)
        } else if same_chars(&name, &vec!['x', '8', '6']) {
            Ok(Architecture::X86)
        } else if same_chars(&name, &vec!['x', '8', '6', '_', '6', '4']) {
            Ok(Architecture::X64)
        } else {
            Err(GdError::UnsupportedSystem(String::from_str(arch)))
        }
    }
}

impl FromOS<Platform> for Platform {
    fn from_os(os: &str, arch: &str) -> Result<Platform, GdError> {
        Platform::from_os_name(os)
    }
}

impl FromOS<Architecture> for Architecture {
    fn from_os(os: &str, arch: &str) -> Result<Architecture, GdError> {
        Architecture::from_os_names(os, arch)
    }
}

} // verus!
