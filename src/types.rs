use vstd::prelude::*;

verus! {

/// Operating systems that the launcher supports.
#[derive(Debug, Clone, Copy, PartialEq, Eq, Structural)]
pub enum HostOs {
    Linux,
    MacOs,
}

/// CPU architectures that the launcher supports.
#[derive(Debug, Clone, Copy, PartialEq, Eq, Structural)]
pub enum HostArch {
    X86_64,
    Aarch64,
}

/// The host's operating system and architecture.
#[derive(Debug, Clone, Copy, PartialEq, Eq, Structural)]
pub struct HostPlatform {
    pub os: HostOs,
    pub arch: HostArch,
}

/// A Linux build of Bash: the distribution ids it serves and the version
/// prefixes it was built for.
#[derive(Debug, Clone, Copy)]
pub struct LinuxBashVariant {
    pub name: &'static str,
    pub ids: &'static [&'static str],
    pub versions: &'static [&'static str],
}

/// The mathematical content of a `LinuxBashVariant`.
pub struct LinuxVariantView {
    pub name: Seq<char>,
    pub ids: Seq<Seq<char>>,
    pub versions: Seq<Seq<char>>,
}

impl View for LinuxBashVariant {
    type V = LinuxVariantView;

    open spec fn view(&self) -> LinuxVariantView {
        LinuxVariantView {
            name: self.name@,
            ids: self.ids@.map_values(|s: &str| s@),
            versions: self.versions@.map_values(|s: &str| s@),
        }
    }
}

/// A macOS build of Bash and the oldest Darwin major version it runs on.
#[derive(Debug, Clone, Copy)]
pub struct DarwinBashVariant {
    pub name: &'static str,
    pub min_darwin: i32,
}

/// The mathematical content of a `DarwinBashVariant`.
pub struct DarwinVariantView {
    pub name: Seq<char>,
    pub min_darwin: int,
}

impl View for DarwinBashVariant {
    type V = DarwinVariantView;

    open spec fn view(&self) -> DarwinVariantView {
        DarwinVariantView { name: self.name@, min_darwin: self.min_darwin as int }
    }
}

/// The fields of an os-release file that drive the Linux selection.
#[derive(Debug, Clone, PartialEq, Eq)]
pub struct OsReleaseInfo {
    pub id: String,
    pub id_like: Vec<String>,
    pub version_id: String,
}

/// The mathematical content of an `OsReleaseInfo`.
pub struct OsReleaseView {
    pub id: Seq<char>,
    pub id_like: Seq<Seq<char>>,
    pub version_id: Seq<char>,
}

impl View for OsReleaseInfo {
    type V = OsReleaseView;

    open spec fn view(&self) -> OsReleaseView {
        OsReleaseView {
            id: self.id@,
            id_like: self.id_like@.map_values(|s: String| s@),
            version_id: self.version_id@,
        }
    }
}

/// The chosen Bash build: where it lies and which variant it is.
#[derive(Debug, Clone, PartialEq, Eq)]
pub struct BashSelection {
    pub path: String,
    pub variant: String,
}

/// Why the launcher cannot go on.
#[derive(Debug, Clone, PartialEq, Eq)]
pub enum LauncherError {
    /// The operating system or the architecture is not one of the supported ones.
    UnsupportedPlatform(String),
    /// The host information that the selection on this OS needs was not given.
    MissingHostInfo(HostOs),
    /// The variant table is empty; the text lists the supported variants.
    NoVariantAvailable(String),
}

} // verus!
