//! The target model: one (platform, architecture) release artifact and its
//! URL template, plus the run-wide configuration and session.

use vstd::prelude::*;
use crate::strutil::{contains_seq, replace_seq, replace_all, contains_str};
use crate::console::Console;
use crate::npm::NpmOpts;
use crate::brew::BrewOpts;

verus! {

/// The operating system a release artifact is built for.
#[derive(Debug, Clone, Copy, PartialEq, Eq, Structural)]
pub enum Platform {
    Unknown,
    Linux,
    Win32,
    Darwin,
}

/// The CPU architecture a release artifact is built for.
#[derive(Debug, Clone, Copy, PartialEq, Eq, Structural)]
pub enum Architecture {
    X64,
    ARM64,
}

/// The stable name of `p`, as configuration files and registries spell it.
pub open spec fn platform_str(p: Platform) -> Seq<char> {
    match p {
        Platform::Unknown => "unknown"@,
        Platform::Linux => "linux"@,
        Platform::Win32 => "win32"@,
        Platform::Darwin => "darwin"@,
    }
}

/// The stable name of `a`, as configuration files and registries spell it.
pub open spec fn arch_str(a: Architecture) -> Seq<char> {
    match a {
        Architecture::X64 => "x64"@,
        Architecture::ARM64 => "arm64"@,
    }
}

impl Platform {
    /// The stable name of this platform.
    pub fn as_str(&self) -> (r: &'static str)
        ensures
            r@ == platform_str(*self),
    {
        match self {
            Platform::Unknown => "unknown",
            Platform::Linux => "linux",
            Platform::Win32 => "win32",
            Platform::Darwin => "darwin",
        }
    }
}

impl Architecture {
    /// The stable name of this architecture.
    pub fn as_str(&self) -> (r: &'static str)
        ensures
            r@ == arch_str(*self),
    {
        match self {
            Architecture::X64 => "x64",
            Architecture::ARM64 => "arm64",
        }
    }
}

/// The version placeholder that a target's URL template must contain.
pub open spec fn version_placeholder() -> Seq<char> {
    "__VERSION__"@
}

/// One (platform, architecture) release artifact. `archive` starts empty and
/// is populated once the artifact has been materialized on disk: it acts as
/// the completion flag of the fetch stage.
#[derive(Debug)]
pub struct Target {
    pub platform: Platform,
    pub arch: Architecture,
    pub url_template: String,
    pub bin_name: Option<String>,
    pub archive: Option<String>,
}

/// `"{platform}-{arch}"`: the stable cross-provider identifier of a target.
pub open spec fn spec_tuple_slug(platform: Platform, arch: Architecture) -> Seq<char> {
    platform_str(platform) + "-"@ + arch_str(arch)
}

/// The platform-specific binary name: `.exe` is appended on `win32` only.
pub open spec fn spec_bin_name(platform: Platform, name: Seq<char>) -> Seq<char> {
    if platform is Win32 {
        name + ".exe"@
    } else {
        name
    }
}

/// The download URL of a target: its template with every occurrence of the
/// version placeholder replaced by `version`.
pub open spec fn spec_target_url(url_template: Seq<char>, version: Seq<char>) -> Seq<char> {
    replace_seq(url_template, version_placeholder(), version)
}

impl Target {
    /// The target's URL template holds the version placeholder, as the
    /// configuration contract demands.
    pub open spec fn wf(&self) -> bool {
        contains_seq(self.url_template@, version_placeholder())
    }

    /// Whether this target's URL template holds the version placeholder.
    pub fn check(&self) -> (r: bool)
        ensures
            r == self.wf(),
    {
        contains_str(self.url_template.as_str(), "__VERSION__")
    }

    /// `"{platform}-{arch}"`, e.g. `linux` + `arm64` gives `"linux-arm64"`.
    pub fn tuple_slug(&self) -> (r: String)
        ensures
            r@ == spec_tuple_slug(self.platform, self.arch),
    {
        String::from_str(self.platform.as_str()).concat("-").concat(self.arch.as_str())
    }

    /// Appends `.exe` to `name` when the platform is `win32`; otherwise
    /// returns `name` unchanged.
    pub fn bin_name(&self, name: &str) -> (r: String)
        ensures
            r@ == spec_bin_name(self.platform, name@),
    {
        match self.platform {
            Platform::Win32 => String::from_str(name).concat(".exe"),
            _ => String::from_str(name),
        }
    }

    /// The download URL for `version`: the URL template with the version
    /// placeholder substituted.
    pub fn url(&self, version: &str) -> (r: String)
        ensures
            r@ == spec_target_url(self.url_template@, version@),
    {
        proof {
            reveal_strlit("__VERSION__");
        }
        replace_all(self.url_template.as_str(), "__VERSION__", version)
    }
}

impl Clone for Target {
    /// A field-for-field copy.
    fn clone(&self) -> (r: Self)
        ensures
            r == *self,
    {
        let bin_name = match &self.bin_name {
            Some(s) => Some(s.clone()),
            None => None,
        };
        let archive = match &self.archive {
            Some(s) => Some(s.clone()),
            None => None,
        };
        let r = Target {
            platform: self.platform,
            arch: self.arch,
            url_template: self.url_template.clone(),
            bin_name,
            archive,
        };
        proof {
            assert(r == *self);
        }
        r
    }
}

/// The declarative run configuration: the targets to package, at most one
/// option block per provider, and an optional source repository used for
/// version auto-discovery. Immutable once loaded.
pub struct Config {
    pub targets: Vec<Target>,
    pub npm: Option<NpmOpts>,
    pub brew: Option<BrewOpts>,
    pub repo: Option<String>,
}

/// The transient per-run context: the immutable configuration and the output
/// sink every stage reports to.
pub struct Session<'a, C: Console> {
    pub config: &'a Config,
    pub console: C,
}

} // verus!
