//! The run's decisions: which version to package, and whether each provider
//! publishes. The run itself — load the configuration, resolve the version,
//! fetch every target, then publish per provider, failing fast at each stage
//! — is sequenced by the thin binary around the library, which performs the
//! network and filesystem work these decisions call for.

use vstd::prelude::*;
use crate::error::Error;
use crate::version::{Version, spec_parse, spec_version_lt};

verus! {

/// Where the authoritative version comes from.
#[derive(Debug)]
pub enum VersionSource {
    /// The caller supplied a tag and it parsed: package this version.
    Resolved(Version),
    /// No tag was supplied: discover the latest release tag of this
    /// repository.
    Discover(String),
}

/// The version-resolution decision: an explicit tag is parsed (failing with
/// `InvalidVersion` when malformed); without one, the configured repository
/// is to be queried; without either, the run cannot proceed.
pub fn plan_version(explicit: &Option<String>, repo: &Option<String>) -> (r: Result<
    VersionSource,
    Error,
>)
    ensures
        match r {
            Ok(s) => match s {
                VersionSource::Resolved(v) => (explicit matches Some(t) && spec_parse(t@) == Some(
                    (v.major as int, v.minor as int, v.patch as int, v.pre_view(), v.build_view()),
                )) && v.wf(),
                VersionSource::Discover(rp) => explicit is None && (repo matches Some(r2) && rp@
                    == r2@),
            },
            Err(e) => match explicit {
                Some(t) => spec_parse(t@) is None && e is InvalidVersion,
                None => repo is None && e is ConfigurationError,
            },
        },
{
    match explicit {
        Some(t) => match Version::parse(t.as_str()) {
            Ok(v) => Ok(VersionSource::Resolved(v)),
            Err(e) => Err(e),
        },
        None => match repo {
            Some(r2) => Ok(VersionSource::Discover(r2.clone())),
            None => Err(
                Error::ConfigurationError(
                    String::from_str(
                        "set a version tag, or a repository in the configuration for auto discovery",
                    ),
                ),
            ),
        },
    }
}

/// The npm publish gate: publish only when the currently published version
/// strictly precedes the target version; otherwise skip the provider.
pub fn npm_should_publish(current: &Version, target: &Version) -> (r: bool)
    requires
        current.wf(),
        target.wf(),
    ensures
        r == spec_version_lt(current, target),
{
    current.lt(target)
}

/// The Homebrew publish gate, checked only when publishing is requested: the
/// run aborts when the published recipe's version is strictly newer than the
/// target version; an equal or older published version lets the publish
/// proceed.
pub fn brew_should_publish(current: &Version, target: &Version) -> (r: bool)
    requires
        current.wf(),
        target.wf(),
    ensures
        r == !spec_version_lt(target, current),
{
    !target.lt(current)
}

/// Where fetched archives are materialized: `<out>/releases`.
pub fn releases_dir(out: &str) -> (r: String)
    ensures
        r@ == out@ + "/releases"@,
{
    let mut o = String::from_str(out);
    o.append("/releases");
    o
}

} // verus!
