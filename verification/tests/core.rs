use rustwrap::data::{Architecture, Platform, Target};
use rustwrap::error::ErrorKind;
use rustwrap::github::parse_latest_tag;
use rustwrap::version::Version;

fn target(platform: Platform, arch: Architecture) -> Target {
    Target {
        platform,
        arch,
        url_template: String::new(),
        bin_name: None,
        archive: None,
    }
}

#[test]
fn test_tuples() {
    assert_eq!(
        "linux-arm64",
        target(Platform::Linux, Architecture::ARM64).tuple_slug()
    );
    assert_eq!(
        "recon",
        target(Platform::Linux, Architecture::ARM64).bin_name("recon")
    );
    assert_eq!(
        "recon.exe",
        target(Platform::Win32, Architecture::X64).bin_name("recon")
    );
}

#[test]
fn test_bin_name_darwin_unchanged() {
    assert_eq!(
        "recon",
        target(Platform::Darwin, Architecture::ARM64).bin_name("recon")
    );
}

#[test]
fn test_target_url_substitution() {
    let mut t = target(Platform::Linux, Architecture::X64);
    t.url_template = String::from("https://host/dl/v__VERSION__/x-__VERSION__.tar.gz");
    assert!(t.check());
    assert_eq!(t.url("1.2.3"), "https://host/dl/v1.2.3/x-1.2.3.tar.gz");
    t.url_template = String::from("https://host/dl/latest.tar.gz");
    assert!(!t.check());
    assert_eq!(t.url("1.2.3"), "https://host/dl/latest.tar.gz");
}

#[test]
fn test_version_parse_core() {
    let v = Version::parse("2.3.4").unwrap();
    assert_eq!(v.major, 2);
    assert_eq!(v.minor, 3);
    assert_eq!(v.patch, 4);
    assert!(v.pre.is_empty());
    assert!(v.build.is_empty());
    assert_eq!(v.to_string(), "2.3.4");
}

#[test]
fn test_version_parse_pre_build() {
    let v = Version::parse("1.2.3-alpha.1+build.5").unwrap();
    assert_eq!(v.major, 1);
    assert_eq!(v.pre.len(), 2);
    assert_eq!(v.pre[0].as_str(), "alpha");
    assert_eq!(v.pre[1].as_str(), "1");
    assert_eq!(v.build.len(), 2);
    assert_eq!(v.build[0].as_str(), "build");
    assert_eq!(v.build[1].as_str(), "5");
    assert_eq!(v.to_string(), "1.2.3-alpha.1+build.5");
}

#[test]
fn test_version_parse_invalid() {
    for s in [
        "", "1", "1.2", "1.2.3.4", "1.02.3", "01.2.3", "1.2.3-", "1.2.3-a..b", "1.2.3+",
        "a.b.c", "1.2.x", "1.2.3-é",
    ] {
        let e = Version::parse(s).unwrap_err();
        assert_eq!(e.kind(), ErrorKind::InvalidVersion, "input {:?}", s);
    }
}

#[test]
fn test_version_ordering_matches_semver() {
    let chain = [
        "1.0.0-alpha",
        "1.0.0-alpha.1",
        "1.0.0-alpha.beta",
        "1.0.0-beta",
        "1.0.0-beta.2",
        "1.0.0-beta.11",
        "1.0.0-rc.1",
        "1.0.0",
        "1.0.1",
        "1.1.0",
        "2.0.0",
    ];
    for w in chain.windows(2) {
        let a = Version::parse(w[0]).unwrap();
        let b = Version::parse(w[1]).unwrap();
        assert!(a.lt(&b), "{} should precede {}", w[0], w[1]);
        assert!(!b.lt(&a), "{} should not precede {}", w[1], w[0]);
        let sa = semver::Version::parse(w[0]).unwrap();
        let sb = semver::Version::parse(w[1]).unwrap();
        assert!(sa < sb);
    }
    let a = Version::parse("1.0.0+alpha").unwrap();
    let b = Version::parse("1.0.0+beta").unwrap();
    assert!(!a.lt(&b));
    assert!(!b.lt(&a));
}

#[test]
fn test_parse_latest_tag() {
    let v = parse_latest_tag("v2.3.4").unwrap();
    assert_eq!(v.major, 2);
    assert_eq!(v.minor, 3);
    assert_eq!(v.patch, 4);
    let v = parse_latest_tag("2.3.4").unwrap();
    assert_eq!(v.to_string(), "2.3.4");
    let e = parse_latest_tag("vx.y.z").unwrap_err();
    assert_eq!(e.kind(), ErrorKind::InvalidVersion);
}

#[test]
fn test_error_messages() {
    let e = rustwrap::error::Error::DownloadFailed {
        url: String::from("https://host/a"),
        status: 404,
    };
    assert_eq!(e.kind(), ErrorKind::DownloadFailed);
    assert_eq!(
        e.message(),
        "downloading 'https://host/a' failed with status: 404"
    );
    let e = rustwrap::error::Error::NoMatchingTarget;
    assert_eq!(e.message(), "no Intel macOS compatible target found");
    let e = rustwrap::error::Error::PublishFailed(String::from("exit status 1"));
    assert_eq!(e.kind(), ErrorKind::PublishFailed);
    assert_eq!(e.message(), "publish failed: exit status 1");
    let e = rustwrap::error::Error::IOError(String::from("denied"));
    assert_eq!(e.kind(), ErrorKind::IOError);
    assert_eq!(e.message(), "io error: denied");
    let e = rustwrap::error::Error::RemoteError(String::from("no tag"));
    assert_eq!(e.kind(), ErrorKind::RemoteError);
    assert_eq!(e.message(), "remote error: no tag");
}
