use rustwrap::console::{Console, MemConsole};
use rustwrap::data::{Architecture, Config, Platform, Session, Target};
use rustwrap::download::{
    check_status, filename_from_content_disposition, plan_fetch, complete_fetch,
    resolve_filename, Download, FetchItem, TargetsDownloader,
};
use rustwrap::error::ErrorKind;
use rustwrap::github::{api_headers, contents_url, latest_release_url};
use rustwrap::runner::{brew_should_publish, npm_should_publish, plan_version, releases_dir,
    VersionSource};
use rustwrap::version::Version;

fn target(archive: Option<&str>) -> Target {
    Target {
        platform: Platform::Linux,
        arch: Architecture::X64,
        url_template: String::from("https://host/dl/__VERSION__.tar.gz"),
        bin_name: None,
        archive: archive.map(String::from),
    }
}

#[test]
fn test_plan_fetch_idempotent() {
    let t = target(Some("recon.tar.gz"));
    match plan_fetch(&t, true, "1.0.0") {
        FetchItem::Keep(kept) => {
            assert_eq!(kept.platform, t.platform);
            assert_eq!(kept.arch, t.arch);
            assert_eq!(kept.url_template, t.url_template);
            assert_eq!(kept.bin_name, t.bin_name);
            assert_eq!(kept.archive, t.archive);
        }
        FetchItem::Fetch { .. } => panic!("an existing archive must be kept, not fetched"),
    }
}

#[test]
fn test_plan_fetch_downloads() {
    let t = target(None);
    match plan_fetch(&t, false, "1.0.0") {
        FetchItem::Fetch { target: got, url } => {
            assert_eq!(url, "https://host/dl/1.0.0.tar.gz");
            assert_eq!(got.archive, None);
        }
        FetchItem::Keep(_) => panic!("a target without an archive must be fetched"),
    }
    // An archive path that is absent from disk is fetched again.
    let t = target(Some("gone.tar.gz"));
    match plan_fetch(&t, false, "1.0.0") {
        FetchItem::Fetch { url, .. } => assert_eq!(url, "https://host/dl/1.0.0.tar.gz"),
        FetchItem::Keep(_) => panic!("a missing archive must be fetched"),
    }
}

#[test]
fn test_complete_fetch() {
    let t = target(None);
    let done = complete_fetch(&t, String::from("out/releases/recon.tar.gz"));
    assert_eq!(done.archive.as_deref(), Some("out/releases/recon.tar.gz"));
    assert_eq!(done.platform, t.platform);
}

#[test]
fn test_targets_downloader() {
    let targets = vec![target(None), target(None)];
    let config = Config { targets: Vec::new(), npm: None, brew: None, repo: None };
    let mut session = Session { config: &config, console: MemConsole::new() };
    let downloader = TargetsDownloader::new(&targets, "out/releases");
    assert!(downloader.show_progress);
    let items = downloader.download(&mut session, "2.0.0");
    assert_eq!(items.len(), 2);
    for item in items {
        match item {
            FetchItem::Fetch { url, .. } => assert_eq!(url, "https://host/dl/2.0.0.tar.gz"),
            FetchItem::Keep(_) => panic!("nothing is on disk, so nothing can be kept"),
        }
    }
    assert_eq!(session.console.buffer.len(), 1);
}

#[test]
fn test_check_status() {
    assert!(check_status("https://host/a", 200).is_ok());
    assert!(check_status("https://host/a", 299).is_ok());
    let e = check_status("https://host/a", 404).unwrap_err();
    assert_eq!(e.kind(), ErrorKind::DownloadFailed);
    let e = check_status("https://host/a", 301).unwrap_err();
    assert_eq!(e.kind(), ErrorKind::DownloadFailed);
}

#[test]
fn test_filename_from_content_disposition() {
    let f = filename_from_content_disposition("attachment; filename=\"foo.tar.gz\"").unwrap();
    assert_eq!(f, "foo.tar.gz");
    let f = filename_from_content_disposition("attachment; filename=bar.zip").unwrap();
    assert_eq!(f, "bar.zip");
    let e = filename_from_content_disposition("attachment").unwrap_err();
    assert_eq!(e.kind(), ErrorKind::RemoteError);
    assert_eq!(resolve_filename(Some("attachment; filename=\"x.zip\"")), "x.zip");
    assert_eq!(resolve_filename(Some("attachment")), "temp.bin");
    assert_eq!(resolve_filename(None), "temp.bin");
}

#[test]
fn test_download_headers() {
    let mut d = Download::from_url("https://host/a");
    assert!(!d.show_progress);
    d.show_progress(true);
    assert!(d.show_progress);
    assert!(!d.has_header("user-agent"));
    d.ensure_user_agent();
    assert!(d.has_header("user-agent"));
    assert_eq!(d.headers.len(), 1);
    assert_eq!(d.headers[0].0, "user-agent");
    assert_eq!(d.headers[0].1, "rust-reqwest/rustwrap");
    d.ensure_user_agent();
    assert_eq!(d.headers.len(), 1);
    assert!(d.effective_progress(10));
    assert!(!d.effective_progress(0));
}

#[test]
fn test_api_headers() {
    let h = api_headers(None).unwrap();
    assert_eq!(h.len(), 1);
    assert_eq!(h[0].0, "user-agent");
    assert_eq!(h[0].1, "rust-reqwest/rustwrap");
    let h = api_headers(Some("SECRET-REDACTED")).unwrap();
    assert_eq!(h.len(), 2);
    assert_eq!(h[1].0, "authorization");
    assert_eq!(h[1].1, "token SECRET-REDACTED");
    let e = api_headers(Some("bad\u{7f}token")).unwrap_err();
    assert_eq!(e.kind(), ErrorKind::ConfigurationError);
}

#[test]
fn test_api_urls() {
    assert_eq!(
        latest_release_url("acme/recon"),
        "https://api.github.com/repos/acme/recon/releases/latest"
    );
    assert_eq!(
        contents_url("acme/homebrew-tap", "recon.rb"),
        "https://api.github.com/repos/acme/homebrew-tap/contents/recon.rb"
    );
}

#[test]
fn test_plan_version() {
    match plan_version(&Some(String::from("1.2.3")), &None).unwrap() {
        VersionSource::Resolved(v) => assert_eq!(v.to_string(), "1.2.3"),
        VersionSource::Discover(_) => panic!("an explicit tag must resolve directly"),
    }
    match plan_version(&None, &Some(String::from("acme/recon"))).unwrap() {
        VersionSource::Discover(repo) => assert_eq!(repo, "acme/recon"),
        VersionSource::Resolved(_) => panic!("without a tag the repository is queried"),
    }
    let e = plan_version(&Some(String::from("nope")), &None).unwrap_err();
    assert_eq!(e.kind(), ErrorKind::InvalidVersion);
    let e = plan_version(&None, &None).unwrap_err();
    assert_eq!(e.kind(), ErrorKind::ConfigurationError);
}

#[test]
fn test_publish_gates() {
    let current = Version::parse("1.0.0").unwrap();
    let target_v = Version::parse("1.0.1").unwrap();
    assert!(npm_should_publish(&current, &target_v));
    assert!(!npm_should_publish(&target_v, &current));
    assert!(!npm_should_publish(&current, &current));
    // The published recipe may be older or equal, never newer.
    assert!(brew_should_publish(&current, &target_v));
    assert!(brew_should_publish(&current, &current));
    assert!(!brew_should_publish(&target_v, &current));
}

#[test]
fn test_releases_dir() {
    assert_eq!(releases_dir("dist"), "dist/releases");
}

#[test]
fn test_mem_console() {
    let mut c = MemConsole::new();
    c.say("one");
    c.say("two");
    assert_eq!(c.buffer, vec![String::from("one"), String::from("two")]);
}
