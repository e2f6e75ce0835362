use rustwrap::brew::{self, BrewOpts};
use rustwrap::data::{Architecture, Platform, Target};
use rustwrap::error::ErrorKind;
use rustwrap::manifest::{JsonItem, Manifest};
use rustwrap::npm::{self, NpmOpts, PackageInfo};

fn target(platform: Platform, arch: Architecture) -> Target {
    Target {
        platform,
        arch,
        url_template: String::from("https://host/dl/__VERSION__.tar.gz"),
        bin_name: None,
        archive: None,
    }
}

fn npm_opts() -> NpmOpts {
    NpmOpts {
        org: String::from("@recontools"),
        name: String::from("recon"),
        publish: false,
        bin: None,
        root: PackageInfo {
            name: None,
            manifest: String::from("recon-root.json"),
            readme: None,
        },
        sub: PackageInfo {
            name: None,
            manifest: String::from("recon-sub.json"),
            readme: None,
        },
    }
}

fn get_str(m: &Manifest, k: &str) -> String {
    match m.get(k) {
        Some(JsonItem::Str(s)) => s.clone(),
        other => panic!("field {} is {:?}", k, other),
    }
}

fn get_list(m: &Manifest, k: &str) -> Vec<String> {
    match m.get(k) {
        Some(JsonItem::List(l)) => l.clone(),
        other => panic!("field {} is {:?}", k, other),
    }
}

fn get_table(m: &Manifest, k: &str) -> Vec<(String, String)> {
    match m.get(k) {
        Some(JsonItem::Table(t)) => t.clone(),
        other => panic!("field {} is {:?}", k, other),
    }
}

#[test]
fn test_generate() {
    let mut sub_template = Manifest::new();
    sub_template.set("license", JsonItem::Str(String::from("MIT")));
    let mut root_template = Manifest::new();
    root_template.set("license", JsonItem::Str(String::from("MIT")));
    root_template.set(
        "files",
        JsonItem::List(vec![String::from("README.md")]),
    );
    let targets = vec![
        target(Platform::Darwin, Architecture::ARM64),
        target(Platform::Win32, Architecture::X64),
    ];
    let plan = npm::plan(
        "out/test_generate",
        "1.0.1",
        &targets,
        &npm_opts(),
        &sub_template,
        &root_template,
    )
    .unwrap();

    assert_eq!(plan.out_dir, "out/test_generate/recon-1.0.1/npm");
    assert_eq!(plan.root_dir, "out/test_generate/recon-1.0.1/npm/recon");
    assert_eq!(plan.bin_path, "out/test_generate/recon-1.0.1/npm/recon/bin/recon");
    assert_eq!(
        plan.postinstall_path,
        "out/test_generate/recon-1.0.1/npm/recon/postinstall.js"
    );
    assert!(!plan.publish);

    assert_eq!(plan.subs.len(), 2);
    let first = &plan.subs[0];
    assert_eq!(first.pkg_name, "@recontools/recon-bin-darwin-arm64");
    assert_eq!(
        first.dir,
        "out/test_generate/recon-1.0.1/npm/@recontools/recon-bin-darwin-arm64"
    );
    assert_eq!(get_str(&first.manifest, "name"), "@recontools/recon-bin-darwin-arm64");
    assert_eq!(get_str(&first.manifest, "version"), "1.0.1");
    assert_eq!(get_list(&first.manifest, "os"), vec![String::from("darwin")]);
    assert_eq!(get_list(&first.manifest, "cpu"), vec![String::from("arm64")]);
    assert_eq!(get_list(&first.manifest, "files"), vec![String::from("recon")]);
    assert_eq!(get_str(&first.manifest, "license"), "MIT");

    let second = &plan.subs[1];
    assert_eq!(second.pkg_name, "@recontools/recon-bin-win32-x64");
    assert_eq!(get_list(&second.manifest, "files"), vec![String::from("recon.exe")]);

    assert_eq!(plan.info.len(), 2);
    assert_eq!(plan.info[0].platform, "darwin");
    assert_eq!(plan.info[0].arch, "arm64");
    assert_eq!(plan.info[0].bin, "@recontools/recon-bin-darwin-arm64/recon");
    assert_eq!(plan.info[1].bin, "@recontools/recon-bin-win32-x64/recon.exe");
}

#[test]
fn test_root_optional_dependencies() {
    let sub_template = Manifest::new();
    let root_template = Manifest::new();
    let targets = vec![
        target(Platform::Darwin, Architecture::ARM64),
        target(Platform::Win32, Architecture::X64),
    ];
    let plan = npm::plan(
        "out",
        "1.0.1",
        &targets,
        &npm_opts(),
        &sub_template,
        &root_template,
    )
    .unwrap();
    let deps = get_table(&plan.root_manifest, "optionalDependencies");
    assert_eq!(deps.len(), 2);
    assert_eq!(deps[0].0, "@recontools/recon-bin-darwin-arm64");
    assert_eq!(deps[0].1, "1.0.1");
    assert_eq!(deps[1].0, "@recontools/recon-bin-win32-x64");
    assert_eq!(deps[1].1, "1.0.1");
    assert_eq!(get_str(&plan.root_manifest, "bin"), "bin/recon");
    assert_eq!(get_str(&plan.root_manifest, "name"), "recon");
    assert_eq!(get_str(&plan.root_manifest, "version"), "1.0.1");
    let files = get_list(&plan.root_manifest, "files");
    assert_eq!(
        files,
        vec![
            String::from("postinstall.js"),
            String::from("info.json"),
            String::from("bin/recon"),
        ]
    );
}

#[test]
fn test_root_scripts_merged() {
    let sub_template = Manifest::new();
    let mut root_template = Manifest::new();
    root_template.set(
        "scripts",
        JsonItem::Table(vec![
            (String::from("test"), String::from("node test.js")),
            (String::from("postinstall"), String::from("something else")),
        ]),
    );
    let targets = vec![target(Platform::Darwin, Architecture::X64)];
    let plan = npm::plan("out", "2.0.0", &targets, &npm_opts(), &sub_template, &root_template)
        .unwrap();
    let scripts = get_table(&plan.root_manifest, "scripts");
    assert_eq!(scripts.len(), 2);
    assert_eq!(scripts[0].0, "test");
    assert_eq!(scripts[0].1, "node test.js");
    assert_eq!(scripts[1].0, "postinstall");
    assert_eq!(scripts[1].1, "node postinstall.js");
}

#[test]
fn test_root_scripts_malformed() {
    let sub_template = Manifest::new();
    let mut root_template = Manifest::new();
    root_template.set("scripts", JsonItem::Str(String::from("oops")));
    let targets = vec![target(Platform::Darwin, Architecture::X64)];
    let e = npm::plan("out", "2.0.0", &targets, &npm_opts(), &sub_template, &root_template)
        .unwrap_err();
    assert_eq!(e.kind(), ErrorKind::ConfigurationError);
}

#[test]
fn test_edit_files_dedup() {
    let mut m = Manifest::new();
    m.set(
        "files",
        JsonItem::List(vec![String::from("a"), String::from("b")]),
    );
    let entries = vec![String::from("b"), String::from("c"), String::from("c")];
    npm::edit_files(&mut m, &entries);
    assert_eq!(
        get_list(&m, "files"),
        vec![String::from("a"), String::from("b"), String::from("c")]
    );
}

fn brew_opts(template: &str, publish: bool) -> BrewOpts {
    BrewOpts {
        name: String::from("recon"),
        tap: String::from("acme/homebrew-tap"),
        recipe_fname: None,
        recipe_template: String::from(template),
        publish,
    }
}

const TEMPLATE: &str = "class Recon < Formula\n  url \"__URL__\"\n  sha256 \"__SHA__\"\n  version \"__VERSION__\"\nend\n";

#[test]
fn test_validate_placeholders() {
    let e = brew_opts("sha __SHA__ version __VERSION__", false)
        .validate()
        .unwrap_err();
    assert_eq!(e.kind(), ErrorKind::ConfigurationError);
    assert_eq!(e.message(), "configuration error: missing URL variable");
    let e = brew_opts("url __URL__ version __VERSION__", false)
        .validate()
        .unwrap_err();
    assert_eq!(e.message(), "configuration error: missing SHA variable");
    let e = brew_opts("url __URL__ sha __SHA__", false)
        .validate()
        .unwrap_err();
    assert_eq!(e.message(), "configuration error: missing VERSION variable");
    assert!(brew_opts(TEMPLATE, false).validate().is_ok());
}

#[test]
fn test_recipe_renders_all_three() {
    let opts = brew_opts(TEMPLATE, false);
    let rendered = opts.recipe("1.2.3", "https://host/dl/1.2.3.tar.gz", "abc123");
    assert!(rendered.contains("url \"https://host/dl/1.2.3.tar.gz\""));
    assert!(rendered.contains("sha256 \"abc123\""));
    assert!(rendered.contains("version \"1.2.3\""));
    assert!(!rendered.contains("__URL__"));
    assert!(!rendered.contains("__SHA__"));
    assert!(!rendered.contains("__VERSION__"));
}

#[test]
fn test_recipe_round_trip() {
    let opts = brew_opts(TEMPLATE, false);
    let url = "https://host/dl/1.2.3.tar.gz";
    let sha = "ba7816bf8f01cfea414140de5dae2223b00361a396177a9cb410ff61f20015ad";
    let rendered = opts.recipe("1.2.3", url, sha);
    let (got_url, got_sha, got_version) = brew::parse_recipe(rendered.as_str()).unwrap();
    assert_eq!(got_url, url);
    assert_eq!(got_sha, sha);
    assert_eq!(got_version, "1.2.3");
}

#[test]
fn test_recipe_file_default() {
    assert_eq!(brew_opts(TEMPLATE, false).recipe_file(), "recon.rb");
    let mut opts = brew_opts(TEMPLATE, false);
    opts.recipe_fname = Some(String::from("other.rb"));
    assert_eq!(opts.recipe_file(), "other.rb");
}

#[test]
fn test_no_matching_target() {
    let targets = vec![
        target(Platform::Linux, Architecture::X64),
        target(Platform::Darwin, Architecture::ARM64),
    ];
    let e = brew::plan("out", "1.0.0", &targets, &brew_opts(TEMPLATE, false), b"abc")
        .unwrap_err();
    assert_eq!(e.kind(), ErrorKind::NoMatchingTarget);
}

#[test]
fn test_brew_plan_digest_and_paths() {
    let mut t = target(Platform::Darwin, Architecture::X64);
    t.archive = Some(String::from("recon.tar.gz"));
    let targets = vec![t];
    let plan = brew::plan("out", "1.0.0", &targets, &brew_opts(TEMPLATE, true), b"abc").unwrap();
    assert_eq!(plan.dir, "out/recon-1.0.0/brew");
    assert_eq!(plan.file, "out/recon-1.0.0/brew/recon.rb");
    assert_eq!(plan.remote_path, "recon.rb");
    assert!(plan.publish);
    // SHA-256 of the three bytes "abc".
    assert!(plan.recipe.contains(
        "sha256 \"ba7816bf8f01cfea414140de5dae2223b00361a396177a9cb410ff61f20015ad\""
    ));
    assert!(plan.recipe.contains("url \"https://host/dl/1.0.0.tar.gz\""));
    assert!(plan.recipe.contains("version \"1.0.0\""));
}

#[test]
fn test_brew_plan_missing_archive() {
    let targets = vec![target(Platform::Darwin, Architecture::X64)];
    let e = brew::plan("out", "1.0.0", &targets, &brew_opts(TEMPLATE, false), b"abc")
        .unwrap_err();
    assert_eq!(e.kind(), ErrorKind::ConfigurationError);
}

#[test]
fn test_put_body() {
    let body = brew::put_body("recon.rb", "abc", Some(String::from("oldsha")));
    assert_eq!(body.message, "rustwrap update: recon.rb");
    assert_eq!(body.content, "YWJj");
    assert_eq!(body.sha.as_deref(), Some("oldsha"));
    let body = brew::put_body("recon.rb", "abc", None);
    assert!(body.sha.is_none());
}

#[test]
fn test_latest_recipe_version() {
    let recipe = "class Recon < Formula\n  version \"9.9.9\"\nend\n";
    let mut encoded = base64::encode(recipe);
    encoded.insert(4, '\n');
    let v = brew::latest_recipe_version(&encoded).unwrap();
    assert_eq!(v.to_string(), "9.9.9");
    let e = brew::latest_recipe_version("!!!not base64!!!").unwrap_err();
    assert_eq!(e.kind(), ErrorKind::RemoteError);
    let no_field = base64::encode("class Recon\nend\n");
    let e = brew::latest_recipe_version(&no_field).unwrap_err();
    assert_eq!(e.kind(), ErrorKind::RemoteError);
}
