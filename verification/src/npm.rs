//! The npm-style publisher: derives one binary sub-package per target and a
//! root meta-package whose optional dependencies pull in the right binary at
//! install time. This module computes the whole package layout and its
//! manifests; writing directories, decompressing archives and invoking the
//! registry client are left to the thin binary around the library.

use vstd::prelude::*;
use crate::data::{Target, Platform, Architecture, spec_tuple_slug, spec_bin_name, platform_str,
    arch_str};
use crate::error::Error;
use crate::manifest::{Manifest, JsonItem, ItemView, get_view, views_of, table_view,
    lemma_views_push};

verus! {

/// Where one package's manifest template and readme live.
#[derive(Debug)]
pub struct PackageInfo {
    /// An explicit package name, overriding the configured one.
    pub name: Option<String>,
    /// The path of the manifest template.
    pub manifest: String,
    /// The path of a readme to copy alongside, if any.
    pub readme: Option<String>,
}

/// The npm provider options: the organization namespace, the public package
/// name, the publish flag, an optional explicit binary name, and the root and
/// sub-package templates.
#[derive(Debug)]
pub struct NpmOpts {
    pub org: String,
    pub name: String,
    pub publish: bool,
    pub bin: Option<String>,
    pub root: PackageInfo,
    pub sub: PackageInfo,
}

impl NpmOpts {
    /// The name of the shim binary users invoke.
    pub open spec fn spec_shim_name(&self) -> Seq<char> {
        match self.bin {
            Some(b) => b@,
            None => self.name@,
        }
    }

    /// The published name of the root meta-package.
    pub open spec fn spec_root_package_name(&self) -> Seq<char> {
        match self.root.name {
            Some(n) => n@,
            None => self.name@,
        }
    }

    /// The name of the shim binary users invoke: the explicit binary name,
    /// or the configured package name.
    pub fn shim_name(&self) -> (r: String)
        ensures
            r@ == self.spec_shim_name(),
    {
        match &self.bin {
            Some(b) => b.clone(),
            None => self.name.clone(),
        }
    }

    /// The published name of the root meta-package: the explicit root name,
    /// or the configured package name.
    pub fn root_package_name(&self) -> (r: String)
        ensures
            r@ == self.spec_root_package_name(),
    {
        match &self.root.name {
            Some(n) => n.clone(),
            None => self.name.clone(),
        }
    }
}

/// The deterministic sub-package name of a target:
/// `"{org}/{subName}-bin-{tupleSlug}"`.
pub open spec fn spec_subpkg_name(platform: Platform, arch: Architecture, opts: &NpmOpts) -> Seq<
    char,
> {
    opts.org@ + "/"@ + (match opts.sub.name {
        Some(n) => n@,
        None => opts.name@,
    }) + "-bin-"@ + spec_tuple_slug(platform, arch)
}

/// The deterministic sub-package name of `target`.
pub fn subpkg_name(target: &Target, opts: &NpmOpts) -> (r: String)
    ensures
        r@ == spec_subpkg_name(target.platform, target.arch, opts),
{
    let mut out = opts.org.clone();
    out.append("/");
    match &opts.sub.name {
        Some(n) => out.append(n.as_str()),
        None => out.append(opts.name.as_str()),
    }
    out.append("-bin-");
    let slug = target.tuple_slug();
    out.append(slug.as_str());
    out
}

/// Keep-first deduplication: an element stays when it did not occur earlier.
pub open spec fn spec_dedup(s: Seq<Seq<char>>) -> Seq<Seq<char>>
    decreases s.len(),
{
    if s.len() == 0 {
        s
    } else {
        let prefix = spec_dedup(s.drop_last());
        if s.drop_last().contains(s.last()) {
            prefix
        } else {
            prefix.push(s.last())
        }
    }
}

/// Deduplication keeps exactly the elements of its input.
pub proof fn lemma_dedup_membership(s: Seq<Seq<char>>, x: Seq<char>)
    ensures
        spec_dedup(s).contains(x) <==> s.contains(x),
    decreases s.len(),
{
    if s.len() > 0 {
        let d = s.drop_last();
        lemma_dedup_membership(d, x);
        if s.contains(x) {
            let i = choose|i: int| 0 <= i < s.len() && s[i] == x;
            if i < s.len() - 1 {
                assert(d[i] == x);
                assert(d.contains(x));
            } else {
                assert(x == s.last());
            }
        }
        if d.contains(x) {
            let i = choose|i: int| 0 <= i < d.len() && d[i] == x;
            assert(s[i] == x);
            assert(s.contains(x));
        }
        if x == s.last() {
            assert(s[s.len() - 1] == x);
            assert(s.contains(x));
        }
        if d.contains(s.last()) {
            assert(spec_dedup(s) == spec_dedup(d));
        } else {
            assert(spec_dedup(s) == spec_dedup(d).push(s.last()));
            if spec_dedup(s).contains(x) {
                let i = choose|i: int| 0 <= i < spec_dedup(s).len() && spec_dedup(s)[i] == x;
                if i < spec_dedup(s).len() - 1 {
                    assert(spec_dedup(d)[i] == x);
                    assert(spec_dedup(d).contains(x));
                } else {
                    assert(x == s.last());
                }
            }
            if spec_dedup(d).contains(x) {
                let i = choose|i: int| 0 <= i < spec_dedup(d).len() && spec_dedup(d)[i] == x;
                assert(spec_dedup(s)[i] == x);
                assert(spec_dedup(s).contains(x));
            }
            if x == s.last() {
                assert(spec_dedup(s)[spec_dedup(s).len() - 1] == x);
                assert(spec_dedup(s).contains(x));
            }
        }
    }
}

/// Whether some element of `v` reads `x`.
fn vec_contains_string(v: &Vec<String>, x: &String) -> (r: bool)
    ensures
        r == views_of(v@).contains(x@),
{
    let n = v.len();
    let ghost view = views_of(v@);
    let mut i: usize = 0;
    while i < n
        invariant
            0 <= i <= n,
            n == v@.len(),
            view == views_of(v@),
            forall|j: int| 0 <= j < i ==> view[j] != x@,
        decreases n - i,
    {
        let eq = v[i] == *x;
        if eq {
            proof {
                assert(view[i as int] == x@);
            }
            return true;
        }
        i += 1;
    }
    proof {
        if view.contains(x@) {
            let j = choose|j: int| 0 <= j < view.len() && view[j] == x@;
            assert(false);
        }
    }
    false
}

/// Keep-first deduplication of a list of strings.
fn dedup_strings(v: &Vec<String>) -> (r: Vec<String>)
    ensures
        r@.map_values(|e: String| e@) == spec_dedup(views_of(v@)),
{
    let n = v.len();
    let ghost view = views_of(v@);
    let mut out: Vec<String> = Vec::new();
    let mut i: usize = 0;
    proof {
        assert(view.take(0) =~~= Seq::<Seq<char>>::empty());
        assert(spec_dedup(view.take(0)) =~~= Seq::<Seq<char>>::empty());
    }
    while i < n
        invariant
            0 <= i <= n,
            n == v@.len(),
            view == views_of(v@),
            views_of(out@) == spec_dedup(view.take(i as int)),
        decreases n - i,
    {
        let present = vec_contains_string(&out, &v[i]);
        proof {
            lemma_dedup_membership(view.take(i as int), view[i as int]);
            assert(view.take(i + 1).drop_last() =~~= view.take(i as int));
            assert(view.take(i + 1).last() == view[i as int]);
            assert(v@[i as int]@ == view[i as int]);
        }
        if !present {
            let ghost before_out = out@;
            let c = v[i].clone();
            out.push(c);
            proof {
                lemma_views_push(before_out, out@.last());
                assert(views_of(out@) =~~= spec_dedup(view.take(i as int)).push(view[i as int]));
            }
        }
        i += 1;
    }
    proof {
        assert(view.take(n as int) =~~= view);
    }
    out
}

/// The file-inclusion list named by a field's content; empty when the field
/// is absent or not a list of strings.
pub open spec fn files_base_view(v: Option<ItemView>) -> Seq<Seq<char>> {
    match v {
        Some(ItemView::List(l)) => l,
        _ => Seq::<Seq<char>>::empty(),
    }
}

/// The file-inclusion list of a manifest, as character sequences; empty when
/// the field is absent or not a list of strings.
pub open spec fn spec_files_base(m: &Manifest) -> Seq<Seq<char>> {
    files_base_view(get_view(m, "files"@))
}

/// What the file-inclusion list holds after `entries` are appended and the
/// whole list deduplicated, keeping first occurrences.
pub open spec fn spec_edited_files(base: Seq<Seq<char>>, entries: Seq<Seq<char>>) -> Seq<Seq<char>> {
    spec_dedup(base + entries)
}

/// The `files` field of `m`, copied out; empty when absent or not a list.
fn files_list(m: &Manifest) -> (r: Vec<String>)
    ensures
        r@.map_values(|e: String| e@) == spec_files_base(m),
{
    match m.get("files") {
        Some(item) => match item {
            JsonItem::List(l) => {
                let mut out: Vec<String> = Vec::new();
                let n = l.len();
                let mut i: usize = 0;
                while i < n
                    invariant
                        0 <= i <= n,
                        n == l@.len(),
                        out@.len() == i,
                        forall|j: int| 0 <= j < i ==> out@[j] == l@[j],
                    decreases n - i,
                {
                    out.push(l[i].clone());
                    i += 1;
                }
                proof {
                    assert(out@ =~= l@);
                }
                out
            },
            _ => Vec::new(),
        },
        None => Vec::new(),
    }
}

/// Appends `entries` to the manifest's file-inclusion list, deduplicated
/// keeping first occurrences; a missing or malformed list starts empty.
/// Every other field keeps its value.
pub fn edit_files(m: &mut Manifest, entries: &Vec<String>)
    requires
        old(m).wf(),
    ensures
        final(m).wf(),
        (final(m).spec_get("files"@) matches Some(JsonItem::List(l)) && views_of(l@)
            == spec_edited_files(spec_files_base(old(m)), views_of(entries@))),
        forall|k2: Seq<char>| k2 != "files"@ ==> final(m).spec_get(k2) == old(m).spec_get(k2),
{
    let mut combined = files_list(m);
    let ghost base = views_of(combined@);
    let n = entries.len();
    let mut i: usize = 0;
    while i < n
        invariant
            0 <= i <= n,
            n == entries@.len(),
            views_of(combined@) == base + views_of(entries@).take(i as int),
        decreases n - i,
    {
        let ghost before = combined@;
        let c = entries[i].clone();
        combined.push(c);
        proof {
            let c = combined@.last();
            assert(views_of(entries@)[i as int] == entries@[i as int]@);
            assert(views_of(entries@).take(i + 1) =~~= views_of(entries@).take(i as int).push(
                entries@[i as int]@,
            ));
            lemma_views_push(before, c);
            assert(views_of(combined@) =~~= base + views_of(entries@).take(i + 1));
        }
        i += 1;
    }
    proof {
        assert(views_of(entries@).take(n as int) =~~= entries@.map_values(
            |e: String| e@,
        ));
    }
    let deduped = dedup_strings(&combined);
    m.set("files", JsonItem::List(deduped));
}

/// What the sub-package manifest of a target must hold: the derived name,
/// the resolved version, single-element OS and CPU constraint lists matching
/// the target, the platform-specific binary appended to the file-inclusion
/// list, and every other field as the template has it.
pub open spec fn is_subpkg_manifest(r: &Manifest, tpl: &Manifest, version: Seq<char>,
    platform: Platform, arch: Architecture, opts: &NpmOpts) -> bool {
    &&& r.wf()
    &&& get_view(r, "name"@) == Some(ItemView::Str(spec_subpkg_name(platform, arch, opts)))
    &&& get_view(r, "version"@) == Some(ItemView::Str(version))
    &&& get_view(r, "os"@) == Some(ItemView::List(seq![platform_str(platform)]))
    &&& get_view(r, "cpu"@) == Some(ItemView::List(seq![arch_str(arch)]))
    &&& get_view(r, "files"@) == Some(ItemView::List(spec_edited_files(
        files_base_view(get_view(tpl, "files"@)),
        seq![spec_bin_name(platform, opts.spec_shim_name())],
    )))
    &&& forall|k: Seq<char>| k != "name"@ && k != "version"@ && k != "os"@ && k != "cpu"@ && k
        != "files"@ ==> get_view(r, k) == get_view(tpl, k)
}

/// Derives the sub-package manifest of `target` from the template.
pub fn edit_subpkg(pkg: &Manifest, version: &str, target: &Target, opts: &NpmOpts) -> (r: Manifest)
    requires
        pkg.wf(),
    ensures
        is_subpkg_manifest(&r, pkg, version@, target.platform, target.arch, opts),
{
    proof {
        reveal_strlit("name");
        reveal_strlit("version");
        reveal_strlit("os");
        reveal_strlit("cpu");
        reveal_strlit("files");
        assert("name"@.len() == 4 && "version"@.len() == 7 && "os"@.len() == 2 && "cpu"@.len()
            == 3 && "files"@.len() == 5);
        assert("name"@ != "version"@);
        assert("name"@ != "os"@);
        assert("name"@ != "cpu"@);
        assert("name"@ != "files"@);
        assert("version"@ != "os"@);
        assert("version"@ != "cpu"@);
        assert("version"@ != "files"@);
        assert("os"@ != "cpu"@);
        assert("os"@ != "files"@);
        assert("cpu"@ != "files"@);
    }
    let mut m = pkg.duplicate();
    let pkg_name = subpkg_name(target, opts);
    m.set("name", JsonItem::Str(pkg_name));
    m.set("version", JsonItem::Str(String::from_str(version)));
    let os_list = vec![String::from_str(target.platform.as_str())];
    proof {
        assert(views_of(os_list@) =~~= seq![platform_str(target.platform)]);
    }
    m.set("os", JsonItem::List(os_list));
    let cpu_list = vec![String::from_str(target.arch.as_str())];
    proof {
        assert(views_of(cpu_list@) =~~= seq![arch_str(target.arch)]);
    }
    m.set("cpu", JsonItem::List(cpu_list));
    let shim = opts.shim_name();
    let bin = target.bin_name(shim.as_str());
    let entries = vec![bin];
    let ghost before_files = m;
    edit_files(&mut m, &entries);
    proof {
        assert(views_of(entries@) =~~= seq![spec_bin_name(target.platform, opts.spec_shim_name())]);
        assert(spec_files_base(&before_files) == files_base_view(get_view(pkg, "files"@)));
    }
    m
}

/// A table with every pair keyed `key` removed, order otherwise kept.
pub open spec fn spec_remove_key(t: Seq<(Seq<char>, Seq<char>)>, key: Seq<char>) -> Seq<(
    Seq<char>,
    Seq<char>,
)>
    decreases t.len(),
{
    if t.len() == 0 {
        t
    } else {
        let prefix = spec_remove_key(t.drop_last(), key);
        if t.last().0 == key {
            prefix
        } else {
            prefix.push(t.last())
        }
    }
}

/// What the scripts table must hold after the post-install hook is merged in:
/// every other hook kept, and `postinstall` bound to `node postinstall.js`.
pub open spec fn spec_scripts(tpl_scripts: Option<ItemView>) -> Seq<(Seq<char>, Seq<char>)> {
    let base = match tpl_scripts {
        Some(ItemView::Table(t)) => t,
        _ => Seq::<(Seq<char>, Seq<char>)>::empty(),
    };
    spec_remove_key(base, "postinstall"@).push(("postinstall"@, "node postinstall.js"@))
}

/// The optional-dependencies table: every target's sub-package name bound to
/// the resolved version, in target order.
pub open spec fn spec_opt_deps(targets: Seq<Target>, version: Seq<char>, opts: &NpmOpts) -> Seq<(
    Seq<char>,
    Seq<char>,
)> {
    targets.map_values(|t: Target| (spec_subpkg_name(t.platform, t.arch, opts), version))
}

/// What the root meta-package manifest must hold: the root package name, the
/// resolved version, an optional dependency on every sub-package, the merged
/// post-install hook, the shim as binary entry point, the three generated
/// files appended to the file-inclusion list, and every other field as the
/// template has it.
pub open spec fn is_root_manifest(r: &Manifest, tpl: &Manifest, version: Seq<char>,
    targets: Seq<Target>, opts: &NpmOpts) -> bool {
    &&& r.wf()
    &&& get_view(r, "name"@) == Some(ItemView::Str(opts.spec_root_package_name()))
    &&& get_view(r, "version"@) == Some(ItemView::Str(version))
    &&& get_view(r, "optionalDependencies"@) == Some(ItemView::Table(spec_opt_deps(
        targets,
        version,
        opts,
    )))
    &&& get_view(r, "scripts"@) == Some(ItemView::Table(spec_scripts(get_view(tpl, "scripts"@))))
    &&& get_view(r, "bin"@) == Some(ItemView::Str("bin/"@ + opts.spec_shim_name()))
    &&& get_view(r, "files"@) == Some(ItemView::List(spec_edited_files(
        files_base_view(get_view(tpl, "files"@)),
        seq!["postinstall.js"@, "info.json"@, "bin/"@ + opts.spec_shim_name()],
    )))
    &&& forall|k: Seq<char>| k != "name"@ && k != "version"@ && k != "optionalDependencies"@ && k
        != "scripts"@ && k != "bin"@ && k != "files"@ ==> get_view(r, k) == get_view(tpl, k)
}

/// The template's scripts field, if present, is a table of strings; the
/// publisher cannot merge a hook into anything else.
pub open spec fn scripts_editable(tpl: &Manifest) -> bool {
    match get_view(tpl, "scripts"@) {
        Some(ItemView::Table(_)) => true,
        Some(_) => false,
        None => true,
    }
}

/// Derives the root meta-package manifest from the template.
pub fn edit_rootpkg(pkg: &Manifest, version: &str, targets: &Vec<Target>, opts: &NpmOpts) -> (r:
    Manifest)
    requires
        pkg.wf(),
        scripts_editable(pkg),
    ensures
        is_root_manifest(&r, pkg, version@, targets@, opts),
{
    proof {
        reveal_strlit("name");
        reveal_strlit("version");
        reveal_strlit("optionalDependencies");
        reveal_strlit("scripts");
        reveal_strlit("bin");
        reveal_strlit("files");
        assert("name"@.len() == 4 && "version"@.len() == 7 && "optionalDependencies"@.len() == 20
            && "scripts"@.len() == 7 && "bin"@.len() == 3 && "files"@.len() == 5);
        assert("name"@ != "version"@);
        assert("name"@ != "optionalDependencies"@);
        assert("name"@ != "scripts"@);
        assert("name"@ != "bin"@);
        assert("name"@ != "files"@);
        assert("version"@ != "optionalDependencies"@);
        assert("version"@ != "scripts"@) by {
            assert("version"@[0] == 'v' && "scripts"@[0] == 's');
        }
        assert("version"@ != "bin"@);
        assert("version"@ != "files"@);
        assert("optionalDependencies"@ != "scripts"@);
        assert("optionalDependencies"@ != "bin"@);
        assert("optionalDependencies"@ != "files"@);
        assert("scripts"@ != "bin"@);
        assert("scripts"@ != "files"@);
        assert("bin"@ != "files"@);
    }
    let mut m = pkg.duplicate();
    m.set("name", JsonItem::Str(opts.root_package_name()));
    m.set("version", JsonItem::Str(String::from_str(version)));

    let mut deps: Vec<(String, String)> = Vec::new();
    let n = targets.len();
    let mut i: usize = 0;
    while i < n
        invariant
            0 <= i <= n,
            n == targets@.len(),
            table_view(deps@) =~~= spec_opt_deps(targets@.take(i as int), version@, opts),
        decreases n - i,
    {
        let dep_name = subpkg_name(&targets[i], opts);
        deps.push((dep_name, String::from_str(version)));
        proof {
            assert(spec_opt_deps(targets@.take(i + 1), version@, opts) =~~= spec_opt_deps(
                targets@.take(i as int),
                version@,
                opts,
            ).push((spec_subpkg_name(targets@[i as int].platform, targets@[i as int].arch, opts),
            version@)));
            assert(table_view(deps@) =~~= spec_opt_deps(targets@.take(i + 1), version@, opts));
        }
        i += 1;
    }
    proof {
        assert(targets@.take(n as int) =~~= targets@);
    }
    m.set("optionalDependencies", JsonItem::Table(deps));

    let base_scripts: Vec<(String, String)> = match m.get("scripts") {
        Some(item) => match item {
            JsonItem::Table(t) => {
                let mut out: Vec<(String, String)> = Vec::new();
                let tn = t.len();
                let mut j: usize = 0;
                while j < tn
                    invariant
                        0 <= j <= tn,
                        tn == t@.len(),
                        out@.len() == j,
                        forall|p: int| 0 <= p < j ==> (#[trigger] out@[p]).0@ == t@[p].0@
                            && out@[p].1@ == t@[p].1@,
                    decreases tn - j,
                {
                    out.push((t[j].0.clone(), t[j].1.clone()));
                    j += 1;
                }
                proof {
                    assert(table_view(out@) =~~= table_view(t@));
                }
                out
            },
            _ => Vec::new(),
        },
        None => Vec::new(),
    };
    let ghost scripts_base = match get_view(pkg, "scripts"@) {
        Some(ItemView::Table(t)) => t,
        _ => Seq::<(Seq<char>, Seq<char>)>::empty(),
    };
    proof {
        assert(table_view(base_scripts@) == scripts_base);
    }
    let mut scripts: Vec<(String, String)> = Vec::new();
    let bn = base_scripts.len();
    let mut j: usize = 0;
    proof {
        assert(table_view(base_scripts@).take(0) =~~= Seq::<(Seq<char>, Seq<char>)>::empty());
        assert(spec_remove_key(table_view(base_scripts@).take(0), "postinstall"@) =~~= Seq::<(
            Seq<char>,
            Seq<char>,
        )>::empty());
        assert(table_view(scripts@) =~~= Seq::<(Seq<char>, Seq<char>)>::empty());
    }
    while j < bn
        invariant
            0 <= j <= bn,
            bn == base_scripts@.len(),
            scripts_base == table_view(base_scripts@),
            table_view(scripts@) == spec_remove_key(scripts_base.take(j as int), "postinstall"@),
        decreases bn - j,
    {
        proof {
            reveal_strlit("postinstall");
            assert(scripts_base.take(j + 1).drop_last() =~~= scripts_base.take(j as int));
            assert(scripts_base.take(j + 1).last() == scripts_base[j as int]);
            assert(scripts_base[j as int].0 == base_scripts@[j as int].0@);
            assert(scripts_base[j as int].1 == base_scripts@[j as int].1@);
        }
        let key_is_postinstall = base_scripts[j].0 == String::from_str("postinstall");
        if !key_is_postinstall {
            scripts.push((base_scripts[j].0.clone(), base_scripts[j].1.clone()));
            proof {
                assert(table_view(scripts@) =~~= spec_remove_key(
                    scripts_base.take(j + 1),
                    "postinstall"@,
                ));
            }
        }
        j += 1;
    }
    proof {
        assert(scripts_base.take(bn as int) =~~= scripts_base);
    }
    scripts.push((String::from_str("postinstall"), String::from_str("node postinstall.js")));
    proof {
        assert(table_view(scripts@) =~~= spec_remove_key(scripts_base, "postinstall"@).push(
            ("postinstall"@, "node postinstall.js"@),
        ));
        assert(table_view(scripts@) == spec_scripts(get_view(pkg, "scripts"@)));
    }
    m.set("scripts", JsonItem::Table(scripts));

    let shim = opts.shim_name();
    let mut bin_name = String::from_str("bin/");
    bin_name.append(shim.as_str());
    m.set("bin", JsonItem::Str(bin_name.clone()));

    let mut entries: Vec<String> = Vec::new();
    entries.push(String::from_str("postinstall.js"));
    entries.push(String::from_str("info.json"));
    entries.push(bin_name);
    let ghost before_files = m;
    edit_files(&mut m, &entries);
    proof {
        assert(views_of(entries@) =~~= seq![
            "postinstall.js"@,
            "info.json"@,
            "bin/"@ + opts.spec_shim_name(),
        ]);
        assert(spec_files_base(&before_files) == files_base_view(get_view(pkg, "files"@)));
    }
    m
}

/// One sub-package to materialize: its derived name, its directory, and its
/// synthesized manifest.
#[derive(Debug)]
pub struct SubPlan {
    pub pkg_name: String,
    pub dir: String,
    pub manifest: Manifest,
}

/// One line of the generated platform index: a target's platform and
/// architecture names, and the relative path of its binary inside its
/// sub-package.
#[derive(Debug)]
pub struct InfoEntry {
    pub platform: String,
    pub arch: String,
    pub bin: String,
}

/// Everything the npm publish stage decides: where to write, which
/// sub-packages with which manifests, the root manifest, the generated file
/// paths, the platform index, and whether to push to the registry.
#[derive(Debug)]
pub struct NpmPlan {
    pub out_dir: String,
    pub subs: Vec<SubPlan>,
    pub root_dir: String,
    pub root_manifest: Manifest,
    pub bin_path: String,
    pub postinstall_path: String,
    pub info: Vec<InfoEntry>,
    pub publish: bool,
}

/// The npm output root: `<out>/<name>-<version>/npm`.
pub open spec fn spec_npm_out_dir(out: Seq<char>, version: Seq<char>, opts: &NpmOpts) -> Seq<char> {
    out + "/"@ + opts.name@ + "-"@ + version + "/npm"@
}

/// The relative binary path a target's info line names:
/// `<subpkgName>/<binName>`.
pub open spec fn spec_info_bin(t: Target, opts: &NpmOpts) -> Seq<char> {
    spec_subpkg_name(t.platform, t.arch, opts) + "/"@ + spec_bin_name(
        t.platform,
        opts.spec_shim_name(),
    )
}

/// Computes the whole npm package layout: one sub-package per target in
/// input order, the root meta-package, and the generated file paths. Fails
/// with `ConfigurationError` exactly when the root template's `scripts`
/// field is present but not a table of strings.
pub fn plan(out_dir: &str, version: &str, targets: &Vec<Target>, opts: &NpmOpts,
    sub_template: &Manifest, root_template: &Manifest) -> (r: Result<NpmPlan, Error>)
    requires
        sub_template.wf(),
        root_template.wf(),
    ensures
        match r {
            Ok(p) => {
                &&& scripts_editable(root_template)
                &&& p.out_dir@ == spec_npm_out_dir(out_dir@, version@, opts)
                &&& p.subs@.len() == targets@.len()
                &&& forall|i: int| 0 <= i < targets@.len() ==> {
                    &&& (#[trigger] p.subs@[i]).pkg_name@ == spec_subpkg_name(
                        targets@[i].platform,
                        targets@[i].arch,
                        opts,
                    )
                    &&& p.subs@[i].dir@ == spec_npm_out_dir(out_dir@, version@, opts) + "/"@
                        + spec_subpkg_name(targets@[i].platform, targets@[i].arch, opts)
                    &&& is_subpkg_manifest(
                        &p.subs@[i].manifest,
                        sub_template,
                        version@,
                        targets@[i].platform,
                        targets@[i].arch,
                        opts,
                    )
                }
                &&& p.root_dir@ == spec_npm_out_dir(out_dir@, version@, opts) + "/"@ + opts.name@
                &&& is_root_manifest(&p.root_manifest, root_template, version@, targets@, opts)
                &&& p.bin_path@ == p.root_dir@ + "/bin/"@ + opts.spec_shim_name()
                &&& p.postinstall_path@ == p.root_dir@ + "/postinstall.js"@
                &&& p.info@.len() == targets@.len()
                &&& forall|i: int| 0 <= i < targets@.len() ==> {
                    &&& (#[trigger] p.info@[i]).platform@ == platform_str(targets@[i].platform)
                    &&& p.info@[i].arch@ == arch_str(targets@[i].arch)
                    &&& p.info@[i].bin@ == spec_info_bin(targets@[i], opts)
                }
                &&& p.publish == opts.publish
            },
            Err(e) => !scripts_editable(root_template) && e is ConfigurationError,
        },
{
    let editable = match root_template.get("scripts") {
        Some(item) => match item {
            JsonItem::Table(_) => true,
            _ => false,
        },
        None => true,
    };
    if !editable {
        return Err(
            Error::ConfigurationError(
                String::from_str("the scripts field of the root manifest template is not a table"),
            ),
        );
    }

    let mut npm_dir = String::from_str(out_dir);
    npm_dir.append("/");
    npm_dir.append(opts.name.as_str());
    npm_dir.append("-");
    npm_dir.append(version);
    npm_dir.append("/npm");
    proof {
        assert(npm_dir@ =~= spec_npm_out_dir(out_dir@, version@, opts));
    }

    let shim = opts.shim_name();
    let n = targets.len();
    let mut subs: Vec<SubPlan> = Vec::new();
    let mut info: Vec<InfoEntry> = Vec::new();
    let mut i: usize = 0;
    while i < n
        invariant
            0 <= i <= n,
            n == targets@.len(),
            sub_template.wf(),
            npm_dir@ == spec_npm_out_dir(out_dir@, version@, opts),
            shim@ == opts.spec_shim_name(),
            subs@.len() == i,
            info@.len() == i,
            forall|j: int| 0 <= j < i ==> {
                &&& (#[trigger] subs@[j]).pkg_name@ == spec_subpkg_name(
                    targets@[j].platform,
                    targets@[j].arch,
                    opts,
                )
                &&& subs@[j].dir@ == spec_npm_out_dir(out_dir@, version@, opts) + "/"@
                    + spec_subpkg_name(targets@[j].platform, targets@[j].arch, opts)
                &&& is_subpkg_manifest(
                    &subs@[j].manifest,
                    sub_template,
                    version@,
                    targets@[j].platform,
                    targets@[j].arch,
                    opts,
                )
            },
            forall|j: int| 0 <= j < i ==> {
                &&& (#[trigger] info@[j]).platform@ == platform_str(targets@[j].platform)
                &&& info@[j].arch@ == arch_str(targets@[j].arch)
                &&& info@[j].bin@ == spec_info_bin(targets@[j], opts)
            },
        decreases n - i,
    {
        let pkg_name = subpkg_name(&targets[i], opts);
        let mut dir = npm_dir.clone();
        dir.append("/");
        dir.append(pkg_name.as_str());
        proof {
            assert(dir@ =~= spec_npm_out_dir(out_dir@, version@, opts) + "/"@ + spec_subpkg_name(
                targets@[i as int].platform,
                targets@[i as int].arch,
                opts,
            ));
        }
        let manifest = edit_subpkg(sub_template, version, &targets[i], opts);
        subs.push(SubPlan { pkg_name, dir, manifest });

        let bin_rel = targets[i].bin_name(shim.as_str());
        let mut bin = subpkg_name(&targets[i], opts);
        bin.append("/");
        bin.append(bin_rel.as_str());
        proof {
            assert(bin@ =~= spec_info_bin(targets@[i as int], opts));
        }
        info.push(
            InfoEntry {
                platform: String::from_str(targets[i].platform.as_str()),
                arch: String::from_str(targets[i].arch.as_str()),
                bin,
            },
        );
        i += 1;
    }

    let root_manifest = edit_rootpkg(root_template, version, targets, opts);
    let mut root_dir = npm_dir.clone();
    root_dir.append("/");
    root_dir.append(opts.name.as_str());
    let mut bin_path = root_dir.clone();
    bin_path.append("/bin/");
    bin_path.append(shim.as_str());
    let mut postinstall_path = root_dir.clone();
    postinstall_path.append("/postinstall.js");
    proof {
        assert(root_dir@ =~= spec_npm_out_dir(out_dir@, version@, opts) + "/"@ + opts.name@);
        assert(bin_path@ =~= root_dir@ + "/bin/"@ + opts.spec_shim_name());
        assert(postinstall_path@ =~= root_dir@ + "/postinstall.js"@);
    }
    Ok(
        NpmPlan {
            out_dir: npm_dir,
            subs,
            root_dir,
            root_manifest,
            bin_path,
            postinstall_path,
            info,
            publish: opts.publish,
        },
    )
}

} // verus!
