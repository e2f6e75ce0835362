//! The Homebrew-style publisher: validates the recipe template, selects the
//! single Intel macOS target, renders the recipe by substituting version, URL
//! and digest, and reads fields back out of rendered recipes. Filesystem and
//! network work is left to the thin binary around the library.

use vstd::prelude::*;
use crate::data::{Target, Platform, Architecture, spec_target_url};
use crate::error::Error;
use crate::strutil::{contains_seq, contains_str, match_at, first_match_at, replace_seq,
    replace_all, find_str, lemma_replace_single};
use crate::version::{Version, find_idx, lemma_find_idx, spec_parse, find_char};
use crate::codec::{sha256_hex, sha256_hex_of, b64_encode, b64_of, b64_decode, b64_decode_of,
    utf8_string, utf8_of};
use vstd::string::StringSliceAdditionalSpecFns;

verus! {

/// The Homebrew provider options: formula name, target tap repository,
/// optional recipe filename, the recipe template, and the publish flag.
#[derive(Debug)]
pub struct BrewOpts {
    pub name: String,
    pub tap: String,
    pub recipe_fname: Option<String>,
    pub recipe_template: String,
    pub publish: bool,
}

/// The URL placeholder a recipe template must contain.
pub open spec fn url_var() -> Seq<char> {
    "__URL__"@
}

/// The digest placeholder a recipe template must contain.
pub open spec fn sha_var() -> Seq<char> {
    "__SHA__"@
}

/// The version placeholder a recipe template must contain.
pub open spec fn version_var() -> Seq<char> {
    "__VERSION__"@
}

/// A rendered recipe: the template with the version substituted first, then
/// the URL, then the digest.
pub open spec fn spec_recipe(template: Seq<char>, version: Seq<char>, url: Seq<char>, sha: Seq<
    char,
>) -> Seq<char> {
    replace_seq(replace_seq(replace_seq(template, version_var(), version), url_var(), url), sha_var(), sha)
}

/// The message validation reports: the first missing placeholder, checked in
/// the order URL, digest, version.
pub open spec fn spec_validate_msg(template: Seq<char>) -> Seq<char> {
    if !contains_seq(template, url_var()) {
        "missing URL variable"@
    } else if !contains_seq(template, sha_var()) {
        "missing SHA variable"@
    } else {
        "missing VERSION variable"@
    }
}

impl BrewOpts {
    /// The template holds all three required placeholders.
    pub open spec fn spec_valid(&self) -> bool {
        contains_seq(self.recipe_template@, url_var()) && contains_seq(
            self.recipe_template@,
            sha_var(),
        ) && contains_seq(self.recipe_template@, version_var())
    }

    /// Checks that the recipe template holds the URL, digest and version
    /// placeholders; fails naming the first missing one.
    pub fn validate(&self) -> (r: Result<(), Error>)
        ensures
            match r {
                Ok(_) => self.spec_valid(),
                Err(e) => !self.spec_valid() && (e matches Error::ConfigurationError(m) && m@
                    == spec_validate_msg(self.recipe_template@)),
            },
    {
        let t = self.recipe_template.as_str();
        if !contains_str(t, "__URL__") {
            return Err(Error::ConfigurationError(String::from_str("missing URL variable")));
        }
        if !contains_str(t, "__SHA__") {
            return Err(Error::ConfigurationError(String::from_str("missing SHA variable")));
        }
        if !contains_str(t, "__VERSION__") {
            return Err(Error::ConfigurationError(String::from_str("missing VERSION variable")));
        }
        Ok(())
    }

    /// The rendered recipe for `version`, `url` and `sha`.
    pub fn recipe(&self, version: &str, url: &str, sha: &str) -> (r: String)
        ensures
            r@ == spec_recipe(self.recipe_template@, version@, url@, sha@),
    {
        proof {
            reveal_strlit("__VERSION__");
            reveal_strlit("__URL__");
            reveal_strlit("__SHA__");
        }
        let step1 = replace_all(self.recipe_template.as_str(), "__VERSION__", version);
        let step2 = replace_all(step1.as_str(), "__URL__", url);
        replace_all(step2.as_str(), "__SHA__", sha)
    }

    /// The recipe's filename: the configured one, or `<name>.rb`.
    pub open spec fn spec_recipe_file(&self) -> Seq<char> {
        match self.recipe_fname {
            Some(f) => f@,
            None => self.name@ + ".rb"@,
        }
    }

    /// The recipe's filename: the configured one, or `<name>.rb`.
    pub fn recipe_file(&self) -> (r: String)
        ensures
            r@ == self.spec_recipe_file(),
    {
        match &self.recipe_fname {
            Some(f) => f.clone(),
            None => self.name.clone().concat(".rb"),
        }
    }
}

/// The single target shape this provider packages: Intel macOS.
pub open spec fn is_brew_target(t: Target) -> bool {
    t.arch is X64 && t.platform is Darwin
}

/// The first target with `{arch = x64, platform = darwin}`; `NoMatchingTarget`
/// exactly when none qualifies.
pub fn select_target(targets: &Vec<Target>) -> (r: Result<usize, Error>)
    ensures
        match r {
            Ok(i) => i < targets@.len() && is_brew_target(targets@[i as int]) && forall|j: int|
                0 <= j < i ==> !is_brew_target(#[trigger] targets@[j]),
            Err(e) => e is NoMatchingTarget && forall|j: int|
                0 <= j < targets@.len() ==> !is_brew_target(#[trigger] targets@[j]),
        },
{
    let n = targets.len();
    let mut i: usize = 0;
    while i < n
        invariant
            0 <= i <= n,
            n == targets@.len(),
            forall|j: int| 0 <= j < i ==> !is_brew_target(#[trigger] targets@[j]),
        decreases n - i,
    {
        let is_x64 = match targets[i].arch {
            Architecture::X64 => true,
            _ => false,
        };
        let is_darwin = match targets[i].platform {
            Platform::Darwin => true,
            _ => false,
        };
        if is_x64 && is_darwin {
            return Ok(i);
        }
        i += 1;
    }
    Err(Error::NoMatchingTarget)
}

/// The first occurrence of `pat` in `s`, as a spec-level index.
pub open spec fn find_sub(s: Seq<char>, pat: Seq<char>) -> Option<int>
    decreases s.len(),
{
    if pat.len() > s.len() {
        None
    } else if s.subrange(0, pat.len() as int) == pat {
        Some(0)
    } else if s.len() == pat.len() {
        None
    } else {
        match find_sub(s.skip(1), pat) {
            Some(i) => Some(i + 1),
            None => None,
        }
    }
}

/// `find_sub` returns the first match, and nothing only when none exists.
pub proof fn lemma_find_sub(s: Seq<char>, pat: Seq<char>)
    ensures
        match find_sub(s, pat) {
            Some(i) => first_match_at(s, pat, i),
            None => !contains_seq(s, pat),
        },
    decreases s.len(),
{
    if pat.len() > s.len() {
        assert forall|j: int| !match_at(s, pat, j) by {
            if 0 <= j {
                assert(j + pat.len() > s.len());
            }
        }
    } else if s.subrange(0, pat.len() as int) == pat {
        assert(match_at(s, pat, 0));
    } else {
        assert(!match_at(s, pat, 0));
        if s.len() == pat.len() {
            assert forall|j: int| !match_at(s, pat, j) by {
                if j > 0 {
                    assert(j + pat.len() > s.len());
                }
            }
        } else {
            lemma_find_sub(s.skip(1), pat);
            assert forall|j: int|
                1 <= j && match_at(s, pat, j) implies match_at(s.skip(1), pat, j - 1) by {
                assert(s.skip(1).subrange(j - 1, j - 1 + pat.len() as int) =~= s.subrange(
                    j,
                    j + pat.len() as int,
                ));
            }
            assert forall|j: int|
                0 <= j && match_at(s.skip(1), pat, j) implies match_at(s, pat, j + 1) by {
                assert(s.subrange(j + 1, j + 1 + pat.len() as int) =~= s.skip(1).subrange(
                    j,
                    j + pat.len() as int,
                ));
            }
            match find_sub(s.skip(1), pat) {
                Some(i) => {
                    assert(match_at(s, pat, i + 1));
                },
                None => {
                    assert forall|j: int| !match_at(s, pat, j) by {
                        if j >= 1 {
                            assert(!match_at(s.skip(1), pat, j - 1));
                        }
                    }
                },
            }
        }
    }
}

/// The field value between the first occurrence of `marker` and the next
/// double quote; nothing when either is absent.
pub open spec fn spec_extract_quoted(s: Seq<char>, marker: Seq<char>) -> Option<Seq<char>> {
    match find_sub(s, marker) {
        None => None,
        Some(i) => {
            let start = i + marker.len() as int;
            match find_idx(s.skip(start), '"') {
                None => None,
                Some(j) => Some(s.subrange(start, start + j)),
            }
        },
    }
}

/// Reads the text between the first occurrence of `marker` and the next `"`.
pub fn extract_quoted(s: &str, marker: &str) -> (r: Option<String>)
    ensures
        match r {
            Some(v) => spec_extract_quoted(s@, marker@) == Some(v@),
            None => spec_extract_quoted(s@, marker@) is None,
        },
{
    proof {
        lemma_find_sub(s@, marker@);
    }
    let found = find_str(s, marker);
    let i = match found {
        Some(i) => i,
        None => {
            proof {
                if find_sub(s@, marker@) is Some {
                    let k = find_sub(s@, marker@)->Some_0;
                    assert(match_at(s@, marker@, k));
                }
            }
            return None;
        },
    };
    proof {
        if find_sub(s@, marker@) is None {
            assert(match_at(s@, marker@, i as int));
            assert(false);
        }
        let k = find_sub(s@, marker@)->Some_0;
        assert(k <= i as int && i as int <= k);
    }
    let n = s.unicode_len();
    let m = marker.unicode_len();
    proof {
        assert(match_at(s@, marker@, i as int));
    }
    let start = i + m;
    let tail = s.substring_char(start, n);
    proof {
        assert(tail@ =~= s@.skip(start as int));
        lemma_find_idx(tail@, '"');
    }
    match find_char(tail, '"') {
        Some(q) => {
            let v = tail.substring_char(0, q);
            proof {
                lemma_find_idx(tail@, '"');
                assert(v@ =~= s@.subrange(start as int, start as int + q as int));
            }
            Some(String::from_str(v))
        },
        None => None,
    }
}

/// The version a recipe declares: the text after `version "` up to the next
/// quote, parsed as a semantic version. `RemoteError` when the field is
/// absent; `InvalidVersion` when it does not parse.
pub fn recipe_version(content: &str) -> (r: Result<Version, Error>)
    ensures
        match r {
            Ok(v) => (spec_extract_quoted(content@, "version \""@) matches Some(f) && spec_parse(f)
                == Some(
                (v.major as int, v.minor as int, v.patch as int, v.pre_view(), v.build_view()),
            )) && v.wf(),
            Err(e) => match spec_extract_quoted(content@, "version \""@) {
                Some(f) => spec_parse(f) is None && e is InvalidVersion,
                None => e is RemoteError,
            },
        },
{
    match extract_quoted(content, "version \"") {
        Some(f) => Version::parse(f.as_str()),
        None => Err(
            Error::RemoteError(String::from_str("cannot find a version field in the recipe")),
        ),
    }
}

/// `s` with every newline removed, as the contents API wraps its base64
/// payload in lines.
pub open spec fn spec_remove_newlines(s: Seq<char>) -> Seq<char>
    decreases s.len(),
{
    if s.len() == 0 {
        s
    } else {
        spec_remove_newlines(s.drop_last()) + (if s.last() == '\n' {
            Seq::<char>::empty()
        } else {
            seq![s.last()]
        })
    }
}

/// `s` with every newline removed.
fn remove_newlines(s: &str) -> (r: String)
    ensures
        r@ == spec_remove_newlines(s@),
{
    let n = s.unicode_len();
    let mut out = String::new();
    let mut i: usize = 0;
    proof {
        assert(s@.take(0) =~= Seq::<char>::empty());
    }
    while i < n
        invariant
            0 <= i <= n,
            n == s@.len(),
            out@ == spec_remove_newlines(s@.take(i as int)),
        decreases n - i,
    {
        let c = s.get_char(i);
        proof {
            assert(s@.take(i + 1).drop_last() =~= s@.take(i as int));
            assert(s@.take(i + 1).last() == s@[i as int]);
        }
        if c != '\n' {
            let piece = s.substring_char(i, i + 1);
            out.append(piece);
            proof {
                assert(piece@ =~= seq![s@[i as int]]);
                assert(out@ =~= spec_remove_newlines(s@.take(i + 1)));
            }
        } else {
            proof {
                assert(out@ + Seq::<char>::empty() =~= out@);
            }
        }
        i += 1;
    }
    proof {
        assert(s@.take(n as int) =~= s@);
    }
    out
}

/// The version the published recipe declares, read from the contents API's
/// base64 payload: newlines are removed, the payload decoded, read as UTF-8,
/// and the recipe's version field parsed. `RemoteError` when any step finds
/// no content; `InvalidVersion` when the field does not parse.
pub fn latest_recipe_version(content_b64: &str) -> (r: Result<Version, Error>)
    ensures
        match b64_decode_of(spec_remove_newlines(content_b64@)) {
            None => (r matches Err(e) && e is RemoteError),
            Some(bytes) => match utf8_of(bytes) {
                None => (r matches Err(e) && e is RemoteError),
                Some(text) => match r {
                    Ok(v) => (spec_extract_quoted(text, "version \""@) matches Some(f)
                        && spec_parse(f) == Some(
                        (
                            v.major as int,
                            v.minor as int,
                            v.patch as int,
                            v.pre_view(),
                            v.build_view(),
                        ),
                    )) && v.wf(),
                    Err(e) => match spec_extract_quoted(text, "version \""@) {
                        Some(f) => spec_parse(f) is None && e is InvalidVersion,
                        None => e is RemoteError,
                    },
                },
            },
        },
{
    let cleaned = remove_newlines(content_b64);
    match b64_decode(cleaned.as_str()) {
        None => Err(Error::RemoteError(String::from_str("recipe content is not valid base64"))),
        Some(bytes) => match utf8_string(bytes) {
            None => Err(Error::RemoteError(String::from_str("recipe content is not valid text"))),
            Some(text) => recipe_version(text.as_str()),
        },
    }
}

/// What one upsert of the rendered recipe sends: the commit message, the
/// base64 content, and the prior content hash when updating.
#[derive(Debug)]
pub struct PutBody {
    pub message: String,
    pub content: String,
    pub sha: Option<String>,
}

/// The upsert request body for `recipe` at `fname`: a fixed-format commit
/// message, the recipe's bytes in base64, and the optimistic-concurrency
/// token when one is known.
pub fn put_body(fname: &str, recipe: &str, prior_sha: Option<String>) -> (r: PutBody)
    ensures
        r.message@ == "rustwrap update: "@ + fname@,
        r.content@ == b64_of(recipe.spec_bytes()),
        r.sha == prior_sha,
{
    let mut message = String::from_str("rustwrap update: ");
    message.append(fname);
    let content = b64_encode(recipe.as_bytes());
    PutBody { message, content, sha: prior_sha }
}

/// Everything the Homebrew publish stage decides: where the rendered recipe
/// is saved, the recipe text itself, the path it holds in the tap, and
/// whether to publish.
#[derive(Debug)]
pub struct BrewPlan {
    pub dir: String,
    pub file: String,
    pub remote_path: String,
    pub recipe: String,
    pub publish: bool,
}

/// The Homebrew output directory: `<out>/<name>-<version>/brew`.
pub open spec fn spec_brew_dir(out: Seq<char>, version: Seq<char>, opts: &BrewOpts) -> Seq<char> {
    out + "/"@ + opts.name@ + "-"@ + version + "/brew"@
}

/// Computes the Homebrew publish plan: validates the template, selects the
/// first Intel macOS target, digests its fetched archive, and renders the
/// recipe with the version, the target's resolved URL and the digest.
/// Fails with the validation error when a placeholder is missing, with
/// `NoMatchingTarget` when no target qualifies, and with `ConfigurationError`
/// when the selected target has no fetched archive to digest.
pub fn plan(out_dir: &str, version: &str, targets: &Vec<Target>, opts: &BrewOpts,
    archive_data: &[u8]) -> (r: Result<BrewPlan, Error>)
    ensures
        match r {
            Ok(p) => {
                &&& opts.spec_valid()
                &&& exists|i: int|
                    #![trigger targets@[i]]
                    {
                        &&& 0 <= i < targets@.len()
                        &&& is_brew_target(targets@[i])
                        &&& (forall|j: int| 0 <= j < i ==> !is_brew_target(#[trigger] targets@[j]))
                        &&& targets@[i].archive is Some
                        &&& p.recipe@ == spec_recipe(
                            opts.recipe_template@,
                            version@,
                            spec_target_url(targets@[i].url_template@, version@),
                            sha256_hex_of(archive_data@),
                        )
                    }
                &&& p.dir@ == spec_brew_dir(out_dir@, version@, opts)
                &&& p.file@ == spec_brew_dir(out_dir@, version@, opts) + "/"@
                    + opts.spec_recipe_file()
                &&& p.remote_path@ == opts.spec_recipe_file()
                &&& p.publish == opts.publish
            },
            Err(e) => {
                ||| (!opts.spec_valid() && (e matches Error::ConfigurationError(m) && m@
                    == spec_validate_msg(opts.recipe_template@)))
                ||| ((forall|j: int|
                    0 <= j < targets@.len() ==> !is_brew_target(#[trigger] targets@[j])) && e
                    is NoMatchingTarget)
                ||| ((exists|i: int|
                    #![trigger targets@[i]]
                    0 <= i < targets@.len() && is_brew_target(targets@[i])
                        && targets@[i].archive is None) && e is ConfigurationError)
            },
        },
{
    match opts.validate() {
        Ok(_) => (),
        Err(e) => {
            return Err(e);
        },
    }
    let idx = match select_target(targets) {
        Ok(i) => i,
        Err(e) => {
            return Err(e);
        },
    };
    let has_archive = targets[idx].archive.is_some();
    if !has_archive {
        return Err(
            Error::ConfigurationError(
                String::from_str("the selected target carries no fetched archive"),
            ),
        );
    }
    let sha = sha256_hex(archive_data);
    let url = targets[idx].url(version);
    let recipe = opts.recipe(version, url.as_str(), sha.as_str());
    let mut dir = String::from_str(out_dir);
    dir.append("/");
    dir.append(opts.name.as_str());
    dir.append("-");
    dir.append(version);
    dir.append("/brew");
    let remote_path = opts.recipe_file();
    let mut file = dir.clone();
    file.append("/");
    file.append(remote_path.as_str());
    proof {
        assert(dir@ =~= spec_brew_dir(out_dir@, version@, opts));
        assert(file@ =~= spec_brew_dir(out_dir@, version@, opts) + "/"@ + opts.spec_recipe_file());
    }
    Ok(BrewPlan { dir, file, remote_path, recipe, publish: opts.publish })
}

/// The three fields a rendered recipe embeds, read back out: the URL, the
/// digest, and the version, each between its marker and the next quote.
pub fn parse_recipe(s: &str) -> (r: Option<(String, String, String)>)
    ensures
        match r {
            Some(t) => spec_extract_quoted(s@, "url \""@) == Some(t.0@) && spec_extract_quoted(
                s@,
                "sha256 \""@,
            ) == Some(t.1@) && spec_extract_quoted(s@, "version \""@) == Some(t.2@),
            None => spec_extract_quoted(s@, "url \""@) is None || spec_extract_quoted(
                s@,
                "sha256 \""@,
            ) is None || spec_extract_quoted(s@, "version \""@) is None,
        },
{
    let url = match extract_quoted(s, "url \"") {
        Some(u) => u,
        None => {
            return None;
        },
    };
    let sha = match extract_quoted(s, "sha256 \"") {
        Some(u) => u,
        None => {
            return None;
        },
    };
    let ver = match extract_quoted(s, "version \"") {
        Some(u) => u,
        None => {
            return None;
        },
    };
    Some((url, sha, ver))
}

/// Law (reading an embedded field): in a string that embeds `v` between the
/// first occurrence of `marker` and a closing quote, extraction returns `v`
/// exactly, provided `v` itself holds no quote.
pub proof fn lemma_extract_quoted_at(s: Seq<char>, marker: Seq<char>, a: Seq<char>, v: Seq<char>,
    b: Seq<char>)
    requires
        s == a + marker + v + seq!['"'] + b,
        first_match_at(s, marker, a.len() as int),
        forall|i: int| 0 <= i < v.len() ==> v[i] != '"',
    ensures
        spec_extract_quoted(s, marker) == Some(v),
{
    lemma_find_sub(s, marker);
    if find_sub(s, marker) is None {
        assert(false);
    }
    let k = find_sub(s, marker)->Some_0;
    assert(first_match_at(s, marker, k));
    assert(k <= a.len() && a.len() <= k);
    let start = k + marker.len() as int;
    let tail = s.skip(start);
    assert(tail =~= v + seq!['"'] + b);
    lemma_find_idx(tail, '"');
    assert(tail[v.len() as int] == '"');
    if find_idx(tail, '"') is None {
        assert(false);
    }
    let j = find_idx(tail, '"')->Some_0;
    assert(j <= v.len()) by {
        if j > v.len() {
            assert(tail[v.len() as int] == '"');
        }
    }
    assert(j >= v.len()) by {
        if j < v.len() {
            assert(tail[j] == v[j]);
        }
    }
    assert(s.subrange(start, start + j) =~= v);
}

/// Law (recipe round trip): rendering a template that embeds each of the
/// three placeholders exactly once, each between its marker and a closing
/// quote, and then reading the fields back out of the rendered recipe,
/// returns exactly the substituted version, URL and digest. The substituted
/// values must hold no quote, and no placeholder or marker may occur outside
/// its intended position, which the occurrence premises pin down.
/// Splitting a concatenation back at its seam.
proof fn lemma_concat_take(x: Seq<char>, y: Seq<char>)
    ensures
        (x + y).take(x.len() as int) == x,
        (x + y).skip(x.len() as int) == y,
{
    assert((x + y).take(x.len() as int) =~= x);
    assert((x + y).skip(x.len() as int) =~= y);
}

/// One substitution step: replacing the single occurrence of `var` between
/// `pre` and `suf` splices in `v`.
proof fn lemma_splice_step(s: Seq<char>, pre: Seq<char>, var: Seq<char>, suf: Seq<char>, v: Seq<
    char,
>)
    requires
        var.len() > 0,
        s == pre + var + suf,
        first_match_at(s, var, pre.len() as int),
        !contains_seq(suf, var),
    ensures
        replace_seq(s, var, v) == pre + v + suf,
{
    assert(s =~= pre + (var + suf));
    lemma_concat_take(pre, var + suf);
    assert(s =~= (pre + var) + suf);
    lemma_concat_take(pre + var, suf);
    assert(s.take(pre.len() as int) == pre);
    assert(s.skip(pre.len() + var.len() as int) == suf);
    lemma_replace_single(s, var, v, pre.len() as int);
}

#[verifier::rlimit(100)]
pub proof fn lemma_recipe_round_trip(t: Seq<char>, r1: Seq<char>, r2: Seq<char>, r3: Seq<char>,
    a1: Seq<char>, a2: Seq<char>, a3: Seq<char>, a4: Seq<char>, ver: Seq<char>, url: Seq<char>,
    sha: Seq<char>)
    requires
        t == a1 + "url \""@ + url_var() + seq!['"'] + a2 + "sha256 \""@ + sha_var() + seq!['"']
            + a3 + "version \""@ + version_var() + seq!['"'] + a4,
        r1 == a1 + "url \""@ + url_var() + seq!['"'] + a2 + "sha256 \""@ + sha_var() + seq!['"']
            + a3 + "version \""@ + ver + seq!['"'] + a4,
        r2 == a1 + "url \""@ + url + seq!['"'] + a2 + "sha256 \""@ + sha_var() + seq!['"'] + a3
            + "version \""@ + ver + seq!['"'] + a4,
        r3 == a1 + "url \""@ + url + seq!['"'] + a2 + "sha256 \""@ + sha + seq!['"'] + a3
            + "version \""@ + ver + seq!['"'] + a4,
        first_match_at(
            t,
            version_var(),
            (a1 + "url \""@ + url_var() + seq!['"'] + a2 + "sha256 \""@ + sha_var() + seq!['"']
                + a3 + "version \""@).len() as int,
        ),
        !contains_seq(seq!['"'] + a4, version_var()),
        first_match_at(r1, url_var(), (a1 + "url \""@).len() as int),
        !contains_seq(
            seq!['"'] + a2 + "sha256 \""@ + sha_var() + seq!['"'] + a3 + "version \""@ + ver
                + seq!['"'] + a4,
            url_var(),
        ),
        first_match_at(
            r2,
            sha_var(),
            (a1 + "url \""@ + url + seq!['"'] + a2 + "sha256 \""@).len() as int,
        ),
        !contains_seq(seq!['"'] + a3 + "version \""@ + ver + seq!['"'] + a4, sha_var()),
        first_match_at(r3, "url \""@, a1.len() as int),
        first_match_at(
            r3,
            "sha256 \""@,
            (a1 + "url \""@ + url + seq!['"'] + a2).len() as int,
        ),
        first_match_at(
            r3,
            "version \""@,
            (a1 + "url \""@ + url + seq!['"'] + a2 + "sha256 \""@ + sha + seq!['"']
                + a3).len() as int,
        ),
        forall|i: int| 0 <= i < ver.len() ==> ver[i] != '"',
        forall|i: int| 0 <= i < url.len() ==> url[i] != '"',
        forall|i: int| 0 <= i < sha.len() ==> sha[i] != '"',
    ensures
        spec_recipe(t, ver, url, sha) == r3,
        spec_extract_quoted(r3, "url \""@) == Some(url),
        spec_extract_quoted(r3, "sha256 \""@) == Some(sha),
        spec_extract_quoted(r3, "version \""@) == Some(ver),
{
    reveal_strlit("__URL__");
    reveal_strlit("__SHA__");
    reveal_strlit("__VERSION__");
    let q = seq!['"'];
    let um = "url \""@;
    let sm = "sha256 \""@;
    let vm = "version \""@;

    let pre_v = a1 + um + url_var() + q + a2 + sm + sha_var() + q + a3 + vm;
    assert(t =~= pre_v + version_var() + (q + a4));
    lemma_splice_step(t, pre_v, version_var(), q + a4, ver);
    assert(replace_seq(t, version_var(), ver) =~= r1);

    let pre_u = a1 + um;
    let suf_u = q + a2 + sm + sha_var() + q + a3 + vm + ver + q + a4;
    assert(r1 =~= pre_u + url_var() + suf_u);
    lemma_splice_step(r1, pre_u, url_var(), suf_u, url);
    assert(replace_seq(r1, url_var(), url) =~= r2);

    let pre_s = a1 + um + url + q + a2 + sm;
    let suf_s = q + a3 + vm + ver + q + a4;
    assert(r2 =~= pre_s + sha_var() + suf_s);
    lemma_splice_step(r2, pre_s, sha_var(), suf_s, sha);
    assert(replace_seq(r2, sha_var(), sha) =~= r3);

    assert(spec_recipe(t, ver, url, sha) == r3);

    assert(r3 =~= a1 + um + url + q + (a2 + sm + sha + q + a3 + vm + ver + q + a4));
    lemma_extract_quoted_at(r3, um, a1, url, a2 + sm + sha + q + a3 + vm + ver + q + a4);
    assert(r3 =~= (a1 + um + url + q + a2) + sm + sha + q + (a3 + vm + ver + q + a4));
    lemma_extract_quoted_at(r3, sm, a1 + um + url + q + a2, sha, a3 + vm + ver + q + a4);
    assert(r3 =~= (a1 + um + url + q + a2 + sm + sha + q + a3) + vm + ver + q + a4);
    lemma_extract_quoted_at(r3, vm, a1 + um + url + q + a2 + sm + sha + q + a3, ver, a4);
}

} // verus!
