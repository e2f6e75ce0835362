//! The artifact fetcher's decisions: per-target fetch-or-skip planning (the
//! idempotency rule), download request modeling, response status checking,
//! and output filename resolution. The HTTP transfer itself is driven by the
//! thin binary around the library.

use vstd::prelude::*;
use crate::data::{Target, Session, spec_target_url};
use crate::console::Console;
use crate::error::Error;
use crate::manifest::table_view;
use crate::strutil::find_str;
use crate::brew::{find_sub, lemma_find_sub};
use crate::version::{find_idx, lemma_find_idx, find_char};

verus! {

/// A header value is kept under its name; a later setting of the same name
/// wins.
pub open spec fn spec_header_of(h: Seq<(Seq<char>, Seq<char>)>, k: Seq<char>) -> Option<Seq<char>>
    decreases h.len(),
{
    if h.len() == 0 {
        None
    } else if h.last().0 == k {
        Some(h.last().1)
    } else {
        spec_header_of(h.drop_last(), k)
    }
}

/// A modeled download request: the URL, whether to display progress, and the
/// request headers in the order they were set.
#[derive(Debug)]
pub struct Download {
    pub url: String,
    pub show_progress: bool,
    pub headers: Vec<(String, String)>,
}

impl Download {
    /// A request for `url`, without progress display or headers.
    pub fn from_url(url: &str) -> (r: Download)
        ensures
            r.url@ == url@,
            r.show_progress == false,
            r.headers@.len() == 0,
    {
        Download { url: String::from_str(url), show_progress: false, headers: Vec::new() }
    }

    /// Turns progress display on or off.
    pub fn show_progress(&mut self, b: bool)
        ensures
            final(self).url == old(self).url,
            final(self).headers == old(self).headers,
            final(self).show_progress == b,
    {
        self.show_progress = b;
    }

    /// Replaces all headers at once.
    pub fn set_headers(&mut self, headers: Vec<(String, String)>)
        ensures
            final(self).url == old(self).url,
            final(self).show_progress == old(self).show_progress,
            final(self).headers == headers,
    {
        self.headers = headers;
    }

    /// Appends one header setting; it wins over earlier settings of the same
    /// name.
    pub fn set_header(&mut self, name: &str, value: &str)
        ensures
            final(self).url == old(self).url,
            final(self).show_progress == old(self).show_progress,
            table_view(final(self).headers@) == table_view(old(self).headers@).push(
                (name@, value@),
            ),
    {
        let ghost before = self.headers@;
        self.headers.push((String::from_str(name), String::from_str(value)));
        proof {
            assert(table_view(self.headers@) =~~= table_view(before).push((name@, value@)));
        }
    }

    /// Whether some header named `k` has been set.
    pub fn has_header(&self, k: &str) -> (r: bool)
        ensures
            r == (spec_header_of(table_view(self.headers@), k@) is Some),
    {
        let ks = String::from_str(k);
        let n = self.headers.len();
        let mut i: usize = 0;
        while i < n
            invariant
                0 <= i <= n,
                n == self.headers@.len(),
                ks@ == k@,
                forall|j: int| 0 <= j < i ==> (#[trigger] self.headers@[j]).0@ != k@,
            decreases n - i,
    {
            let eq = self.headers[i].0 == ks;
            if eq {
                proof {
                    lemma_header_of_found(table_view(self.headers@), k@, i as int);
                }
                return true;
            }
            i += 1;
        }
        proof {
            lemma_header_of_none(table_view(self.headers@), k@);
        }
        false
    }

    /// The effective progress choice: a download of unknown or zero size
    /// suppresses the progress display.
    pub fn effective_progress(&self, size: u64) -> (r: bool)
        ensures
            r == (size != 0 && self.show_progress),
    {
        if size == 0 {
            false
        } else {
            self.show_progress
        }
    }
}

/// A header list with some entry named `k` names a value for `k`.
proof fn lemma_header_of_found(h: Seq<(Seq<char>, Seq<char>)>, k: Seq<char>, i: int)
    requires
        0 <= i < h.len(),
        h[i].0 == k,
    ensures
        spec_header_of(h, k) is Some,
    decreases h.len(),
{
    if h.last().0 != k {
        assert(i < h.len() - 1);
        assert(h.drop_last()[i] == h[i]);
        lemma_header_of_found(h.drop_last(), k, i);
    }
}

/// A header list with no entry named `k` names no value for `k`.
proof fn lemma_header_of_none(h: Seq<(Seq<char>, Seq<char>)>, k: Seq<char>)
    requires
        forall|j: int| 0 <= j < h.len() ==> (#[trigger] h[j]).0 != k,
    ensures
        spec_header_of(h, k) is None,
    decreases h.len(),
{
    if h.len() > 0 {
        assert(h[h.len() - 1].0 != k);
        assert forall|j: int| 0 <= j < h.drop_last().len() implies (#[trigger] h.drop_last()[j]).0
            != k by {
            assert(h.drop_last()[j] == h[j]);
        }
        lemma_header_of_none(h.drop_last(), k);
    }
}

/// The default user agent sent with artifact downloads and API calls.
pub open spec fn spec_user_agent() -> Seq<char> {
    "rust-reqwest/rustwrap"@
}

impl Download {
    /// Adds the default user-agent header when none has been set.
    pub fn ensure_user_agent(&mut self)
        ensures
            final(self).url == old(self).url,
            final(self).show_progress == old(self).show_progress,
            spec_header_of(table_view(old(self).headers@), "user-agent"@) is Some ==> final(
                self
            ).headers == old(self).headers,
            spec_header_of(table_view(old(self).headers@), "user-agent"@) is None ==> table_view(
                final(self).headers@,
            ) == table_view(old(self).headers@).push(("user-agent"@, spec_user_agent())),
    {
        if !self.has_header("user-agent") {
            self.set_header("user-agent", "rust-reqwest/rustwrap");
        }
    }
}

/// `Ok` exactly for a success status; anything else is `DownloadFailed`
/// carrying the URL and the status.
pub fn check_status(url: &str, status: u16) -> (r: Result<(), Error>)
    ensures
        match r {
            Ok(_) => 200 <= status < 300,
            Err(e) => !(200 <= status < 300) && (e matches Error::DownloadFailed { url: u, status: st }
                && u@ == url@ && st == status),
        },
{
    if 200 <= status && status < 300 {
        Ok(())
    } else {
        Err(Error::DownloadFailed { url: String::from_str(url), status })
    }
}

/// The filename a content-disposition header value names: the run of
/// non-quote characters after the first `filename=`, behind one optional
/// opening quote, up to the next quote or the end of the value.
pub open spec fn spec_filename_of(v: Seq<char>) -> Option<Seq<char>> {
    match find_sub(v, "filename="@) {
        None => None,
        Some(i) => {
            let start = i + "filename="@.len() as int;
            let vstart = if start < v.len() && v[start] == '"' {
                start + 1
            } else {
                start
            };
            match find_idx(v.skip(vstart), '"') {
                Some(j) => Some(v.subrange(vstart, vstart + j)),
                None => Some(v.skip(vstart)),
            }
        },
    }
}

/// Reads the filename out of a content-disposition header value; fails with
/// `RemoteError` when the value does not name one.
pub fn filename_from_content_disposition(value: &str) -> (r: Result<String, Error>)
    ensures
        match r {
            Ok(f) => spec_filename_of(value@) == Some(f@),
            Err(e) => spec_filename_of(value@) is None && e is RemoteError,
        },
{
    proof {
        lemma_find_sub(value@, "filename="@);
        reveal_strlit("filename=");
        assert("filename="@.len() == 9);
    }
    let found = find_str(value, "filename=");
    let i = match found {
        Some(i) => i,
        None => {
            proof {
                if find_sub(value@, "filename="@) is Some {
                    let k = find_sub(value@, "filename="@)->Some_0;
                    assert(crate::strutil::match_at(value@, "filename="@, k));
                }
            }
            return Err(
                Error::RemoteError(
                    String::from_str("no filename field in the content-disposition header"),
                ),
            );
        },
    };
    proof {
        if find_sub(value@, "filename="@) is None {
            assert(crate::strutil::match_at(value@, "filename="@, i as int));
            assert(false);
        }
        let k = find_sub(value@, "filename="@)->Some_0;
        assert(k <= i as int && i as int <= k);
        assert(crate::strutil::match_at(value@, "filename="@, i as int));
    }
    let n = value.unicode_len();
    let start = i + 9;
    let vstart = if start < n && value.get_char(start) == '"' {
        start + 1
    } else {
        start
    };
    let tail = value.substring_char(vstart, n);
    proof {
        assert(tail@ =~= value@.skip(vstart as int));
        lemma_find_idx(tail@, '"');
    }
    match find_char(tail, '"') {
        Some(q) => {
            let f = tail.substring_char(0, q);
            proof {
                assert(f@ =~= value@.subrange(vstart as int, vstart as int + q as int));
            }
            Ok(String::from_str(f))
        },
        None => Ok(String::from_str(tail)),
    }
}

/// The output filename of a download: what the content-disposition header
/// names, or `temp.bin` when the header is absent or names none.
pub fn resolve_filename(content_disposition: Option<&str>) -> (r: String)
    ensures
        match content_disposition {
            Some(v) => match spec_filename_of(v@) {
                Some(f) => r@ == f,
                None => r@ == "temp.bin"@,
            },
            None => r@ == "temp.bin"@,
        },
{
    match content_disposition {
        Some(v) => match filename_from_content_disposition(v) {
            Ok(f) => f,
            Err(_) => String::from_str("temp.bin"),
        },
        None => String::from_str("temp.bin"),
    }
}

/// The fetch stage's decision for one target: reuse what is on disk, or
/// fetch from the resolved URL.
#[derive(Debug)]
pub enum FetchItem {
    /// The target already carries an archive that is present on disk: it is
    /// returned unchanged and no request is made.
    Keep(Target),
    /// The target's artifact must be fetched from `url`.
    Fetch { target: Target, url: String },
}

/// The idempotency rule of the fetcher: a target whose archive is set and
/// present on disk is kept identically, without any network request; any
/// other target is fetched from its version-resolved URL.
pub fn plan_fetch(t: &Target, archive_exists: bool, version: &str) -> (r: FetchItem)
    ensures
        (t.archive is Some && archive_exists) ==> r == FetchItem::Keep(*t),
        !(t.archive is Some && archive_exists) ==> (r matches FetchItem::Fetch { target, url }
            && target == *t && url@ == spec_target_url(t.url_template@, version@)),
{
    let has_archive = t.archive.is_some();
    if has_archive && archive_exists {
        FetchItem::Keep(t.clone())
    } else {
        let url = t.url(version);
        FetchItem::Fetch { target: t.clone(), url }
    }
}

/// A fetched target: the input target now carrying its archive path.
pub fn complete_fetch(t: &Target, archive: String) -> (r: Target)
    ensures
        r.platform == t.platform,
        r.arch == t.arch,
        r.url_template@ == t.url_template@,
        r.bin_name == t.bin_name,
        r.archive == Some(archive),
{
    let mut updated = t.clone();
    updated.archive = Some(archive);
    updated
}

/// Relies on std::path::Path::exists: whether a filesystem entry is at `p`.
/// The result depends on the state of the disk, so nothing is promised.
#[verifier::external_body]
fn path_exists(p: &str) -> bool {
    std::path::Path::new(p).exists()
}

/// The fetch stage over an ordered list of targets.
pub struct TargetsDownloader<'a> {
    pub targets: &'a Vec<Target>,
    pub out_dir: &'a str,
    pub show_progress: bool,
}

impl<'a> TargetsDownloader<'a> {
    /// A fetch stage for `targets`, materializing into `out_dir`, with
    /// progress display on.
    pub fn new(targets: &'a Vec<Target>, out_dir: &'a str) -> (r: TargetsDownloader<'a>)
        ensures
            r.targets == targets,
            r.out_dir@ == out_dir@,
            r.show_progress == true,
    {
        TargetsDownloader { targets, out_dir, show_progress: true }
    }

    /// Decides, for each target in input order, whether its artifact is
    /// reused from disk or fetched; a target without an archive path is
    /// always fetched.
    pub fn download<C: Console>(&self, session: &mut Session<'_, C>, version: &str) -> (r: Vec<
        FetchItem,
    >)
        ensures
            r@.len() == self.targets@.len(),
            forall|i: int|
                #![trigger r@[i]]
                0 <= i < r@.len() ==> {
                    &&& (r@[i] matches FetchItem::Keep(kept) ==> kept == self.targets@[i]
                        && self.targets@[i].archive is Some)
                    &&& (r@[i] matches FetchItem::Fetch { target, url } ==> target
                        == self.targets@[i] && url@ == spec_target_url(
                        self.targets@[i].url_template@,
                        version@,
                    ))
                },
    {
        session.console.say("downloading target releases");
        let n = self.targets.len();
        let mut out: Vec<FetchItem> = Vec::new();
        let mut i: usize = 0;
        while i < n
            invariant
                0 <= i <= n,
                n == self.targets@.len(),
                out@.len() == i,
                forall|j: int|
                    #![trigger out@[j]]
                    0 <= j < i ==> {
                        &&& (out@[j] matches FetchItem::Keep(kept) ==> kept == self.targets@[j]
                            && self.targets@[j].archive is Some)
                        &&& (out@[j] matches FetchItem::Fetch { target, url } ==> target
                            == self.targets@[j] && url@ == spec_target_url(
                            self.targets@[j].url_template@,
                            version@,
                        ))
                    },
            decreases n - i,
        {
            let exists = match &self.targets[i].archive {
                Some(a) => {
                    let mut p = String::from_str(self.out_dir);
                    p.append("/");
                    p.append(a.as_str());
                    path_exists(p.as_str())
                },
                None => false,
            };
            out.push(plan_fetch(&self.targets[i], exists, version));
            i += 1;
        }
        out
    }
}

} // verus!
