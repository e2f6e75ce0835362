//! The remote content client's decisions: API URL construction, request
//! headers with optional bearer authorization, and release-tag parsing. The
//! HTTP calls themselves are driven by the thin binary around the library.

use vstd::prelude::*;
use crate::error::Error;
use crate::manifest::table_view;
use crate::download::spec_user_agent;
use crate::version::{Version, spec_parse};

verus! {

/// The latest-release endpoint of the hosting API for `repo`.
pub open spec fn spec_latest_release_url(repo: Seq<char>) -> Seq<char> {
    "https://api.github.com/repos/"@ + repo + "/releases/latest"@
}

/// The latest-release endpoint of the hosting API for `repo`.
pub fn latest_release_url(repo: &str) -> (r: String)
    ensures
        r@ == spec_latest_release_url(repo@),
{
    let mut out = String::from_str("https://api.github.com/repos/");
    out.append(repo);
    out.append("/releases/latest");
    proof {
        assert(out@ =~= spec_latest_release_url(repo@));
    }
    out
}

/// The contents endpoint of the hosting API for `path` in `repo`.
pub open spec fn spec_contents_url(repo: Seq<char>, path: Seq<char>) -> Seq<char> {
    "https://api.github.com/repos/"@ + repo + "/contents/"@ + path
}

/// The contents endpoint of the hosting API for `path` in `repo`.
pub fn contents_url(repo: &str, path: &str) -> (r: String)
    ensures
        r@ == spec_contents_url(repo@, path@),
{
    let mut out = String::from_str("https://api.github.com/repos/");
    out.append(repo);
    out.append("/contents/");
    out.append(path);
    proof {
        assert(out@ =~= spec_contents_url(repo@, path@));
    }
    out
}

/// A character a header value may hold: visible characters and the tab.
pub open spec fn valid_header_char(c: char) -> bool {
    (c as u32 >= 0x20 && c as u32 != 0x7f) || c == '\t'
}

/// Every character of `s` may stand in a header value.
pub open spec fn valid_header_value(s: Seq<char>) -> bool {
    forall|i: int| 0 <= i < s.len() ==> valid_header_char(#[trigger] s[i])
}

/// Whether every character of `s` may stand in a header value.
fn check_header_value(s: &str) -> (r: bool)
    ensures
        r == valid_header_value(s@),
{
    let n = s.unicode_len();
    let mut i: usize = 0;
    while i < n
        invariant
            0 <= i <= n,
            n == s@.len(),
            forall|j: int| 0 <= j < i ==> valid_header_char(#[trigger] s@[j]),
        decreases n - i,
    {
        let c = s.get_char(i);
        let d = c as u32;
        if !((d >= 0x20 && d != 0x7f) || c == '\t') {
            return false;
        }
        i += 1;
    }
    true
}

/// The hosting-API request headers: the fixed user agent, and a token
/// authorization when a token is supplied. A token whose characters cannot
/// stand in a header value is a `ConfigurationError`.
pub fn api_headers(token: Option<&str>) -> (r: Result<Vec<(String, String)>, Error>)
    ensures
        match r {
            Ok(h) => match token {
                None => table_view(h@) == seq![("user-agent"@, spec_user_agent())],
                Some(t) => valid_header_value("token "@ + t@) && table_view(h@) == seq![
                    ("user-agent"@, spec_user_agent()),
                    ("authorization"@, "token "@ + t@),
                ],
            },
            Err(e) => (token matches Some(t) && !valid_header_value("token "@ + t@)) && e
                is ConfigurationError,
        },
{
    let mut h: Vec<(String, String)> = Vec::new();
    h.push((String::from_str("user-agent"), String::from_str("rust-reqwest/rustwrap")));
    match token {
        None => {
            proof {
                assert(table_view(h@) =~~= seq![("user-agent"@, spec_user_agent())]);
            }
            Ok(h)
        },
        Some(t) => {
            let mut value = String::from_str("token ");
            value.append(t);
            if !check_header_value(value.as_str()) {
                return Err(
                    Error::ConfigurationError(
                        String::from_str("the auth token cannot stand in a request header"),
                    ),
                );
            }
            h.push((String::from_str("authorization"), value));
            proof {
                assert(table_view(h@) =~~= seq![
                    ("user-agent"@, spec_user_agent()),
                    ("authorization"@, "token "@ + t@),
                ]);
            }
            Ok(h)
        },
    }
}

/// `s` with every leading `v` removed.
pub open spec fn strip_v(s: Seq<char>) -> Seq<char>
    decreases s.len(),
{
    if s.len() > 0 && s[0] == 'v' {
        strip_v(s.skip(1))
    } else {
        s
    }
}

/// The version a release tag names: the tag with leading `v` characters
/// removed, parsed as a semantic version; `InvalidVersion` when malformed.
pub fn parse_latest_tag(tag: &str) -> (r: Result<Version, Error>)
    ensures
        match r {
            Ok(v) => spec_parse(strip_v(tag@)) == Some(
                (v.major as int, v.minor as int, v.patch as int, v.pre_view(), v.build_view()),
            ) && v.wf(),
            Err(e) => spec_parse(strip_v(tag@)) is None && e is InvalidVersion,
        },
{
    let n = tag.unicode_len();
    let mut i: usize = 0;
    proof {
        assert(tag@.skip(0) =~= tag@);
    }
    while i < n && tag.get_char(i) == 'v'
        invariant
            0 <= i <= n,
            n == tag@.len(),
            strip_v(tag@) == strip_v(tag@.skip(i as int)),
        decreases n - i,
    {
        proof {
            assert(tag@.skip(i as int)[0] == tag@[i as int]);
            assert(tag@.skip(i as int).skip(1) =~= tag@.skip(i + 1));
        }
        i += 1;
    }
    let rest = tag.substring_char(i, n);
    proof {
        assert(rest@ =~= tag@.skip(i as int));
        if i < n {
            assert(tag@.skip(i as int)[0] == tag@[i as int]);
            assert(strip_v(tag@.skip(i as int)) == tag@.skip(i as int));
        } else {
            assert(tag@.skip(i as int) =~= Seq::<char>::empty());
        }
    }
    Version::parse(rest)
}

} // verus!
