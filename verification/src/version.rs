//! Semantic versions: the grammar `MAJOR.MINOR.PATCH[-PRE][+BUILD]`, their
//! precedence order, and their canonical rendering. The parser is specified by
//! [`spec_parse`], a functional description of the grammar; numeric components
//! and numeric pre-release identifiers are limited to the `u64` range.

use vstd::prelude::*;
use crate::strutil::{all_digits, dec_val, dec_str, is_digit_char, parse_u64_range, u64_to_string};
use crate::error::Error;

verus! {

/// A character allowed in a pre-release or build identifier.
pub open spec fn is_ident_char(c: char) -> bool {
    is_digit_char(c) || ('a' <= c && c <= 'z') || ('A' <= c && c <= 'Z') || c == '-'
}

/// A non-empty run of identifier characters.
pub open spec fn valid_build_ident(s: Seq<char>) -> bool {
    s.len() > 0 && forall|i: int| 0 <= i < s.len() ==> is_ident_char(#[trigger] s[i])
}

/// A non-empty digit run without a superfluous leading zero, denoting a
/// value in the `u64` range.
pub open spec fn valid_num_str(s: Seq<char>) -> bool {
    all_digits(s) && s.len() > 0 && (s.len() == 1 || s[0] != '0') && dec_val(s) <= u64::MAX
}

/// A pre-release identifier: as a build identifier, but an all-digit one must
/// be a canonical number.
pub open spec fn valid_pre_ident(s: Seq<char>) -> bool {
    valid_build_ident(s) && (all_digits(s) ==> valid_num_str(s))
}

/// Index of the first occurrence of `c` in `s`.
pub open spec fn find_idx(s: Seq<char>, c: char) -> Option<int>
    decreases s.len(),
{
    if s.len() == 0 {
        None
    } else if s[0] == c {
        Some(0)
    } else {
        match find_idx(s.skip(1), c) {
            Some(i) => Some(i + 1),
            None => None,
        }
    }
}

pub proof fn lemma_find_idx(s: Seq<char>, c: char)
    ensures
        match find_idx(s, c) {
            Some(i) => 0 <= i < s.len() && s[i] == c && forall|j: int| 0 <= j < i ==> s[j] != c,
            None => forall|j: int| 0 <= j < s.len() ==> s[j] != c,
        },
    decreases s.len(),
{
    if s.len() > 0 && s[0] != c {
        lemma_find_idx(s.skip(1), c);
        match find_idx(s.skip(1), c) {
            Some(i) => {
                assert(s.skip(1)[i] == s[i + 1]);
                assert forall|j: int| 0 <= j < i + 1 implies s[j] != c by {
                    if j > 0 {
                        assert(s.skip(1)[j - 1] == s[j]);
                    }
                }
            },
            None => {
                assert forall|j: int| 0 <= j < s.len() implies s[j] != c by {
                    if j > 0 {
                        assert(s.skip(1)[j - 1] == s[j]);
                    }
                }
            },
        }
    }
}

/// `s` split at every occurrence of `c`; always at least one part.
pub open spec fn split_char(s: Seq<char>, c: char) -> Seq<Seq<char>>
    decreases s.len(),
{
    if s.len() == 0 {
        seq![s]
    } else {
        let rest = split_char(s.skip(1), c);
        if s[0] == c {
            seq![Seq::<char>::empty()] + rest
        } else {
            seq![seq![s[0]] + rest[0]] + rest.skip(1)
        }
    }
}

pub proof fn lemma_split_char_len(s: Seq<char>, c: char)
    ensures
        split_char(s, c).len() >= 1,
    decreases s.len(),
{
    if s.len() > 0 {
        lemma_split_char_len(s.skip(1), c);
    }
}

/// Every part is a valid pre-release identifier.
pub open spec fn all_valid_pre(pre: Seq<Seq<char>>) -> bool {
    forall|i: int| 0 <= i < pre.len() ==> valid_pre_ident(#[trigger] pre[i])
}

/// Every part is a valid build identifier.
pub open spec fn all_valid_build(build: Seq<Seq<char>>) -> bool {
    forall|i: int| 0 <= i < build.len() ==> valid_build_ident(#[trigger] build[i])
}

/// The text before the first `+`, holding the version core and pre-release.
pub open spec fn spec_rest(s: Seq<char>) -> Seq<char> {
    match find_idx(s, '+') {
        Some(i) => s.take(i),
        None => s,
    }
}

/// The text after the first `+`: the build metadata, when present.
pub open spec fn spec_build_str(s: Seq<char>) -> Option<Seq<char>> {
    match find_idx(s, '+') {
        Some(i) => Some(s.skip(i + 1)),
        None => None,
    }
}

/// The version core: the text before the first `-` of the rest.
pub open spec fn spec_core(s: Seq<char>) -> Seq<char> {
    match find_idx(spec_rest(s), '-') {
        Some(i) => spec_rest(s).take(i),
        None => spec_rest(s),
    }
}

/// The pre-release text: what follows the first `-` of the rest, when present.
pub open spec fn spec_pre_str(s: Seq<char>) -> Option<Seq<char>> {
    match find_idx(spec_rest(s), '-') {
        Some(i) => Some(spec_rest(s).skip(i + 1)),
        None => None,
    }
}

/// The dot-separated parts of the version core.
pub open spec fn spec_nums(s: Seq<char>) -> Seq<Seq<char>> {
    split_char(spec_core(s), '.')
}

/// The pre-release identifiers, split at dots; empty when there is no `-`.
pub open spec fn spec_pre_ids(s: Seq<char>) -> Seq<Seq<char>> {
    match spec_pre_str(s) {
        Some(p) => split_char(p, '.'),
        None => Seq::<Seq<char>>::empty(),
    }
}

/// The build identifiers, split at dots; empty when there is no `+`.
pub open spec fn spec_build_ids(s: Seq<char>) -> Seq<Seq<char>> {
    match spec_build_str(s) {
        Some(b) => split_char(b, '.'),
        None => Seq::<Seq<char>>::empty(),
    }
}

proof fn lemma_parse_none_by_pre(s: Seq<char>)
    requires
        !all_valid_pre(spec_pre_ids(s)),
    ensures
        spec_parse(s) is None,
{
}

proof fn lemma_parse_none_by_build(s: Seq<char>)
    requires
        !all_valid_build(spec_build_ids(s)),
    ensures
        spec_parse(s) is None,
{
}

/// The result of parsing `s` as a semantic version: the three numeric
/// components, the pre-release identifiers and the build identifiers, or
/// nothing when `s` does not follow the grammar.
pub open spec fn spec_parse(s: Seq<char>) -> Option<(int, int, int, Seq<Seq<char>>, Seq<Seq<char>>)> {
    let nums = spec_nums(s);
    if nums.len() != 3 || !valid_num_str(nums[0]) || !valid_num_str(nums[1]) || !valid_num_str(
        nums[2],
    ) {
        None
    } else if all_valid_pre(spec_pre_ids(s)) && all_valid_build(spec_build_ids(s)) {
        Some(
            (
                dec_val(nums[0]) as int,
                dec_val(nums[1]) as int,
                dec_val(nums[2]) as int,
                spec_pre_ids(s),
                spec_build_ids(s),
            ),
        )
    } else {
        None
    }
}

/// A validated semantic version.
#[derive(Debug)]
pub struct Version {
    pub major: u64,
    pub minor: u64,
    pub patch: u64,
    /// Pre-release identifiers, without their separating dots.
    pub pre: Vec<String>,
    /// Build identifiers, without their separating dots.
    pub build: Vec<String>,
}

impl Version {
    /// The pre-release identifiers as sequences of characters.
    pub open spec fn pre_view(&self) -> Seq<Seq<char>> {
        self.pre@.map_values(|x: String| x@)
    }

    /// The build identifiers as sequences of characters.
    pub open spec fn build_view(&self) -> Seq<Seq<char>> {
        self.build@.map_values(|x: String| x@)
    }

    /// Every stored identifier follows the grammar.
    pub open spec fn wf(&self) -> bool {
        (forall|i: int| 0 <= i < self.pre_view().len() ==> valid_pre_ident(
            #[trigger] self.pre_view()[i],
        )) && (forall|i: int| 0 <= i < self.build_view().len() ==> valid_build_ident(
            #[trigger] self.build_view()[i],
        ))
    }
}

/// Whether `c` may appear in a pre-release or build identifier.
fn is_ident_char_exec(c: char) -> (r: bool)
    ensures
        r == is_ident_char(c),
{
    let d = c as u32;
    (48 <= d && d <= 57) || (97 <= d && d <= 122) || (65 <= d && d <= 90) || c == '-'
}

/// Index of the first occurrence of `c` in `s`, if any.
pub(crate) fn find_char(s: &str, c: char) -> (r: Option<usize>)
    ensures
        match r {
            Some(i) => find_idx(s@, c) == Some(i as int),
            None => find_idx(s@, c) is None,
        },
{
    let n = s.unicode_len();
    let mut i: usize = 0;
    while i < n
        invariant
            0 <= i <= n,
            n == s@.len(),
            forall|j: int| 0 <= j < i ==> s@[j] != c,
        decreases n - i,
    {
        if s.get_char(i) == c {
            proof {
                lemma_find_idx(s@, c);
                if find_idx(s@, c) is None {
                    assert(false);
                } else {
                    let k = find_idx(s@, c)->Some_0;
                    assert(k <= i && i <= k);
                }
            }
            return Some(i);
        }
        i += 1;
    }
    proof {
        lemma_find_idx(s@, c);
    }
    None
}

/// `s` split at every occurrence of `c`, as owned strings.
fn split_on_char(s: &str, c: char) -> (r: Vec<String>)
    ensures
        r@.map_values(|x: String| x@) == split_char(s@, c),
{
    let n = s.unicode_len();
    let mut out: Vec<String> = Vec::new();
    let mut cur = String::new();
    let mut i: usize = 0;
    proof {
        lemma_split_char_len(s@, c);
        assert(s@.skip(0) =~= s@);
        assert(split_char(s@, c) =~~= out@.map_values(|x: String| x@) + seq![cur@ + split_char(
            s@.skip(0),
            c,
        )[0]] + split_char(s@.skip(0), c).skip(1));
    }
    while i < n
        invariant
            0 <= i <= n,
            n == s@.len(),
            split_char(s@, c) == out@.map_values(|x: String| x@) + seq![cur@ + split_char(
                s@.skip(i as int),
                c,
            )[0]] + split_char(s@.skip(i as int), c).skip(1),
        decreases n - i,
    {
        let ghost pre_split = split_char(s@.skip(i as int), c);
        proof {
            assert(s@.skip(i as int).len() > 0);
            assert(s@.skip(i as int).skip(1) =~= s@.skip(i + 1));
            lemma_split_char_len(s@.skip(i + 1), c);
        }
        let ch = s.get_char(i);
        if ch == c {
            out.push(cur);
            cur = String::new();
            proof {
                let post = split_char(s@.skip(i + 1), c);
                assert(pre_split == seq![Seq::<char>::empty()] + post);
                assert(pre_split[0] =~= Seq::<char>::empty());
                assert(pre_split.skip(1) =~~= post);
                assert(out@.map_values(|x: String| x@) =~~= out@.subrange(
                    0,
                    out@.len() - 1,
                ).map_values(|x: String| x@) + seq![out@.last()@]);
                assert(split_char(s@, c) =~~= out@.map_values(|x: String| x@) + seq![cur@ + post[0]]
                    + post.skip(1));
            }
        } else {
            let ghost prev_cur = cur@;
            let piece = s.substring_char(i, i + 1);
            cur.append(piece);
            proof {
                let post = split_char(s@.skip(i + 1), c);
                assert(s@.skip(i as int)[0] == s@[i as int] == ch);
                assert(pre_split =~~= seq![seq![ch] + post[0]] + post.skip(1));
                assert(piece@ =~= seq![ch]);
                assert(prev_cur + pre_split[0] =~= cur@ + post[0]);
                assert(split_char(s@, c) =~~= out@.map_values(|x: String| x@) + seq![cur@ + post[0]]
                    + post.skip(1));
            }
        }
        i += 1;
    }
    proof {
        assert(s@.skip(n as int) =~= Seq::<char>::empty());
        assert(split_char(Seq::<char>::empty(), c) == seq![Seq::<char>::empty()]);
    }
    out.push(cur);
    proof {
        assert(out@.map_values(|x: String| x@) =~~= out@.subrange(0, out@.len() - 1).map_values(
            |x: String| x@,
        ) + seq![out@.last()@]);
        assert(split_char(s@, c) =~~= out@.map_values(|x: String| x@));
    }
    out
}

/// Parses a numeric version component: canonical decimal in `u64` range.
fn check_num(part: &str) -> (r: Option<u64>)
    ensures
        match r {
            Some(v) => valid_num_str(part@) && v as nat == dec_val(part@),
            None => !valid_num_str(part@),
        },
{
    let n = part.unicode_len();
    if n > 1 && part.get_char(0) == '0' {
        return None;
    }
    match parse_u64_range(part, 0, n) {
        Some(v) => {
            proof {
                assert(part@.subrange(0, n as int) =~= part@);
            }
            Some(v)
        },
        None => {
            proof {
                assert(part@.subrange(0, n as int) =~= part@);
            }
            None
        },
    }
}

/// Whether `part` is a valid build identifier.
fn check_build_ident(part: &str) -> (r: bool)
    ensures
        r == valid_build_ident(part@),
{
    let n = part.unicode_len();
    if n == 0 {
        return false;
    }
    let mut i: usize = 0;
    while i < n
        invariant
            0 <= i <= n,
            n == part@.len(),
            forall|j: int| 0 <= j < i ==> is_ident_char(#[trigger] part@[j]),
        decreases n - i,
    {
        if !is_ident_char_exec(part.get_char(i)) {
            return false;
        }
        i += 1;
    }
    true
}

/// Whether every character of `part` is a decimal digit.
fn check_all_digits(part: &str) -> (r: bool)
    ensures
        r == all_digits(part@),
{
    let n = part.unicode_len();
    let mut i: usize = 0;
    while i < n
        invariant
            0 <= i <= n,
            n == part@.len(),
            forall|j: int| 0 <= j < i ==> is_digit_char(#[trigger] part@[j]),
        decreases n - i,
    {
        let c = part.get_char(i);
        let d = c as u32;
        if d < 48 || d > 57 {
            proof {
                assert(!is_digit_char(c));
            }
            return false;
        }
        i += 1;
    }
    true
}

/// Whether `part` is a valid pre-release identifier.
fn check_pre_ident(part: &str) -> (r: bool)
    ensures
        r == valid_pre_ident(part@),
{
    if !check_build_ident(part) {
        return false;
    }
    if check_all_digits(part) {
        check_num(part).is_some()
    } else {
        true
    }
}

impl Version {
    /// Parses `s` as a semantic version, per [`spec_parse`]. Every string the
    /// grammar accepts is parsed; every other string is an `InvalidVersion`
    /// error carrying the offending input.
    pub fn parse(s: &str) -> (r: Result<Version, Error>)
        ensures
            match r {
                Ok(v) => v.wf() && spec_parse(s@) == Some(
                    (v.major as int, v.minor as int, v.patch as int, v.pre_view(), v.build_view()),
                ),
                Err(e) => spec_parse(s@) is None && (e matches Error::InvalidVersion(m) && m@
                    == s@),
            },
    {
        let n = s.unicode_len();
        let fplus = find_char(s, '+');
        proof {
            lemma_find_idx(s@, '+');
        }
        let (rest, build_str): (String, Option<String>) = match fplus {
            Some(i) => (
                String::from_str(s.substring_char(0, i)),
                Some(String::from_str(s.substring_char(i + 1, n))),
            ),
            None => (String::from_str(s), None),
        };
        let ghost srest: Seq<char> = spec_rest(s@);
        let ghost sbuild: Option<Seq<char>> = spec_build_str(s@);
        proof {
            if find_idx(s@, '+') is Some {
                let i = find_idx(s@, '+')->Some_0;
                assert(s@.subrange(0, i) =~= s@.take(i));
                assert(build_str->Some_0@ == s@.skip(i + 1));
                assert(sbuild == Some(build_str->Some_0@));
            }
            assert(rest@ == srest);
        }
        let rn = rest.as_str().unicode_len();
        let fdash = find_char(rest.as_str(), '-');
        proof {
            lemma_find_idx(rest@, '-');
        }
        let (core, pre_str): (String, Option<String>) = match fdash {
            Some(i) => (
                String::from_str(rest.as_str().substring_char(0, i)),
                Some(String::from_str(rest.as_str().substring_char(i + 1, rn))),
            ),
            None => (rest.clone(), None),
        };
        let ghost score: Seq<char> = spec_core(s@);
        let ghost spre: Option<Seq<char>> = spec_pre_str(s@);
        proof {
            if find_idx(srest, '-') is Some {
                let i = find_idx(srest, '-')->Some_0;
                assert(rest@.subrange(0, i) =~= srest.take(i));
                assert(pre_str->Some_0@ == srest.skip(i + 1));
                assert(spre == Some(pre_str->Some_0@));
            }
            assert(core@ == score);
        }
        let nums = split_on_char(core.as_str(), '.');
        let ghost snums = spec_nums(s@);
        proof {
            lemma_split_char_len(score, '.');
            assert(nums@.map_values(|x: String| x@) == snums);
            assert(nums@.len() == snums.len());
        }
        if nums.len() != 3 {
            return Err(Error::InvalidVersion(String::from_str(s)));
        }
        proof {
            assert(snums[0] == nums@.map_values(|x: String| x@)[0]);
            assert(snums[0] == nums@[0]@);
            assert(snums[1] == nums@.map_values(|x: String| x@)[1]);
            assert(snums[1] == nums@[1]@);
            assert(snums[2] == nums@.map_values(|x: String| x@)[2]);
            assert(snums[2] == nums@[2]@);
        }
        let major = match check_num(nums[0].as_str()) {
            Some(v) => v,
            None => {
                return Err(Error::InvalidVersion(String::from_str(s)));
            },
        };
        let minor = match check_num(nums[1].as_str()) {
            Some(v) => v,
            None => {
                return Err(Error::InvalidVersion(String::from_str(s)));
            },
        };
        let patch = match check_num(nums[2].as_str()) {
            Some(v) => v,
            None => {
                return Err(Error::InvalidVersion(String::from_str(s)));
            },
        };
        let ghost gpre: Seq<Seq<char>> = spec_pre_ids(s@);
        let ghost gbuild: Seq<Seq<char>> = spec_build_ids(s@);
        let pre: Vec<String> = match &pre_str {
            Some(p) => {
                let parts = split_on_char(p.as_str(), '.');
                proof {
                    assert(parts@.map_values(|x: String| x@) == gpre);
                }
                let mut k: usize = 0;
                while k < parts.len()
                    invariant
                        0 <= k <= parts@.len(),
                        gpre == spec_pre_ids(s@),
                        parts@.map_values(|x: String| x@) == gpre,
                        forall|j: int| 0 <= j < k ==> valid_pre_ident(#[trigger] parts@[j]@),
                    decreases parts@.len() - k,
                {
                    if !check_pre_ident(parts[k].as_str()) {
                        proof {
                            assert(gpre[k as int] == parts@[k as int]@);
                            assert(!valid_pre_ident(gpre[k as int]));
                            assert(!all_valid_pre(gpre));
                            lemma_parse_none_by_pre(s@);
                        }
                        return Err(Error::InvalidVersion(String::from_str(s)));
                    }
                    k += 1;
                }
                proof {
                    assert forall|j: int| 0 <= j < gpre.len() implies valid_pre_ident(
                        #[trigger] gpre[j],
                    ) by {
                        assert(gpre[j] == parts@[j]@);
                    }
                    assert(all_valid_pre(gpre));
                }
                parts
            },
            None => Vec::new(),
        };
        let build: Vec<String> = match &build_str {
            Some(b) => {
                let parts = split_on_char(b.as_str(), '.');
                proof {
                    assert(parts@.map_values(|x: String| x@) == gbuild);
                }
                let mut k: usize = 0;
                while k < parts.len()
                    invariant
                        0 <= k <= parts@.len(),
                        gbuild == spec_build_ids(s@),
                        parts@.map_values(|x: String| x@) == gbuild,
                        forall|j: int| 0 <= j < k ==> valid_build_ident(#[trigger] parts@[j]@),
                    decreases parts@.len() - k,
                {
                    if !check_build_ident(parts[k].as_str()) {
                        proof {
                            assert(gbuild[k as int] == parts@[k as int]@);
                            assert(!valid_build_ident(gbuild[k as int]));
                            assert(!all_valid_build(gbuild));
                            lemma_parse_none_by_build(s@);
                        }
                        return Err(Error::InvalidVersion(String::from_str(s)));
                    }
                    k += 1;
                }
                proof {
                    assert forall|j: int| 0 <= j < gbuild.len() implies valid_build_ident(
                        #[trigger] gbuild[j],
                    ) by {
                        assert(gbuild[j] == parts@[j]@);
                    }
                    assert(all_valid_build(gbuild));
                }
                parts
            },
            None => Vec::new(),
        };
        let v = Version { major, minor, patch, pre, build };
        proof {
            assert(all_valid_pre(gpre));
            assert(all_valid_build(gbuild));
            assert(v.pre_view() == gpre);
            assert(v.build_view() == gbuild);
            assert(v.wf()) by {
                assert(forall|j: int| 0 <= j < gpre.len() ==> valid_pre_ident(#[trigger] gpre[j]));
                assert(forall|j: int| 0 <= j < gbuild.len() ==> valid_build_ident(
                    #[trigger] gbuild[j],
                ));
            }
        }
        Ok(v)
    }
}

/// Strict lexicographic (ASCII) order on character sequences.
pub open spec fn lex_lt(x: Seq<char>, y: Seq<char>) -> bool
    decreases x.len(),
{
    if y.len() == 0 {
        false
    } else if x.len() == 0 {
        true
    } else if x[0] != y[0] {
        (x[0] as u32) < (y[0] as u32)
    } else {
        lex_lt(x.skip(1), y.skip(1))
    }
}

/// Precedence order on single identifiers: numeric identifiers compare by
/// value, a numeric identifier is below an alphanumeric one, and two
/// alphanumeric identifiers compare lexicographically.
pub open spec fn ident_lt(x: Seq<char>, y: Seq<char>) -> bool {
    if all_digits(x) && all_digits(y) {
        dec_val(x) < dec_val(y)
    } else if all_digits(x) {
        true
    } else if all_digits(y) {
        false
    } else {
        lex_lt(x, y)
    }
}

/// Precedence order on identifier sequences, leftmost difference first; a
/// strict prefix is below the longer sequence.
pub open spec fn idents_lt(p: Seq<Seq<char>>, q: Seq<Seq<char>>) -> bool
    decreases p.len(),
{
    if q.len() == 0 {
        false
    } else if p.len() == 0 {
        true
    } else if p[0] == q[0] {
        idents_lt(p.skip(1), q.skip(1))
    } else {
        ident_lt(p[0], q[0])
    }
}

/// Pre-release precedence: any pre-release is below the release proper.
pub open spec fn pre_lt(p: Seq<Seq<char>>, q: Seq<Seq<char>>) -> bool {
    if p.len() > 0 && q.len() == 0 {
        true
    } else if p.len() == 0 {
        false
    } else {
        idents_lt(p, q)
    }
}

/// Semantic-version precedence; build metadata is ignored.
pub open spec fn spec_version_lt(a: &Version, b: &Version) -> bool {
    if a.major != b.major {
        a.major < b.major
    } else if a.minor != b.minor {
        a.minor < b.minor
    } else if a.patch != b.patch {
        a.patch < b.patch
    } else {
        pre_lt(a.pre_view(), b.pre_view())
    }
}

/// Strict lexicographic comparison of two strings.
fn lex_lt_exec(x: &str, y: &str) -> (r: bool)
    ensures
        r == lex_lt(x@, y@),
{
    let xn = x.unicode_len();
    let yn = y.unicode_len();
    let mut i: usize = 0;
    proof {
        assert(x@.skip(0) =~= x@);
        assert(y@.skip(0) =~= y@);
    }
    loop
        invariant
            0 <= i <= xn,
            i <= yn,
            xn == x@.len(),
            yn == y@.len(),
            lex_lt(x@, y@) == lex_lt(x@.skip(i as int), y@.skip(i as int)),
        decreases xn - i,
    {
        proof {
            if i < xn && i < yn {
                assert(x@.skip(i as int)[0] == x@[i as int]);
                assert(y@.skip(i as int)[0] == y@[i as int]);
                assert(x@.skip(i as int).skip(1) =~= x@.skip(i + 1));
                assert(y@.skip(i as int).skip(1) =~= y@.skip(i + 1));
            }
        }
        if i == yn {
            return false;
        }
        if i == xn {
            return true;
        }
        let cx = x.get_char(i);
        let cy = y.get_char(i);
        if cx != cy {
            return (cx as u32) < (cy as u32);
        }
        i += 1;
    }
}

/// Precedence comparison of two validated identifiers.
fn ident_lt_exec(x: &str, y: &str) -> (r: bool)
    requires
        valid_pre_ident(x@),
        valid_pre_ident(y@),
    ensures
        r == ident_lt(x@, y@),
{
    let xd = check_all_digits(x);
    let yd = check_all_digits(y);
    if xd && yd {
        let xn = x.unicode_len();
        let yn = y.unicode_len();
        let xv = match parse_u64_range(x, 0, xn) {
            Some(v) => v,
            None => {
                proof {
                    assert(x@.subrange(0, xn as int) =~= x@);
                }
                0
            },
        };
        let yv = match parse_u64_range(y, 0, yn) {
            Some(v) => v,
            None => {
                proof {
                    assert(y@.subrange(0, yn as int) =~= y@);
                }
                0
            },
        };
        proof {
            assert(x@.subrange(0, x@.len() as int) =~= x@);
            assert(y@.subrange(0, y@.len() as int) =~= y@);
        }
        xv < yv
    } else if xd {
        true
    } else if yd {
        false
    } else {
        lex_lt_exec(x, y)
    }
}

/// The identifiers joined with dots.
pub open spec fn spec_join_dot(ids: Seq<Seq<char>>) -> Seq<char>
    decreases ids.len(),
{
    if ids.len() == 0 {
        Seq::<char>::empty()
    } else if ids.len() == 1 {
        ids[0]
    } else {
        spec_join_dot(ids.drop_last()) + seq!['.'] + ids.last()
    }
}

/// The canonical rendering of a version: `MAJOR.MINOR.PATCH`, then `-` and
/// the pre-release identifiers when present, then `+` and the build
/// identifiers when present.
pub open spec fn spec_version_str(v: &Version) -> Seq<char> {
    dec_str(v.major as nat) + seq!['.'] + dec_str(v.minor as nat) + seq!['.'] + dec_str(
        v.patch as nat,
    ) + (if v.pre_view().len() > 0 {
        seq!['-'] + spec_join_dot(v.pre_view())
    } else {
        Seq::<char>::empty()
    }) + (if v.build_view().len() > 0 {
        seq!['+'] + spec_join_dot(v.build_view())
    } else {
        Seq::<char>::empty()
    })
}

/// The identifiers joined with dots.
fn join_dot(ids: &Vec<String>) -> (r: String)
    ensures
        r@ == spec_join_dot(ids@.map_values(|x: String| x@)),
{
    let ghost view = ids@.map_values(|x: String| x@);
    let mut out = String::new();
    let mut i: usize = 0;
    proof {
        assert(view.take(0) =~~= Seq::<Seq<char>>::empty());
    }
    while i < ids.len()
        invariant
            0 <= i <= ids@.len(),
            view == ids@.map_values(|x: String| x@),
            out@ == spec_join_dot(view.take(i as int)),
        decreases ids@.len() - i,
    {
        if i > 0 {
            out.append(".");
            proof {
                reveal_strlit(".");
            }
        }
        out.append(ids[i].as_str());
        proof {
            reveal_strlit(".");
            assert(view.take(i + 1).drop_last() =~~= view.take(i as int));
            assert(view.take(i + 1).last() == view[i as int]);
            assert(view[i as int] == ids@[i as int]@);
            if i == 0 {
                assert(out@ =~= spec_join_dot(view.take(1)));
            } else {
                assert("."@ =~= seq!['.']);
                assert(out@ =~= spec_join_dot(view.take(i as int)) + seq!['.'] + view[i as int]);
            }
        }
        i += 1;
    }
    proof {
        assert(view.take(ids@.len() as int) =~~= view);
    }
    out
}

impl Version {
    /// Strict precedence comparison: `true` when `self` precedes `other`.
    /// Build metadata does not participate.
    pub fn lt(&self, other: &Version) -> (r: bool)
        requires
            self.wf(),
            other.wf(),
        ensures
            r == spec_version_lt(self, other),
    {
        if self.major != other.major {
            return self.major < other.major;
        }
        if self.minor != other.minor {
            return self.minor < other.minor;
        }
        if self.patch != other.patch {
            return self.patch < other.patch;
        }
        let pn = self.pre.len();
        let qn = other.pre.len();
        if pn > 0 && qn == 0 {
            return true;
        }
        if pn == 0 {
            return false;
        }
        let ghost p = self.pre_view();
        let ghost q = other.pre_view();
        let mut k: usize = 0;
        proof {
            assert(p.skip(0) =~~= p);
            assert(q.skip(0) =~~= q);
        }
        loop
            invariant
                0 <= k <= pn,
                k <= qn,
                pn == p.len(),
                qn == q.len(),
                p == self.pre_view(),
                q == other.pre_view(),
                self.wf(),
                other.wf(),
                pn > 0,
                spec_version_lt(self, other) == idents_lt(p.skip(k as int), q.skip(k as int)),
            decreases pn - k,
        {
            proof {
                if k < pn && k < qn {
                    assert(p.skip(k as int)[0] == p[k as int]);
                    assert(q.skip(k as int)[0] == q[k as int]);
                    assert(p.skip(k as int).skip(1) =~~= p.skip(k + 1));
                    assert(q.skip(k as int).skip(1) =~~= q.skip(k + 1));
                }
            }
            if k == qn {
                return false;
            }
            if k == pn {
                return true;
            }
            if self.pre[k] == other.pre[k] {
                proof {
                    assert(p[k as int] == self.pre@[k as int]@);
                    assert(q[k as int] == other.pre@[k as int]@);
                }
                k += 1;
            } else {
                proof {
                    assert(p[k as int] == self.pre@[k as int]@);
                    assert(q[k as int] == other.pre@[k as int]@);
                    assert(p[k as int] != q[k as int]);
                }
                return ident_lt_exec(self.pre[k].as_str(), other.pre[k].as_str());
            }
        }
    }

    /// The canonical rendering of this version.
    pub fn to_string(&self) -> (r: String)
        ensures
            r@ == spec_version_str(self),
    {
        proof {
            reveal_strlit(".");
            reveal_strlit("-");
            reveal_strlit("+");
        }
        let mut out = u64_to_string(self.major);
        out.append(".");
        let m = u64_to_string(self.minor);
        out.append(m.as_str());
        out.append(".");
        let pt = u64_to_string(self.patch);
        out.append(pt.as_str());
        if self.pre.len() > 0 {
            out.append("-");
            let j = join_dot(&self.pre);
            out.append(j.as_str());
        }
        if self.build.len() > 0 {
            out.append("+");
            let j = join_dot(&self.build);
            out.append(j.as_str());
        }
        proof {
            assert("."@ =~= seq!['.']);
            assert("-"@ =~= seq!['-']);
            assert("+"@ =~= seq!['+']);
            assert(out@ =~= spec_version_str(self));
        }
        out
    }
}

} // verus!
