//! Verified string utilities: substring search, left-to-right non-overlapping
//! replacement, decimal formatting and parsing. All contracts are stated over
//! `Seq<char>` views.

use vstd::prelude::*;

verus! {

/// `pat` occurs in `s` starting at index `i`.
pub open spec fn match_at(s: Seq<char>, pat: Seq<char>, i: int) -> bool {
    0 <= i && i + pat.len() <= s.len() && s.subrange(i, i + pat.len() as int) == pat
}

/// `pat` occurs somewhere in `s`.
pub open spec fn contains_seq(s: Seq<char>, pat: Seq<char>) -> bool {
    exists|i: int| match_at(s, pat, i)
}

/// `pat` occurs at `i` and nowhere earlier.
pub open spec fn first_match_at(s: Seq<char>, pat: Seq<char>, i: int) -> bool {
    match_at(s, pat, i) && forall|j: int| 0 <= j < i ==> !match_at(s, pat, j)
}

/// Whether `pat` occurs in `s` starting at `i`.
pub fn is_match_at(s: &str, pat: &str, i: usize) -> (r: bool)
    ensures
        r == match_at(s@, pat@, i as int),
{
    let n = s.unicode_len();
    let m = pat.unicode_len();
    if i > n || m > n - i {
        return false;
    }
    let mut j: usize = 0;
    while j < m
        invariant
            0 <= j <= m,
            i + m <= n,
            n == s@.len(),
            m == pat@.len(),
            forall|k: int| 0 <= k < j ==> s@[i + k] == pat@[k],
        decreases m - j,
    {
        if s.get_char(i + j) != pat.get_char(j) {
            proof {
                assert(s@.subrange(i as int, i + m) != pat@) by {
                    assert(s@.subrange(i as int, i + m)[j as int] == s@[i + j]);
                }
            }
            return false;
        }
        j += 1;
    }
    proof {
        assert(s@.subrange(i as int, i + m) =~= pat@);
    }
    true
}

/// Index of the first occurrence of `pat` in `s`, if any.
pub fn find_str(s: &str, pat: &str) -> (r: Option<usize>)
    ensures
        match r {
            Some(i) => first_match_at(s@, pat@, i as int),
            None => !contains_seq(s@, pat@),
        },
{
    let n = s.unicode_len();
    let m = pat.unicode_len();
    if m == 0 {
        proof {
            assert(s@.subrange(0, 0) =~= pat@);
        }
        return Some(0);
    }
    let mut i: usize = 0;
    while i < n
        invariant
            0 <= i <= n,
            n == s@.len(),
            m == pat@.len(),
            m > 0,
            forall|j: int| 0 <= j < i ==> !match_at(s@, pat@, j),
        decreases n - i,
    {
        if is_match_at(s, pat, i) {
            return Some(i);
        }
        i += 1;
    }
    proof {
        assert forall|j: int| !match_at(s@, pat@, j) by {
            if j >= n {
                assert(j + pat@.len() > s@.len());
            }
        }
    }
    None
}

/// Whether `pat` occurs anywhere in `s`.
pub fn contains_str(s: &str, pat: &str) -> (r: bool)
    ensures
        r == contains_seq(s@, pat@),
{
    find_str(s, pat).is_some()
}

/// Left-to-right, non-overlapping replacement of `pat` by `rep`, as
/// `str::replace` performs it. An occurrence is consumed whole; the scan
/// resumes after the inserted replacement.
pub open spec fn replace_seq(s: Seq<char>, pat: Seq<char>, rep: Seq<char>) -> Seq<char>
    decreases s.len(),
{
    if pat.len() == 0 || s.len() < pat.len() {
        s
    } else if s.subrange(0, pat.len() as int) == pat {
        rep + replace_seq(s.skip(pat.len() as int), pat, rep)
    } else {
        seq![s[0]] + replace_seq(s.skip(1), pat, rep)
    }
}

proof fn lemma_replace_step_match(s: Seq<char>, pat: Seq<char>, rep: Seq<char>, i: int)
    requires
        pat.len() > 0,
        match_at(s, pat, i),
    ensures
        replace_seq(s.skip(i), pat, rep) == rep + replace_seq(s.skip(i + pat.len() as int), pat, rep),
{
    assert(s.skip(i).len() >= pat.len());
    assert(s.skip(i).subrange(0, pat.len() as int) =~= s.subrange(i, i + pat.len() as int));
    assert(s.skip(i).skip(pat.len() as int) =~= s.skip(i + pat.len() as int));
}

proof fn lemma_replace_step_char(s: Seq<char>, pat: Seq<char>, rep: Seq<char>, i: int)
    requires
        pat.len() > 0,
        0 <= i < s.len(),
        !match_at(s, pat, i),
    ensures
        replace_seq(s.skip(i), pat, rep) == seq![s[i]] + replace_seq(s.skip(i + 1), pat, rep),
{
    let t = s.skip(i);
    if t.len() < pat.len() {
        assert(replace_seq(t, pat, rep) == t);
        assert(t.skip(1) =~= s.skip(i + 1));
        assert(replace_seq(s.skip(i + 1), pat, rep) == s.skip(i + 1));
        assert(t =~= seq![s[i]] + s.skip(i + 1));
    } else {
        assert(t.subrange(0, pat.len() as int) =~= s.subrange(i, i + pat.len() as int));
        assert(t.subrange(0, pat.len() as int) != pat);
        assert(t[0] == s[i]);
        assert(t.skip(1) =~= s.skip(i + 1));
    }
}

/// `str::replace`: every occurrence of `pat` replaced by `rep`.
pub fn replace_all(s: &str, pat: &str, rep: &str) -> (r: String)
    requires
        pat@.len() > 0,
    ensures
        r@ == replace_seq(s@, pat@, rep@),
{
    let n = s.unicode_len();
    let m = pat.unicode_len();
    let mut out = String::new();
    let mut i: usize = 0;
    proof {
        assert(s@.skip(0) =~= s@);
        assert(out@ + replace_seq(s@, pat@, rep@) =~= replace_seq(s@, pat@, rep@));
    }
    while i < n
        invariant
            0 <= i <= n,
            n == s@.len(),
            m == pat@.len(),
            m > 0,
            replace_seq(s@, pat@, rep@) == out@ + replace_seq(s@.skip(i as int), pat@, rep@),
        decreases n - i,
    {
        if is_match_at(s, pat, i) {
            out.append(rep);
            proof {
                lemma_replace_step_match(s@, pat@, rep@, i as int);
            }
            i += m;
        } else {
            let piece = s.substring_char(i, i + 1);
            out.append(piece);
            proof {
                lemma_replace_step_char(s@, pat@, rep@, i as int);
                assert(piece@ =~= seq![s@[i as int]]);
            }
            i += 1;
        }
    }
    proof {
        assert(s@.skip(n as int) =~= Seq::<char>::empty());
        assert(replace_seq(Seq::<char>::empty(), pat@, rep@) == Seq::<char>::empty());
        assert(out@ + Seq::<char>::empty() =~= out@);
    }
    out
}

/// Replacement leaves a string without any occurrence of `pat` unchanged.
pub proof fn lemma_replace_absent(s: Seq<char>, pat: Seq<char>, rep: Seq<char>)
    requires
        !contains_seq(s, pat),
    ensures
        replace_seq(s, pat, rep) == s,
    decreases s.len(),
{
    if pat.len() == 0 || s.len() < pat.len() {
    } else {
        assert(!match_at(s, pat, 0));
        assert(s.subrange(0, pat.len() as int) != pat);
        assert forall|j: int| !match_at(s.skip(1), pat, j) by {
            if match_at(s.skip(1), pat, j) {
                assert(s.subrange(j + 1, j + 1 + pat.len() as int) =~= s.skip(1).subrange(
                    j,
                    j + pat.len() as int,
                ));
                assert(match_at(s, pat, j + 1));
            }
        }
        lemma_replace_absent(s.skip(1), pat, rep);
        assert(seq![s[0]] + s.skip(1) =~= s);
    }
}

/// When `pat` occurs exactly once, at `i`, replacement splices `rep` into its
/// place and leaves the rest of the string as it was.
pub proof fn lemma_replace_single(s: Seq<char>, pat: Seq<char>, rep: Seq<char>, i: int)
    requires
        pat.len() > 0,
        first_match_at(s, pat, i),
        !contains_seq(s.skip(i + pat.len() as int), pat),
    ensures
        replace_seq(s, pat, rep) == s.take(i) + rep + s.skip(i + pat.len() as int),
    decreases i,
{
    if i == 0 {
        lemma_replace_absent(s.skip(pat.len() as int), pat, rep);
        assert(s.subrange(0, pat.len() as int) == pat);
        assert(replace_seq(s, pat, rep) == rep + s.skip(pat.len() as int));
        assert(s.take(0) =~= Seq::<char>::empty());
        assert(s.take(0) + rep + s.skip(pat.len() as int) =~= rep + s.skip(pat.len() as int));
    } else {
        assert(!match_at(s, pat, 0));
        assert(s.len() >= i + pat.len());
        assert(s.subrange(0, pat.len() as int) != pat);
        let t = s.skip(1);
        assert forall|j: int| 0 <= j < i - 1 implies !match_at(t, pat, j) by {
            if match_at(t, pat, j) {
                assert(s.subrange(j + 1, j + 1 + pat.len() as int) =~= t.subrange(
                    j,
                    j + pat.len() as int,
                ));
                assert(match_at(s, pat, j + 1));
            }
        }
        assert(t.subrange(i - 1, i - 1 + pat.len() as int) =~= s.subrange(i, i + pat.len() as int));
        assert(match_at(t, pat, i - 1));
        assert(t.skip(i - 1 + pat.len() as int) =~= s.skip(i + pat.len() as int));
        lemma_replace_single(t, pat, rep, i - 1);
        assert(replace_seq(s, pat, rep) == seq![s[0]] + replace_seq(t, pat, rep));
        assert(t.take(i - 1) =~= s.subrange(1, i));
        assert(seq![s[0]] + (s.subrange(1, i) + rep + s.skip(i + pat.len() as int)) =~= s.take(i)
            + rep + s.skip(i + pat.len() as int));
    }
}

/// The decimal digit character for `d`.
pub open spec fn dec_digit(d: int) -> char {
    if d == 0 {
        '0'
    } else if d == 1 {
        '1'
    } else if d == 2 {
        '2'
    } else if d == 3 {
        '3'
    } else if d == 4 {
        '4'
    } else if d == 5 {
        '5'
    } else if d == 6 {
        '6'
    } else if d == 7 {
        '7'
    } else if d == 8 {
        '8'
    } else {
        '9'
    }
}

/// The usual decimal rendering of `n`, without leading zeros.
pub open spec fn dec_str(n: nat) -> Seq<char>
    decreases n,
{
    if n < 10 {
        seq![dec_digit(n as int)]
    } else {
        dec_str(n / 10) + seq![dec_digit((n % 10) as int)]
    }
}

fn digit_str(d: u64) -> (r: &'static str)
    requires
        d < 10,
    ensures
        r@ == seq![dec_digit(d as int)],
{
    proof {
        reveal_strlit("0");
        reveal_strlit("1");
        reveal_strlit("2");
        reveal_strlit("3");
        reveal_strlit("4");
        reveal_strlit("5");
        reveal_strlit("6");
        reveal_strlit("7");
        reveal_strlit("8");
        reveal_strlit("9");
    }
    let r = match d {
        0 => "0",
        1 => "1",
        2 => "2",
        3 => "3",
        4 => "4",
        5 => "5",
        6 => "6",
        7 => "7",
        8 => "8",
        _ => "9",
    };
    proof {
        assert(r@ =~= seq![dec_digit(d as int)]);
    }
    r
}

/// Decimal rendering of `n`.
pub fn u64_to_string(n: u64) -> (r: String)
    ensures
        r@ == dec_str(n as nat),
    decreases n,
{
    if n < 10 {
        String::from_str(digit_str(n))
    } else {
        let high = u64_to_string(n / 10);
        high.concat(digit_str(n % 10))
    }
}

/// `c` is a decimal digit.
pub open spec fn is_digit_char(c: char) -> bool {
    '0' <= c && c <= '9'
}

/// All characters of `s` are decimal digits.
pub open spec fn all_digits(s: Seq<char>) -> bool {
    forall|i: int| 0 <= i < s.len() ==> is_digit_char(#[trigger] s[i])
}

/// The numeric value of a digit string, most significant digit first.
pub open spec fn dec_val(s: Seq<char>) -> nat
    decreases s.len(),
{
    if s.len() == 0 {
        0
    } else {
        (dec_val(s.drop_last()) * 10 + (s.last() as int - '0' as int)) as nat
    }
}

proof fn lemma_dec_val_extends(s: Seq<char>, i: int)
    requires
        0 <= i <= s.len(),
        all_digits(s),
    ensures
        dec_val(s) >= dec_val(s.take(i)),
    decreases s.len() - i,
{
    if i < s.len() {
        assert(s.take(i + 1).drop_last() =~= s.take(i));
        assert(s.take(i + 1).last() == s[i]);
        assert(is_digit_char(s[i]));
        assert(dec_val(s.take(i + 1)) == (dec_val(s.take(i)) * 10 + (s[i] as int
            - '0' as int)) as nat);
        assert(dec_val(s.take(i + 1)) >= dec_val(s.take(i)));
        lemma_dec_val_extends(s, i + 1);
    } else {
        assert(s.take(s.len() as int) =~= s);
    }
}

/// Parses the decimal digit run `s[from..to]` as a `u64`. Fails when the range
/// is empty, holds a non-digit, or denotes a value above `u64::MAX`.
pub fn parse_u64_range(s: &str, from: usize, to: usize) -> (r: Option<u64>)
    requires
        from <= to <= s@.len(),
    ensures
        match r {
            Some(v) => all_digits(s@.subrange(from as int, to as int)) && to > from && v as nat
                == dec_val(s@.subrange(from as int, to as int)),
            None => !all_digits(s@.subrange(from as int, to as int)) || to == from || dec_val(
                s@.subrange(from as int, to as int),
            ) > u64::MAX,
        },
{
    let ghost digits = s@.subrange(from as int, to as int);
    if from == to {
        return None;
    }
    let mut acc: u64 = 0;
    let mut i: usize = from;
    while i < to
        invariant
            from <= i <= to <= s@.len(),
            digits == s@.subrange(from as int, to as int),
            all_digits(digits.take(i - from)),
            acc as nat == dec_val(digits.take(i - from)),
        decreases to - i,
    {
        let c = s.get_char(i);
        let d = c as u32;
        if d < 48 || d > 57 {
            proof {
                assert(digits[i - from] == c);
                assert(!is_digit_char(c)) by {
                    assert(c as u32 == d);
                }
            }
            return None;
        }
        let dv = (d - 48) as u64;
        proof {
            assert(is_digit_char(c)) by {
                assert('0' as u32 == 48 && '9' as u32 == 57);
            }
            assert(dv as nat == c as nat - '0' as nat);
        }
        if acc > (u64::MAX - dv) / 10 {
            proof {
                if all_digits(digits) {
                    assert(digits.take(i - from + 1).drop_last() =~= digits.take(i - from));
                    assert(digits.take(i - from + 1).last() == digits[i - from] == c);
                    assert(dec_val(digits.take(i - from + 1)) == acc as nat * 10 + dv as nat);
                    assert(acc as nat * 10 + dv as nat > u64::MAX);
                    lemma_dec_val_extends(digits, i - from + 1);
                }
            }
            return None;
        }
        proof {
            assert(digits.take(i - from + 1).drop_last() =~= digits.take(i - from));
            assert(digits.take(i - from + 1).last() == digits[i - from] == c);
            assert(dec_val(digits.take(i - from + 1)) == acc as nat * 10 + dv as nat);
            assert(forall|k: int| 0 <= k < i - from + 1 ==> is_digit_char(
                #[trigger] digits.take(i - from + 1)[k],
            ));
        }
        acc = acc * 10 + dv;
        i += 1;
    }
    proof {
        assert(digits.take(to - from) =~= digits);
    }
    Some(acc)
}

} // verus!
