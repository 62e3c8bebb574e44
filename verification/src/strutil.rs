//! Verified string helpers: equality, lexicographic comparison,
//! ASCII lowercasing, substring tests, and pattern removal.

use vstd::prelude::*;
use vstd::string::StrSliceExecFns;

verus! {

/// Relies on std's `String::push`: appends exactly the one character.
pub assume_specification [ String::push ](s: &mut String, ch: char)
    ensures
        final(s)@ == old(s)@.push(ch),
;

/// The views of a sequence of strings.
pub open spec fn string_views(s: Seq<String>) -> Seq<Seq<char>> {
    s.map_values(|x: String| x@)
}

/// Character-wise equality of two strings.
pub fn str_eq(a: &str, b: &str) -> (r: bool)
    ensures
        r == (a@ == b@),
{
    let alen = a.unicode_len();
    let blen = b.unicode_len();
    if alen != blen {
        return false;
    }
    let mut i: usize = 0;
    while i < alen
        invariant
            i <= alen,
            alen == a@.len(),
            alen == b@.len(),
            forall|k: int| 0 <= k < i ==> a@[k] == b@[k],
        decreases alen - i,
    {
        if a.get_char(i) != b.get_char(i) {
            return false;
        }
        i = i + 1;
    }
    proof {
        assert(a@ =~= b@);
    }
    true
}

/// Lowercase for the ASCII range; any other character is unchanged.
pub open spec fn spec_lower_char(c: char) -> char {
    if 'A' <= c <= 'Z' {
        ((c as u8) + 32) as char
    } else {
        c
    }
}

pub open spec fn spec_lower(s: Seq<char>) -> Seq<char> {
    s.map_values(|c: char| spec_lower_char(c))
}

/// ASCII lowercasing of a string; characters outside the ASCII uppercase
/// range pass through unchanged. Note that this differs from full Unicode
/// case folding on non-ASCII letters; the names this library matches and
/// searches are ASCII.
pub fn to_ascii_lower(s: &str) -> (r: String)
    ensures
        r@ == spec_lower(s@),
{
    let n = s.unicode_len();
    let mut out = String::new();
    let mut i: usize = 0;
    while i < n
        invariant
            i <= n,
            n == s@.len(),
            out@ =~= spec_lower(s@.take(i as int)),
        decreases n - i,
    {
        let c = s.get_char(i);
        let lc: char = if c >= 'A' && c <= 'Z' {
            ((c as u8) + 32) as char
        } else {
            c
        };
        out.push(lc);
        proof {
            assert(s@.take(i + 1).drop_last() =~= s@.take(i as int));
            assert(s@.take(i + 1).last() == s@[i as int]);
            assert(out@ =~= spec_lower(s@.take(i + 1)));
        }
        i = i + 1;
    }
    proof {
        assert(s@.take(n as int) =~= s@);
    }
    out
}

/// Whether `pat` occurs in `s` starting at character `i`.
pub fn matches_at(s: &str, pat: &str, i: usize) -> (r: bool)
    requires
        i + pat@.len() <= s@.len(),
    ensures
        r == (s@.subrange(i as int, i + pat@.len()) == pat@),
{
    let n = s.unicode_len();
    let m = pat.unicode_len();
    let mut j: usize = 0;
    while j < m
        invariant
            j <= m,
            n == s@.len(),
            m == pat@.len(),
            i + m <= n,
            forall|k: int| 0 <= k < j ==> s@[i + k] == pat@[k],
        decreases m - j,
    {
        if s.get_char(i + j) != pat.get_char(j) {
            proof {
                assert(s@.subrange(i as int, i + pat@.len())[j as int] == s@[i + j]);
            }
            return false;
        }
        j = j + 1;
    }
    proof {
        assert(s@.subrange(i as int, i + pat@.len()) =~= pat@);
    }
    true
}

/// Whether `needle` occurs anywhere in `haystack`.
pub open spec fn spec_contains_sub(h: Seq<char>, n: Seq<char>) -> bool {
    exists|k: int|
        0 <= k && k + n.len() <= h.len() && #[trigger] h.subrange(k, k + n.len()) == n
}

pub fn contains_sub(haystack: &str, needle: &str) -> (r: bool)
    ensures
        r == spec_contains_sub(haystack@, needle@),
{
    let hn = haystack.unicode_len();
    let nn = needle.unicode_len();
    if nn > hn {
        return false;
    }
    if nn == 0 {
        proof {
            assert(haystack@.subrange(0, 0 + needle@.len() as int) =~= needle@);
        }
        return true;
    }
    let mut k: usize = 0;
    while k <= hn - nn
        invariant
            hn == haystack@.len(),
            nn == needle@.len(),
            1 <= nn <= hn,
            k <= hn - nn + 1,
            forall|j: int|
                0 <= j < k ==> #[trigger] haystack@.subrange(j, j + needle@.len()) != needle@,
        decreases hn - k,
    {
        if matches_at(haystack, needle, k) {
            return true;
        }
        k = k + 1;
    }
    false
}

/// `s` with every occurrence of the non-empty pattern `pat` removed,
/// scanning left to right without overlap.
pub open spec fn spec_remove_all(s: Seq<char>, pat: Seq<char>) -> Seq<char>
    decreases s.len(),
    when pat.len() > 0
{
    if s.len() < pat.len() {
        s
    } else if s.subrange(0, pat.len() as int) == pat {
        spec_remove_all(s.skip(pat.len() as int), pat)
    } else {
        seq![s[0]] + spec_remove_all(s.skip(1), pat)
    }
}

pub fn remove_all(s: &str, pat: &str) -> (r: String)
    requires
        pat@.len() > 0,
    ensures
        r@ == spec_remove_all(s@, pat@),
{
    let n = s.unicode_len();
    let m = pat.unicode_len();
    let mut out = String::new();
    let mut i: usize = 0;
    proof {
        assert(s@.skip(0) =~= s@);
    }
    while m <= n && i <= n - m
        invariant
            i <= n,
            n == s@.len(),
            m == pat@.len(),
            m > 0,
            spec_remove_all(s@, pat@) == out@ + spec_remove_all(s@.skip(i as int), pat@),
        decreases n - i,
    {
        let ghost rest = s@.skip(i as int);
        if matches_at(s, pat, i) {
            proof {
                assert(rest.subrange(0, m as int) =~= s@.subrange(i as int, i + m));
                assert(rest.skip(m as int) =~= s@.skip(i + m));
            }
            i = i + m;
        } else {
            let ghost out0 = out@;
            out.push(s.get_char(i));
            proof {
                assert(rest.subrange(0, m as int) =~= s@.subrange(i as int, i + m));
                assert(rest[0] == s@[i as int]);
                assert(rest.skip(1) =~= s@.skip(i + 1));
                assert(spec_remove_all(rest, pat@) == seq![s@[i as int]] + spec_remove_all(
                    s@.skip(i + 1),
                    pat@,
                ));
                assert(out@ =~= out0 + seq![s@[i as int]]);
                assert(out@ + spec_remove_all(s@.skip(i + 1), pat@) =~= out0 + (seq![s@[i as int]]
                    + spec_remove_all(s@.skip(i + 1), pat@)));
            }
            i = i + 1;
        }
    }
    // Fewer than `m` characters remain; they pass through unchanged.
    let ghost tail_start = i as int;
    while i < n
        invariant
            i <= n,
            n == s@.len(),
            m == pat@.len(),
            m > 0,
            tail_start <= i,
            n - tail_start < m,
            spec_remove_all(s@, pat@) == out@ + s@.skip(i as int),
        decreases n - i,
    {
        let ghost out0 = out@;
        out.push(s.get_char(i));
        proof {
            assert(s@.skip(i as int)[0] == s@[i as int]);
            assert(s@.skip(i as int) =~= seq![s@[i as int]] + s@.skip(i + 1));
            assert(out@ =~= out0 + seq![s@[i as int]]);
            assert(out@ + s@.skip(i + 1) =~= out0 + (seq![s@[i as int]] + s@.skip(i + 1)));
        }
        i = i + 1;
    }
    proof {
        assert(s@.skip(n as int) =~= Seq::<char>::empty());
        assert(out@ + Seq::<char>::empty() =~= out@);
    }
    out
}

/// The last index of `'/'` in `s`, or -1 when there is none.
pub open spec fn spec_last_slash(s: Seq<char>) -> int
    decreases s.len(),
{
    if s.len() == 0 {
        -1
    } else if s[s.len() - 1] == '/' {
        s.len() - 1
    } else {
        spec_last_slash(s.take(s.len() - 1))
    }
}

/// What follows the last `'/'`; the whole string when it has none.
pub open spec fn spec_after_last_slash(s: Seq<char>) -> Seq<char> {
    s.skip(spec_last_slash(s) + 1)
}

pub proof fn lemma_last_slash_range(s: Seq<char>)
    ensures
        -1 <= spec_last_slash(s) < s.len(),
    decreases s.len(),
{
    if s.len() > 0 && s[s.len() - 1] != '/' {
        lemma_last_slash_range(s.take(s.len() - 1));
    }
}

/// The suffix of `s` after its last `'/'`, or all of `s` without one.
pub fn after_last_slash<'a>(s: &'a str) -> (r: &'a str)
    ensures
        r@ == spec_after_last_slash(s@),
{
    let n = s.unicode_len();
    let mut idx: usize = n;
    proof {
        assert(s@.take(n as int) =~= s@);
    }
    while idx > 0
        invariant
            idx <= n,
            n == s@.len(),
            spec_last_slash(s@) == spec_last_slash(s@.take(idx as int)),
        decreases idx,
    {
        if s.get_char(idx - 1) == '/' {
            proof {
                assert(s@.take(idx as int)[idx - 1] == s@[idx - 1]);
                assert(spec_last_slash(s@.take(idx as int)) == idx - 1);
            }
            let r = s.substring_char(idx, n);
            proof {
                assert(r@ =~= s@.skip(idx as int));
            }
            return r;
        }
        proof {
            assert(s@.take(idx as int)[idx - 1] == s@[idx - 1]);
            assert(s@.take(idx as int).take(idx - 1) =~= s@.take(idx - 1));
        }
        idx = idx - 1;
    }
    proof {
        assert(s@.take(0) =~= Seq::<char>::empty());
        assert(spec_last_slash(s@) == -1);
        assert(s@.skip(0) =~= s@);
    }
    s
}


/// The decimal digit `d` as a character.
pub open spec fn spec_digit_char(d: int) -> char {
    ((48 + d) as u8) as char
}

/// The decimal digits of `n`, most significant first, no leading zeros
/// (a single zero for zero).
pub open spec fn spec_u64_string(n: int) -> Seq<char>
    decreases n,
{
    if n < 10 {
        seq![spec_digit_char(n)]
    } else {
        spec_u64_string(n / 10).push(spec_digit_char(n % 10))
    }
}

/// Format a number in decimal.
pub fn u64_to_string(n: u64) -> (r: String)
    ensures
        r@ == spec_u64_string(n as int),
{
    let mut rest = n;
    let mut low: Vec<char> = Vec::new();
    while rest >= 10
        invariant
            spec_u64_string(n as int) == spec_u64_string(rest as int) + low@.reverse(),
        decreases rest,
    {
        let d: char = (48 + (rest % 10) as u8) as char;
        let ghost low0 = low@;
        low.push(d);
        rest = rest / 10;
        proof {
            assert(low0.push(d).reverse() =~= seq![d] + low0.reverse());
            assert(spec_u64_string(rest as int).push(d) + low0.reverse() =~= spec_u64_string(
                rest as int,
            ) + (seq![d] + low0.reverse()));
        }
    }
    let mut out = String::new();
    out.push((48 + (rest % 10) as u8) as char);
    proof {
        assert(out@ =~= seq![spec_digit_char(rest as int)]);
    }
    let mut i: usize = low.len();
    while i > 0
        invariant
            i <= low@.len(),
            out@ =~= seq![spec_digit_char(rest as int)] + low@.reverse().take(
                low@.len() - i as int,
            ),
        decreases i,
    {
        i = i - 1;
        out.push(low[i]);
        proof {
            assert(low@.reverse()[low@.len() - i - 1] == low@[i as int]);
            assert(low@.reverse().take(low@.len() - i as int) =~= low@.reverse().take(
                low@.len() - i - 1,
            ).push(low@[i as int]));
        }
    }
    proof {
        assert(low@.reverse().take(low@.len() as int) =~= low@.reverse());
        assert(out@ =~= spec_u64_string(rest as int) + low@.reverse());
    }
    out
}

} // verus!
