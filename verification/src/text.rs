//! Small verified string utilities: equality, prefix and substring tests,
//! whitespace trimming, and joining a token list with single spaces.
//!
//! `&str` and `String` are viewed as `Seq<char>`; every function here has an
//! exact contract over those views.

use vstd::prelude::*;
use vstd::string::*;

verus! {

/// Relies on `String::push` from std: appends the given character to the end
/// of the string.
pub assume_specification[ String::push ](s: &mut String, ch: char)
    ensures
        final(s)@ == old(s)@.push(ch),
;

/// Character-wise string equality: true exactly when the two views are equal.
pub fn str_eq(a: &str, b: &str) -> (r: bool)
    ensures
        r == (a@ == b@),
{
    let alen = a.unicode_len();
    let blen = b.unicode_len();
    if alen != blen {
        return false;
    }
    let mut i: usize = 0;
    while i < alen
        invariant
            alen == a@.len(),
            blen == b@.len(),
            alen == blen,
            i <= alen,
            forall|j: int| 0 <= j < i ==> a@[j] == b@[j],
        decreases alen - i,
    {
        let ca = a.get_char(i);
        let cb = b.get_char(i);
        if ca != cb {
            return false;
        }
        i = i + 1;
    }
    proof {
        assert(a@ =~= b@);
    }
    true
}

/// True exactly when `prefix`'s view is a prefix of `s`'s view.
pub fn str_starts_with(s: &str, prefix: &str) -> (r: bool)
    ensures
        r == prefix@.is_prefix_of(s@),
{
    let plen = prefix.unicode_len();
    let slen = s.unicode_len();
    if plen > slen {
        return false;
    }
    let mut i: usize = 0;
    while i < plen
        invariant
            plen == prefix@.len(),
            slen == s@.len(),
            plen <= slen,
            i <= plen,
            forall|j: int| 0 <= j < i ==> s@[j] == prefix@[j],
        decreases plen - i,
    {
        if s.get_char(i) != prefix.get_char(i) {
            return false;
        }
        i = i + 1;
    }
    proof {
        assert(prefix@ =~= s@.subrange(0, prefix@.len() as int));
    }
    true
}

/// The needle occurs as a contiguous run somewhere in the haystack.
pub open spec fn spec_contains(hay: Seq<char>, needle: Seq<char>) -> bool {
    exists|i: int|
        0 <= i && i + needle.len() <= hay.len() && #[trigger] hay.subrange(i, i + needle.len())
            == needle
}

/// Checks whether `needle` matches `hay` at offset `at`.
fn check_match_at(hay: &str, needle: &str, at: usize) -> (r: bool)
    requires
        at + needle@.len() <= hay@.len(),
        hay@.len() <= usize::MAX,
    ensures
        r == (hay@.subrange(at as int, at + needle@.len()) == needle@),
{
    let nlen = needle.unicode_len();
    let mut j: usize = 0;
    while j < nlen
        invariant
            nlen == needle@.len(),
            at + nlen <= hay@.len() <= usize::MAX,
            j <= nlen,
            forall|k: int| 0 <= k < j ==> hay@[at + k] == needle@[k],
        decreases nlen - j,
    {
        if hay.get_char(at + j) != needle.get_char(j) {
            proof {
                assert(hay@.subrange(at as int, at + nlen)[j as int] != needle@[j as int]);
            }
            return false;
        }
        j = j + 1;
    }
    proof {
        assert(hay@.subrange(at as int, at + nlen) =~= needle@);
    }
    true
}

/// Substring search: true exactly when `needle` occurs in `hay`.
pub fn str_contains(hay: &str, needle: &str) -> (r: bool)
    ensures
        r == spec_contains(hay@, needle@),
{
    let hlen = hay.unicode_len();
    let nlen = needle.unicode_len();
    if nlen == 0 {
        proof {
            assert(hay@.subrange(0, 0 + needle@.len() as int) =~= needle@);
        }
        return true;
    }
    if nlen > hlen {
        return false;
    }
    let last = hlen - nlen;
    let mut i: usize = 0;
    while i <= last
        invariant
            hlen == hay@.len(),
            nlen == needle@.len(),
            1 <= nlen <= hlen,
            last == hlen - nlen,
            i <= last + 1,
            forall|k: int|
                0 <= k < i ==> #[trigger] hay@.subrange(k, k + needle@.len()) != needle@,
        decreases last + 1 - i,
    {
        if check_match_at(hay, needle, i) {
            return true;
        }
        i = i + 1;
    }
    false
}

/// Whether a character counts as horizontal or vertical whitespace for the
/// purposes of trimming an input line.
pub open spec fn is_blank_char(c: char) -> bool {
    c == ' ' || c == '\t' || c == '\r' || c == '\n'
}

/// `s` with leading blank characters removed.
pub open spec fn trim_front(s: Seq<char>) -> Seq<char>
    decreases s.len(),
{
    if s.len() > 0 && is_blank_char(s[0]) {
        trim_front(s.drop_first())
    } else {
        s
    }
}

/// `s` with trailing blank characters removed.
pub open spec fn trim_back(s: Seq<char>) -> Seq<char>
    decreases s.len(),
{
    if s.len() > 0 && is_blank_char(s.last()) {
        trim_back(s.drop_last())
    } else {
        s
    }
}

/// `s` with blank characters removed from both ends.
pub open spec fn spec_trim(s: Seq<char>) -> Seq<char> {
    trim_back(trim_front(s))
}

/// If the first `k` characters of `s` are blank and the `k`-th is not (or `s`
/// ends there), trimming the front of `s` drops exactly those `k` characters.
proof fn lemma_trim_front_is_skip(s: Seq<char>, k: int)
    requires
        0 <= k <= s.len(),
        forall|j: int| 0 <= j < k ==> is_blank_char(s[j]),
        k == s.len() || !is_blank_char(s[k]),
    ensures
        trim_front(s) == s.skip(k),
    decreases k,
{
    if k == 0 {
        assert(s.skip(0) =~= s);
    } else {
        lemma_trim_front_is_skip(s.drop_first(), k - 1);
        assert(s.drop_first().skip(k - 1) =~= s.skip(k));
    }
}

/// If the characters of `s` from `k` on are blank and the one before `k` is
/// not (or `s` starts there), trimming the back keeps exactly the first `k`.
proof fn lemma_trim_back_is_take(s: Seq<char>, k: int)
    requires
        0 <= k <= s.len(),
        forall|j: int| k <= j < s.len() ==> is_blank_char(s[j]),
        k == 0 || !is_blank_char(s[k - 1]),
    ensures
        trim_back(s) == s.take(k),
    decreases s.len() - k,
{
    if k == s.len() {
        assert(s.take(k) =~= s);
    } else {
        lemma_trim_back_is_take(s.drop_last(), k);
        assert(s.drop_last().take(k) =~= s.take(k));
    }
}

/// Whether `c` counts as blank for trimming.
fn is_blank(c: char) -> (r: bool)
    ensures
        r == is_blank_char(c),
{
    c == ' ' || c == '\t' || c == '\r' || c == '\n'
}

/// Removes blank characters from both ends of `s`.
pub fn trim_blanks(s: &str) -> (r: String)
    ensures
        r@ == spec_trim(s@),
{
    let len = s.unicode_len();
    let mut start: usize = 0;
    while start < len && is_blank(s.get_char(start))
        invariant
            len == s@.len(),
            start <= len,
            forall|j: int| 0 <= j < start ==> is_blank_char(s@[j]),
        decreases len - start,
    {
        start = start + 1;
    }
    let mut end: usize = len;
    while end > start && is_blank(s.get_char(end - 1))
        invariant
            len == s@.len(),
            start <= end <= len,
            forall|j: int| 0 <= j < start ==> is_blank_char(s@[j]),
            forall|j: int| end <= j < len ==> is_blank_char(s@[j]),
        decreases end,
    {
        end = end - 1;
    }
    let mut r = String::new();
    let mut i: usize = start;
    while i < end
        invariant
            len == s@.len(),
            start <= i <= end <= len,
            r@ =~= s@.subrange(start as int, i as int),
        decreases end - i,
    {
        r.push(s.get_char(i));
        i = i + 1;
    }
    proof {
        lemma_trim_front_is_skip(s@, start as int);
        if end == start {
            lemma_trim_back_is_take(s@.skip(start as int), 0);
        } else {
            lemma_trim_back_is_take(s@.skip(start as int), end - start);
        }
        assert(s@.skip(start as int).take(end - start) =~= s@.subrange(
            start as int,
            end as int,
        ));
        assert(r@ =~= s@.subrange(start as int, end as int));
    }
    r
}

/// The tokens joined back into one line with a single space between
/// neighbouring tokens.
pub open spec fn spec_join(ts: Seq<Seq<char>>) -> Seq<char>
    decreases ts.len(),
{
    if ts.len() == 0 {
        Seq::empty()
    } else if ts.len() == 1 {
        ts[0]
    } else {
        spec_join(ts.drop_last()) + seq![' '] + ts.last()
    }
}

/// Joins the tokens with single spaces.
pub fn join_tokens(tokens: &[String]) -> (r: String)
    ensures
        r@ == spec_join(tokens.deep_view()),
{
    let mut r = String::new();
    let mut i: usize = 0;
    while i < tokens.len()
        invariant
            i <= tokens@.len(),
            tokens.deep_view().len() == tokens@.len(),
            forall|j: int| 0 <= j < tokens@.len() ==> tokens.deep_view()[j] == tokens[j]@,
            r@ == spec_join(tokens.deep_view().take(i as int)),
        decreases tokens@.len() - i,
    {
        if i > 0 {
            r.push(' ');
        }
        r.append(tokens[i].as_str());
        proof {
            let full = tokens.deep_view();
            assert(full.take(i + 1).drop_last() =~= full.take(i as int));
            assert(full.take(i + 1).last() == full[i as int]);
            if i == 0 {
                assert(full.take(1) =~= seq![full[0]]);
            }
        }
        i = i + 1;
    }
    proof {
        assert(tokens.deep_view().take(tokens.deep_view().len() as int) =~= tokens.deep_view());
    }
    r
}

} // verus!
