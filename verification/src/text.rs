//! Character-level string utilities shared by the validation and parsing
//! code: exact and ASCII-case-insensitive comparison, whitespace detection,
//! and substring search.

use vstd::prelude::*;
use vstd::string::StrSliceExecFns;

verus! {

/// The ASCII-lowercased form of a character: `'A'..='Z'` map to
/// `'a'..='z'`, everything else is unchanged.
pub open spec fn lower_char(c: char) -> char {
    if 'A' <= c && c <= 'Z' {
        ((c as u8) + 32) as char
    } else {
        c
    }
}

/// A string lowered character by character, ASCII letters only.
pub open spec fn lower_chars(s: Seq<char>) -> Seq<char> {
    s.map_values(|c: char| lower_char(c))
}

/// Whitespace characters, following the Unicode `White_Space` property.
pub open spec fn is_space_char(c: char) -> bool {
    c == ' ' || c == '\t' || c == '\n' || c == '\r' || c == '\u{b}' || c == '\u{c}'
        || c == '\u{85}' || c == '\u{a0}' || c == '\u{1680}'
        || ('\u{2000}' <= c && c <= '\u{200a}') || c == '\u{2028}' || c == '\u{2029}'
        || c == '\u{202f}' || c == '\u{205f}' || c == '\u{3000}'
}

/// True exactly when the two strings hold the same characters.
pub fn str_eq(a: &str, b: &str) -> (r: bool)
    ensures
        r <==> a@ == b@,
{
    let alen = a.unicode_len();
    let blen = b.unicode_len();
    if alen != blen {
        return false;
    }
    let mut i: usize = 0;
    while i < alen
        invariant
            i <= alen,
            alen == a@.len(),
            alen == b@.len(),
            forall|j: int| 0 <= j < i ==> a@[j] == b@[j],
        decreases alen - i,
    {
        if a.get_char(i) != b.get_char(i) {
            return false;
        }
        i = i + 1;
    }
    proof {
        assert(a@ =~= b@);
    }
    true
}

/// True exactly when the two strings agree after ASCII lowercasing.
pub fn str_eq_ignore_ascii_case(a: &str, b: &str) -> (r: bool)
    ensures
        r <==> lower_chars(a@) == lower_chars(b@),
{
    let alen = a.unicode_len();
    let blen = b.unicode_len();
    if alen != blen {
        proof {
            assert(lower_chars(a@).len() == a@.len());
            assert(lower_chars(b@).len() == b@.len());
        }
        return false;
    }
    let mut i: usize = 0;
    while i < alen
        invariant
            i <= alen,
            alen == a@.len(),
            alen == b@.len(),
            forall|j: int| 0 <= j < i ==> lower_char(a@[j]) == lower_char(b@[j]),
        decreases alen - i,
    {
        let ca = lower_char_exec(a.get_char(i));
        let cb = lower_char_exec(b.get_char(i));
        if ca != cb {
            proof {
                assert(lower_chars(a@)[i as int] != lower_chars(b@)[i as int]);
            }
            return false;
        }
        i = i + 1;
    }
    proof {
        assert(lower_chars(a@) =~= lower_chars(b@));
    }
    true
}

/// The executable counterpart of [`lower_char`].
pub fn lower_char_exec(c: char) -> (r: char)
    ensures
        r == lower_char(c),
{
    if 'A' <= c && c <= 'Z' {
        ((c as u8) + 32) as char
    } else {
        c
    }
}

/// True exactly when some character of `s` is whitespace.
pub fn has_whitespace(s: &str) -> (r: bool)
    ensures
        r <==> exists|j: int| 0 <= j < s@.len() && is_space_char(s@[j]),
{
    let n = s.unicode_len();
    let mut i: usize = 0;
    while i < n
        invariant
            i <= n,
            n == s@.len(),
            forall|j: int| 0 <= j < i ==> !is_space_char(s@[j]),
        decreases n - i,
    {
        if is_space_char_exec(s.get_char(i)) {
            return true;
        }
        i = i + 1;
    }
    false
}

/// The executable counterpart of [`is_space_char`].
pub fn is_space_char_exec(c: char) -> (r: bool)
    ensures
        r == is_space_char(c),
{
    c == ' ' || c == '\t' || c == '\n' || c == '\r' || c == '\u{b}' || c == '\u{c}'
        || c == '\u{85}' || c == '\u{a0}' || c == '\u{1680}'
        || ('\u{2000}' <= c && c <= '\u{200a}') || c == '\u{2028}' || c == '\u{2029}'
        || c == '\u{202f}' || c == '\u{205f}' || c == '\u{3000}'
}

/// True exactly when `needle` occurs as a substring of `hay`, compared
/// after ASCII lowercasing.
pub fn contains_substr_ci(hay: &str, needle: &str) -> (r: bool)
    ensures
        r <==> contains_seq(lower_chars(hay@), lower_chars(needle@)),
{
    let hlen = hay.unicode_len();
    let nlen = needle.unicode_len();
    proof {
        assert(lower_chars(hay@).len() == hay@.len());
        assert(lower_chars(needle@).len() == needle@.len());
    }
    if nlen > hlen {
        return false;
    }
    if nlen == 0 {
        proof {
            assert(lower_chars(hay@).subrange(0, 0 + lower_chars(needle@).len() as int)
                =~= lower_chars(needle@));
        }
        return true;
    }
    let mut k: usize = 0;
    while k <= hlen - nlen
        invariant
            hlen == hay@.len(),
            nlen == needle@.len(),
            0 < nlen <= hlen,
            k <= hlen - nlen + 1,
            forall|j: int|
                0 <= j < k ==> #[trigger] lower_chars(hay@).subrange(
                    j,
                    j + nlen as int,
                ) != lower_chars(needle@),
        decreases hlen - nlen - k + 1,
    {
        if match_at_ci(hay, needle, k) {
            proof {
                assert(lower_chars(hay@).subrange(
                    k as int,
                    k as int + lower_chars(needle@).len() as int,
                ) == lower_chars(needle@));
            }
            return true;
        }
        k = k + 1;
    }
    false
}

/// True exactly when `needle` matches `hay` at position `k`, compared
/// after ASCII lowercasing.
fn match_at_ci(hay: &str, needle: &str, k: usize) -> (r: bool)
    requires
        k + needle@.len() <= hay@.len(),
    ensures
        r <==> lower_chars(hay@).subrange(k as int, k + needle@.len() as int) == lower_chars(
            needle@,
        ),
{
    let hlen = hay.unicode_len();
    let nlen = needle.unicode_len();
    let mut i: usize = 0;
    while i < nlen
        invariant
            i <= nlen,
            hlen == hay@.len(),
            nlen == needle@.len(),
            k + nlen <= hlen,
            forall|j: int| 0 <= j < i ==> lower_char(hay@[k + j]) == lower_char(needle@[j]),
        decreases nlen - i,
    {
        let ca = lower_char_exec(hay.get_char(k + i));
        let cb = lower_char_exec(needle.get_char(i));
        if ca != cb {
            proof {
                let ii = i as int;
                assert(lower_chars(hay@)[k + ii] == lower_char(hay@[k + ii]));
                assert(lower_chars(needle@)[ii] == lower_char(needle@[ii]));
                assert(lower_chars(hay@).subrange(k as int, k + needle@.len() as int)[ii]
                    != lower_chars(needle@)[ii]);
            }
            return false;
        }
        i = i + 1;
    }
    proof {
        assert(lower_chars(hay@).subrange(k as int, k + needle@.len() as int) =~= lower_chars(
            needle@,
        )) by {
            assert forall|j: int| 0 <= j < needle@.len() implies lower_chars(hay@).subrange(
                k as int,
                k + needle@.len() as int,
            )[j] == lower_chars(needle@)[j] by {
                assert(lower_chars(hay@)[k + j] == lower_char(hay@[k + j]));
                assert(lower_chars(needle@)[j] == lower_char(needle@[j]));
            }
        }
    }
    true
}

/// Lexicographic order on character sequences: the empty string first,
/// then by the first differing character.
pub open spec fn chars_le(a: Seq<char>, b: Seq<char>) -> bool
    decreases a.len(),
{
    if a.len() == 0 {
        true
    } else if b.len() == 0 {
        false
    } else if a[0] == b[0] {
        chars_le(a.drop_first(), b.drop_first())
    } else {
        a[0] < b[0]
    }
}

/// The order is total: one of the two directions always holds.
pub proof fn lemma_chars_le_total(a: Seq<char>, b: Seq<char>)
    ensures
        chars_le(a, b) || chars_le(b, a),
    decreases a.len(),
{
    if a.len() != 0 && b.len() != 0 && a[0] == b[0] {
        lemma_chars_le_total(a.drop_first(), b.drop_first());
    }
}

/// The order is transitive.
pub proof fn lemma_chars_le_trans(a: Seq<char>, b: Seq<char>, c: Seq<char>)
    requires
        chars_le(a, b),
        chars_le(b, c),
    ensures
        chars_le(a, c),
    decreases a.len(),
{
    if a.len() != 0 && b.len() != 0 && c.len() != 0 && a[0] == b[0] && b[0] == c[0] {
        lemma_chars_le_trans(a.drop_first(), b.drop_first(), c.drop_first());
    }
}

/// Dropping an equal prefix does not change the order.
proof fn lemma_chars_le_skip(a: Seq<char>, b: Seq<char>, i: int)
    requires
        0 <= i <= a.len(),
        i <= b.len(),
        forall|j: int| 0 <= j < i ==> a[j] == b[j],
    ensures
        chars_le(a, b) == chars_le(a.skip(i), b.skip(i)),
    decreases i,
{
    if i == 0 {
        assert(a.skip(0) =~= a);
        assert(b.skip(0) =~= b);
    } else {
        assert(a[0] == b[0]);
        assert(a.drop_first().skip(i - 1) =~= a.skip(i));
        assert(b.drop_first().skip(i - 1) =~= b.skip(i));
        assert forall|j: int| 0 <= j < i - 1 implies a.drop_first()[j] == b.drop_first()[j] by {
            assert(a[j + 1] == b[j + 1]);
        }
        lemma_chars_le_skip(a.drop_first(), b.drop_first(), i - 1);
    }
}

/// True exactly when `a` comes no later than `b` in lexicographic order.
pub fn str_le(a: &str, b: &str) -> (r: bool)
    ensures
        r == chars_le(a@, b@),
{
    let alen = a.unicode_len();
    let blen = b.unicode_len();
    let mut i: usize = 0;
    while i < alen && i < blen
        invariant
            i <= alen,
            i <= blen,
            alen == a@.len(),
            blen == b@.len(),
            forall|j: int| 0 <= j < i ==> a@[j] == b@[j],
        decreases alen - i,
    {
        let ca = a.get_char(i);
        let cb = b.get_char(i);
        if ca != cb {
            proof {
                lemma_chars_le_skip(a@, b@, i as int);
                assert(a@.skip(i as int)[0] == ca);
                assert(b@.skip(i as int)[0] == cb);
            }
            return ca < cb;
        }
        i = i + 1;
    }
    proof {
        lemma_chars_le_skip(a@, b@, i as int);
    }
    if i >= alen {
        proof {
            assert(a@.skip(i as int).len() == 0);
        }
        true
    } else {
        proof {
            assert(b@.skip(i as int).len() == 0);
            assert(a@.skip(i as int).len() > 0);
        }
        false
    }
}

/// `needle` occurs as a contiguous run of characters inside `hay`.
pub open spec fn contains_seq(hay: Seq<char>, needle: Seq<char>) -> bool {
    exists|k: int|
        0 <= k && k + needle.len() <= hay.len() && #[trigger] hay.subrange(
            k,
            k + needle.len() as int,
        ) == needle
}

/// True exactly when `needle` occurs as a substring of `hay`.
pub fn contains_substr(hay: &str, needle: &str) -> (r: bool)
    ensures
        r <==> contains_seq(hay@, needle@),
{
    let hlen = hay.unicode_len();
    let nlen = needle.unicode_len();
    if nlen > hlen {
        return false;
    }
    if nlen == 0 {
        proof {
            assert(hay@.subrange(0, 0 + needle@.len() as int) =~= needle@);
        }
        return true;
    }
    let mut k: usize = 0;
    while k <= hlen - nlen
        invariant
            hlen == hay@.len(),
            nlen == needle@.len(),
            0 < nlen <= hlen,
            k <= hlen - nlen + 1,
            forall|j: int|
                0 <= j < k ==> #[trigger] hay@.subrange(j, j + nlen as int) != needle@,
        decreases hlen - nlen - k + 1,
    {
        if match_at(hay, needle, k) {
            return true;
        }
        k = k + 1;
    }
    false
}

/// True exactly when `needle` matches `hay` starting at position `k`.
fn match_at(hay: &str, needle: &str, k: usize) -> (r: bool)
    requires
        k + needle@.len() <= hay@.len(),
    ensures
        r <==> hay@.subrange(k as int, k + needle@.len() as int) == needle@,
{
    let hlen = hay.unicode_len();
    let nlen = needle.unicode_len();
    let mut i: usize = 0;
    while i < nlen
        invariant
            i <= nlen,
            hlen == hay@.len(),
            nlen == needle@.len(),
            k + nlen <= hlen,
            forall|j: int| 0 <= j < i ==> hay@[k + j] == needle@[j],
        decreases nlen - i,
    {
        if hay.get_char(k + i) != needle.get_char(i) {
            proof {
                let ii = i as int;
                assert(hay@.subrange(k as int, k + needle@.len() as int)[ii] != needle@[ii]);
            }
            return false;
        }
        i = i + 1;
    }
    proof {
        assert(hay@.subrange(k as int, k + needle@.len() as int) =~= needle@);
    }
    true
}

} // verus!
