//! Character-sequence utilities: lexicographic comparison, substring
//! search, and ASCII case folding, each with an exact specification.

use vstd::prelude::*;
use vstd::string::StrSliceExecFns;

verus! {

/// Three-way lexicographic comparison of two character sequences by
/// Unicode scalar value: -1, 0 or 1.
pub open spec fn chars_cmp(a: Seq<char>, b: Seq<char>) -> int
    decreases a.len(),
{
    if a.len() == 0 && b.len() == 0 {
        0
    } else if a.len() == 0 {
        -1
    } else if b.len() == 0 {
        1
    } else if (a[0] as int) < (b[0] as int) {
        -1
    } else if (a[0] as int) > (b[0] as int) {
        1
    } else {
        chars_cmp(a.drop_first(), b.drop_first())
    }
}

/// The comparison is antisymmetric: swapping the arguments flips the sign.
pub proof fn lemma_chars_cmp_antisym(a: Seq<char>, b: Seq<char>)
    ensures
        chars_cmp(a, b) == -chars_cmp(b, a),
    decreases a.len(),
{
    if a.len() != 0 && b.len() != 0 && a[0] as int == b[0] as int {
        lemma_chars_cmp_antisym(a.drop_first(), b.drop_first());
    }
}

/// Two sequences compare as equal exactly when they are equal.
pub proof fn lemma_chars_cmp_eq(a: Seq<char>, b: Seq<char>)
    ensures
        chars_cmp(a, b) == 0 <==> a == b,
    decreases a.len(),
{
    if a.len() == 0 && b.len() == 0 {
        assert(a =~= b);
    } else if a.len() != 0 && b.len() != 0 && a[0] as int == b[0] as int {
        lemma_chars_cmp_eq(a.drop_first(), b.drop_first());
        if chars_cmp(a, b) == 0 {
            assert(a[0] == b[0]);
            assert(a.drop_first() == b.drop_first());
            assert forall|i: int| 0 <= i < a.len() implies a[i] == b[i] by {
                if i > 0 {
                    assert(a[i] == a.drop_first()[i - 1]);
                    assert(b[i] == b.drop_first()[i - 1]);
                }
            }
            assert(a =~= b);
        }
        if a == b {
            assert(a.drop_first() =~= b.drop_first());
        }
    } else {
        if a == b {
            if a.len() != 0 {
                assert(a[0] == b[0]);
            }
        }
    }
}

/// The comparison is transitive, strictly so when either step is strict.
pub proof fn lemma_chars_cmp_trans(a: Seq<char>, b: Seq<char>, c: Seq<char>)
    ensures
        chars_cmp(a, b) <= 0 && chars_cmp(b, c) <= 0 ==> chars_cmp(a, c) <= 0,
        chars_cmp(a, b) < 0 && chars_cmp(b, c) <= 0 ==> chars_cmp(a, c) < 0,
        chars_cmp(a, b) <= 0 && chars_cmp(b, c) < 0 ==> chars_cmp(a, c) < 0,
    decreases a.len() + b.len() + c.len(),
{
    if a.len() != 0 && b.len() != 0 && c.len() != 0 && a[0] as int == b[0] as int && b[0] as int
        == c[0] as int {
        lemma_chars_cmp_trans(a.drop_first(), b.drop_first(), c.drop_first());
    }
}

/// Three-way lexicographic comparison of two strings, -1, 0 or 1.
pub fn str_cmp(a: &str, b: &str) -> (r: i32)
    ensures
        r as int == chars_cmp(a@, b@),
{
    let alen = a.unicode_len();
    let blen = b.unicode_len();
    let mut i: usize = 0;
    proof {
        assert(a@.skip(0) =~= a@);
        assert(b@.skip(0) =~= b@);
    }
    loop
        invariant
            i <= alen,
            i <= blen,
            alen == a@.len(),
            blen == b@.len(),
            chars_cmp(a@, b@) == chars_cmp(a@.skip(i as int), b@.skip(i as int)),
        decreases alen - i,
    {
        if i == alen && i == blen {
            return 0;
        }
        if i == alen {
            return -1;
        }
        if i == blen {
            return 1;
        }
        let ca = a.get_char(i) as u32;
        let cb = b.get_char(i) as u32;
        proof {
            assert(a@.skip(i as int)[0] == a@[i as int]);
            assert(b@.skip(i as int)[0] == b@[i as int]);
        }
        if ca < cb {
            return -1;
        }
        if ca > cb {
            return 1;
        }
        proof {
            assert(a@.skip(i as int).drop_first() =~= a@.skip(i as int + 1));
            assert(b@.skip(i as int).drop_first() =~= b@.skip(i as int + 1));
        }
        i = i + 1;
    }
}

/// Unicode scalar value of a character after ASCII case folding: the
/// letters `A` through `Z` map to their lower-case forms, everything else
/// is unchanged.
pub open spec fn lower_code(c: char) -> int {
    if 65 <= c as int <= 90 {
        c as int + 32
    } else {
        c as int
    }
}

/// Character equality, folded through ASCII case when `ci` is set.
pub open spec fn chars_match(a: char, b: char, ci: bool) -> bool {
    if ci {
        lower_code(a) == lower_code(b)
    } else {
        a == b
    }
}

/// Whether the characters at positions `i..i + p.len()` of `s` equal `p`,
/// folding ASCII case when `ci` is set.
pub open spec fn matches_at(s: Seq<char>, p: Seq<char>, i: int, ci: bool) -> bool {
    forall|j: int| 0 <= j < p.len() ==> chars_match(s[i + j], #[trigger] p[j], ci)
}

/// Whether `p` occurs as a contiguous substring of `s`, folding ASCII case
/// when `ci` is set. The empty pattern occurs in every sequence.
pub open spec fn has_sub(s: Seq<char>, p: Seq<char>, ci: bool) -> bool {
    exists|i: int| 0 <= i && i + p.len() <= s.len() && #[trigger] matches_at(s, p, i, ci)
}

/// Case-sensitive substring occurrence.
pub open spec fn has_substring(s: Seq<char>, p: Seq<char>) -> bool {
    has_sub(s, p, false)
}

/// ASCII-case-insensitive substring occurrence.
pub open spec fn has_substring_ci(s: Seq<char>, p: Seq<char>) -> bool {
    has_sub(s, p, true)
}

/// Substring search, optionally folding ASCII case.
fn search_sub(s: &str, p: &str, ci: bool) -> (r: bool)
    ensures
        r == has_sub(s@, p@, ci),
{
    let slen = s.unicode_len();
    let plen = p.unicode_len();
    if plen > slen {
        proof {
            assert(!has_sub(s@, p@, ci));
        }
        return false;
    }
    let mut i: usize = 0;
    while i <= slen - plen
        invariant
            plen <= slen,
            slen == s@.len(),
            plen == p@.len(),
            i <= slen - plen + 1,
            forall|k: int| 0 <= k < i ==> !matches_at(s@, p@, k, ci),
        decreases slen - plen - i + 1,
    {
        let mut j: usize = 0;
        let mut hit = true;
        while hit && j < plen
            invariant
                plen <= slen,
                slen == s@.len(),
                plen == p@.len(),
                i + plen <= slen,
                j <= plen,
                hit ==> forall|t: int| 0 <= t < j ==> chars_match(s@[i + t], #[trigger] p@[t], ci),
                !hit ==> !matches_at(s@, p@, i as int, ci),
            decreases plen - j + (if hit {
                1int
            } else {
                0int
            }),
        {
            let sc = s.get_char(i + j);
            let pc = p.get_char(j);
            let eq = if ci {
                let a = sc as u32;
                let b = pc as u32;
                let la = if 65 <= a && a <= 90 {
                    a + 32
                } else {
                    a
                };
                let lb = if 65 <= b && b <= 90 {
                    b + 32
                } else {
                    b
                };
                la == lb
            } else {
                sc == pc
            };
            if !eq {
                hit = false;
                proof {
                    assert(!chars_match(s@[i + j], p@[j as int], ci));
                    assert(!matches_at(s@, p@, i as int, ci));
                }
            } else {
                proof {
                    assert(chars_match(s@[i + j], p@[j as int], ci));
                }
                j = j + 1;
            }
        }
        if hit {
            proof {
                assert(matches_at(s@, p@, i as int, ci));
            }
            return true;
        }
        i = i + 1;
    }
    proof {
        assert(forall|k: int| 0 <= k && k + p@.len() <= s@.len() ==> !matches_at(s@, p@, k, ci));
    }
    false
}

/// Whether `p` occurs as a substring of `s`.
pub fn contains_sub(s: &str, p: &str) -> (r: bool)
    ensures
        r == has_substring(s@, p@),
{
    search_sub(s, p, false)
}

/// Whether `p` occurs as a substring of `s` up to ASCII case.
pub fn contains_sub_ci(s: &str, p: &str) -> (r: bool)
    ensures
        r == has_substring_ci(s@, p@),
{
    search_sub(s, p, true)
}

/// Whole-string equality up to ASCII case.
pub open spec fn eq_ci(a: Seq<char>, b: Seq<char>) -> bool {
    a.len() == b.len() && matches_at(a, b, 0, true)
}

/// Whether two strings are equal up to ASCII case.
pub fn equals_ci(a: &str, b: &str) -> (r: bool)
    ensures
        r == eq_ci(a@, b@),
{
    let alen = a.unicode_len();
    let blen = b.unicode_len();
    if alen != blen {
        return false;
    }
    let mut j: usize = 0;
    while j < alen
        invariant
            j <= alen,
            alen == a@.len(),
            alen == b@.len(),
            forall|t: int| 0 <= t < j ==> chars_match(a@[t], #[trigger] b@[t], true),
        decreases alen - j,
    {
        let ca = a.get_char(j) as u32;
        let cb = b.get_char(j) as u32;
        let la = if 65 <= ca && ca <= 90 {
            ca + 32
        } else {
            ca
        };
        let lb = if 65 <= cb && cb <= 90 {
            cb + 32
        } else {
            cb
        };
        if la != lb {
            proof {
                assert(!chars_match(a@[j as int], b@[j as int], true));
            }
            return false;
        }
        proof {
            assert(chars_match(a@[j as int], b@[j as int], true));
        }
        j = j + 1;
    }
    proof {
        assert(matches_at(a@, b@, 0, true));
    }
    true
}

/// Least index at or after `i` where `c` occurs in `s`; `s.len()` when `c`
/// does not occur there.
pub open spec fn find_from(s: Seq<char>, c: char, i: int) -> int
    decreases s.len() - i when 0 <= i <= s.len()
{
    if i >= s.len() {
        s.len() as int
    } else if s[i] == c {
        i
    } else {
        find_from(s, c, i + 1)
    }
}

/// The found position is in range, holds `c` if in range, and nothing
/// before it (at or after `i`) holds `c`.
pub proof fn lemma_find_from(s: Seq<char>, c: char, i: int)
    requires
        0 <= i <= s.len(),
    ensures
        i <= find_from(s, c, i) <= s.len(),
        find_from(s, c, i) < s.len() ==> s[find_from(s, c, i)] == c,
        forall|k: int| i <= k < find_from(s, c, i) ==> s[k] != c,
    decreases s.len() - i,
{
    if i < s.len() && s[i] != c {
        lemma_find_from(s, c, i + 1);
    }
}

/// Index of the first occurrence of `c` at or after position `from`;
/// the string length when there is none.
pub fn find_char_from(s: &str, c: char, from: usize) -> (r: usize)
    requires
        from <= s@.len(),
    ensures
        r as int == find_from(s@, c, from as int),
{
    let len = s.unicode_len();
    let mut i = from;
    while i < len
        invariant
            from <= i <= len,
            len == s@.len(),
            find_from(s@, c, from as int) == find_from(s@, c, i as int),
        decreases len - i,
    {
        if s.get_char(i) == c {
            return i;
        }
        i = i + 1;
    }
    len
}

/// Whether every character of `s` is an ASCII decimal digit.
pub open spec fn all_digits(s: Seq<char>) -> bool {
    forall|k: int| 0 <= k < s.len() ==> 48 <= (#[trigger] s[k]) as int <= 57
}

/// Reports whether the string consists solely of ASCII digits (an empty
/// string qualifies).
pub fn is_all_digits(s: &str) -> (r: bool)
    ensures
        r == all_digits(s@),
{
    let len = s.unicode_len();
    let mut i: usize = 0;
    while i < len
        invariant
            i <= len,
            len == s@.len(),
            forall|k: int| 0 <= k < i ==> 48 <= (#[trigger] s@[k]) as int <= 57,
        decreases len - i,
    {
        let c = s.get_char(i) as u32;
        if c < 48 || c > 57 {
            return false;
        }
        i = i + 1;
    }
    true
}

/// ASCII whitespace: space, tab, carriage return, line feed.
pub open spec fn is_space(c: char) -> bool {
    c == ' ' || c == '\t' || c == '\r' || c == '\n'
}

/// Whether the sequence holds nothing but ASCII whitespace.
pub open spec fn all_space(s: Seq<char>) -> bool {
    forall|k: int| 0 <= k < s.len() ==> is_space(#[trigger] s[k])
}

/// Reports whether the string is blank: empty or ASCII whitespace only.
pub fn is_blank(s: &str) -> (r: bool)
    ensures
        r == all_space(s@),
{
    let len = s.unicode_len();
    let mut i: usize = 0;
    while i < len
        invariant
            i <= len,
            len == s@.len(),
            forall|k: int| 0 <= k < i ==> is_space(#[trigger] s@[k]),
        decreases len - i,
    {
        let c = s.get_char(i);
        if !(c == ' ' || c == '\t' || c == '\r' || c == '\n') {
            return false;
        }
        i = i + 1;
    }
    true
}

} // verus!
