//! Line-oriented text machinery for the configuration files: splitting
//! into lines, trimming, joining, and integer parsing, each with an exact
//! specification.

use vstd::prelude::*;
use vstd::string::StrSliceExecFns;
use vstd::string::StringExecFns;

use crate::monitor::line_views;
use crate::text::{find_from, is_space, lemma_find_from};

verus! {

/// The lines of a text: maximal runs between newline characters. A text
/// without a trailing newline still ends its last line; an empty text has
/// no lines.
pub open spec fn spec_lines(s: Seq<char>) -> Seq<Seq<char>>
    decreases s.len(),
    via spec_lines_dec
{
    if s.len() == 0 {
        Seq::empty()
    } else {
        let nl = find_from(s, '\n', 0);
        if nl == s.len() {
            seq![s]
        } else {
            seq![s.subrange(0, nl)] + spec_lines(s.subrange(nl + 1, s.len() as int))
        }
    }
}

#[via_fn]
proof fn spec_lines_dec(s: Seq<char>) {
    if s.len() > 0 {
        lemma_find_from(s, '\n', 0);
    }
}

/// Scanning one position further costs one step of the found index.
proof fn lemma_find_drop(s: Seq<char>, c: char, i: int)
    requires
        0 <= i,
        i <= s.len() - 1,
    ensures
        find_from(s, c, i + 1) == 1 + find_from(s.drop_first(), c, i),
    decreases s.len() - i,
{
    if i + 1 >= s.len() {
    } else if s[i + 1] == c {
        assert(s.drop_first()[i] == s[i + 1]);
    } else {
        assert(s.drop_first()[i] == s[i + 1]);
        lemma_find_drop(s, c, i + 1);
    }
}

/// Searching from a position equals searching the suffix from its start.
pub proof fn lemma_find_skip(s: Seq<char>, c: char, pos: int)
    requires
        0 <= pos <= s.len(),
    ensures
        find_from(s, c, pos) == pos + find_from(s.skip(pos), c, 0),
    decreases s.len() - pos,
{
    let t = s.skip(pos);
    if pos >= s.len() {
    } else if s[pos] == c {
        assert(t[0] == s[pos]);
    } else {
        assert(t[0] == s[pos]);
        lemma_find_skip(s, c, pos + 1);
        assert(t.drop_first() =~= s.skip(pos + 1));
        lemma_find_drop(t, c, 0);
    }
}

/// Splits a text into its lines.
pub fn split_lines(s: &str) -> (r: Vec<String>)
    ensures
        line_views(r@) =~= spec_lines(s@),
{
    let len = s.unicode_len();
    let mut out: Vec<String> = Vec::new();
    let mut pos: usize = 0;
    proof {
        assert(s@.skip(0) =~= s@);
        assert(line_views(out@) =~= Seq::<Seq<char>>::empty());
    }
    while pos < len
        invariant
            pos <= len,
            len == s@.len(),
            spec_lines(s@) =~= line_views(out@) + spec_lines(s@.skip(pos as int)),
        decreases len - pos,
    {
        let ghost suffix = s@.skip(pos as int);
        let nl = crate::text::find_char_from(s, '\n', pos);
        proof {
            lemma_find_skip(s@, '\n', pos as int);
            lemma_find_from(s@, '\n', pos as int);
            assert(find_from(suffix, '\n', 0) == nl - pos);
        }
        if nl == len {
            out.push(String::from_str(s.substring_char(pos, len)));
            proof {
                assert(spec_lines(suffix) =~= seq![suffix]);
                assert(s@.subrange(pos as int, len as int) =~= suffix);
                assert(line_views(out@) =~= (line_views(out@).drop_last()).push(suffix));
                assert(line_views(out@) + spec_lines(s@.skip(len as int)) =~= line_views(out@));
                assert(spec_lines(s@) =~= line_views(out@) + spec_lines(s@.skip(len as int)));
            }
            pos = len;
        } else {
            let ghost out0 = line_views(out@);
            out.push(String::from_str(s.substring_char(pos, nl)));
            proof {
                let first = suffix.subrange(0, nl - pos as int);
                let rest = suffix.subrange(nl - pos as int + 1, suffix.len() as int);
                assert(spec_lines(suffix) =~= seq![first] + spec_lines(rest));
                assert(s@.subrange(pos as int, nl as int) =~= first);
                assert(rest =~= s@.skip(nl as int + 1));
                assert(line_views(out@) =~= out0.push(first));
                assert(out0.push(first) + spec_lines(rest) =~= out0 + (seq![first] + spec_lines(
                    rest,
                )));
                assert(spec_lines(s@) =~= line_views(out@) + spec_lines(s@.skip(nl as int + 1)));
            }
            pos = nl + 1;
        }
    }
    proof {
        assert(spec_lines(s@.skip(len as int)) =~= Seq::<Seq<char>>::empty());
        assert(line_views(out@) + spec_lines(s@.skip(len as int)) =~= line_views(out@));
    }
    out
}

/// The text with its leading whitespace removed.
pub open spec fn trim_start_rec(s: Seq<char>) -> Seq<char>
    decreases s.len(),
{
    if s.len() == 0 {
        s
    } else if is_space(s.first()) {
        trim_start_rec(s.drop_first())
    } else {
        s
    }
}

/// The text with its trailing whitespace removed.
pub open spec fn trim_end_rec(s: Seq<char>) -> Seq<char>
    decreases s.len(),
{
    if s.len() == 0 {
        s
    } else if is_space(s.last()) {
        trim_end_rec(s.drop_last())
    } else {
        s
    }
}

/// The text with whitespace removed from both ends.
pub open spec fn spec_trim(s: Seq<char>) -> Seq<char> {
    trim_end_rec(trim_start_rec(s))
}

/// Trims ASCII whitespace from both ends.
pub fn trim(s: &str) -> (r: String)
    ensures
        r@ == spec_trim(s@),
{
    let len = s.unicode_len();
    let mut a: usize = 0;
    proof {
        assert(s@.skip(0) =~= s@);
    }
    while a < len && is_space_char(s.get_char(a))
        invariant
            a <= len,
            len == s@.len(),
            trim_start_rec(s@) =~= trim_start_rec(s@.skip(a as int)),
        decreases len - a,
    {
        proof {
            assert(s@.skip(a as int).first() == s@[a as int]);
            assert(s@.skip(a as int).drop_first() =~= s@.skip(a as int + 1));
        }
        a = a + 1;
    }
    proof {
        if a < len {
            assert(s@.skip(a as int).first() == s@[a as int]);
            assert(trim_start_rec(s@.skip(a as int)) =~= s@.skip(a as int));
        } else {
            assert(s@.skip(a as int).len() == 0);
        }
        assert(trim_start_rec(s@) =~= s@.skip(a as int));
    }
    let mut b: usize = len;
    proof {
        assert(s@.subrange(a as int, b as int) =~= s@.skip(a as int));
    }
    while b > a && is_space_char(s.get_char(b - 1))
        invariant
            a <= b <= len,
            len == s@.len(),
            trim_start_rec(s@) =~= s@.skip(a as int),
            trim_end_rec(s@.skip(a as int)) =~= trim_end_rec(s@.subrange(a as int, b as int)),
        decreases b,
    {
        proof {
            assert(s@.subrange(a as int, b as int).last() == s@[b - 1]);
            assert(s@.subrange(a as int, b as int).drop_last() =~= s@.subrange(
                a as int,
                b - 1,
            ));
        }
        b = b - 1;
    }
    proof {
        if b > a {
            assert(s@.subrange(a as int, b as int).last() == s@[b - 1]);
            assert(trim_end_rec(s@.subrange(a as int, b as int)) =~= s@.subrange(
                a as int,
                b as int,
            ));
        } else {
            assert(s@.subrange(a as int, b as int).len() == 0);
        }
        assert(spec_trim(s@) =~= s@.subrange(a as int, b as int));
    }
    String::from_str(s.substring_char(a, b))
}

/// ASCII whitespace test on one character.
fn is_space_char(c: char) -> (r: bool)
    ensures
        r == is_space(c),
{
    c == ' ' || c == '\t' || c == '\r' || c == '\n'
}

/// The lines joined back with newlines: the inverse of [`spec_lines`] up
/// to a trailing newline.
pub open spec fn spec_join(lines: Seq<Seq<char>>) -> Seq<char>
    decreases lines.len(),
{
    if lines.len() == 0 {
        Seq::empty()
    } else if lines.len() == 1 {
        lines[0]
    } else {
        spec_join(lines.drop_last()) + seq!['\n'] + lines.last()
    }
}

/// Joins lines with newlines.
pub fn join_lines(v: &Vec<String>) -> (r: String)
    ensures
        r@ == spec_join(line_views(v@)),
{
    let mut out = String::new();
    let mut i: usize = 0;
    proof {
        assert(line_views(v@).take(0) =~= Seq::<Seq<char>>::empty());
        assert(out@ =~= spec_join(line_views(v@).take(0)));
    }
    while i < v.len()
        invariant
            i <= v@.len(),
            out@ =~= spec_join(line_views(v@).take(i as int)),
        decreases v@.len() - i,
    {
        let ghost pre = line_views(v@).take(i as int);
        let ghost cur = line_views(v@).take(i as int + 1);
        proof {
            assert(cur.drop_last() =~= pre);
            assert(cur.last() == v@[i as int]@);
        }
        if i == 0 {
            out.append(v[0].as_str());
            proof {
                assert(cur.len() == 1);
                assert(cur[0] == v@[0]@);
                assert(out@ =~= spec_join(cur));
            }
        } else {
            out.append("\n");
            out.append(v[i].as_str());
            proof {
                assert(cur.len() > 1);
                assert(out@ =~= spec_join(pre) + "\n"@ + v@[i as int]@);
                assert("\n"@ =~= seq!['\n']) by {
                    reveal_strlit("\n");
                }
                assert(out@ =~= spec_join(cur));
            }
        }
        i = i + 1;
    }
    proof {
        assert(line_views(v@).take(v@.len() as int) =~= line_views(v@));
    }
    out
}

/// Numeric value of a digit run, most significant first.
pub open spec fn digits_val(s: Seq<char>) -> int
    decreases s.len(),
{
    if s.len() == 0 {
        0
    } else {
        digits_val(s.drop_last()) * 10 + (s.last() as int - 48)
    }
}

/// A digit run's value never goes negative.
proof fn lemma_digits_val_nonneg(s: Seq<char>)
    requires
        crate::text::all_digits(s),
    ensures
        digits_val(s) >= 0,
    decreases s.len(),
{
    if s.len() > 0 {
        lemma_digits_val_nonneg(s.drop_last());
    }
}

/// The signed decimal integer a text names, if it is one that fits the
/// 32-bit range: an optional sign, then at least one digit.
pub open spec fn spec_parse_i32(s: Seq<char>) -> Option<int> {
    let neg = s.len() > 0 && s[0] == '-';
    let digits = if s.len() > 0 && (s[0] == '-' || s[0] == '+') {
        s.drop_first()
    } else {
        s
    };
    if digits.len() == 0 || !crate::text::all_digits(digits) {
        None
    } else {
        let v = if neg {
            -digits_val(digits)
        } else {
            digits_val(digits)
        };
        if i32::MIN <= v <= i32::MAX {
            Some(v)
        } else {
            None
        }
    }
}

/// A malformed digit run parses to nothing.
proof fn lemma_spi_malformed(s: Seq<char>)
    requires
        s.len() > 0,
        ({
            let digits = if s[0] == '-' || s[0] == '+' {
                s.drop_first()
            } else {
                s
            };
            digits.len() == 0 || !crate::text::all_digits(digits)
        }),
    ensures
        spec_parse_i32(s) is None,
{
}

/// A digit run past the 32-bit range parses to nothing.
proof fn lemma_spi_out_of_range(s: Seq<char>)
    requires
        s.len() > 0,
        ({
            let digits = if s[0] == '-' || s[0] == '+' {
                s.drop_first()
            } else {
                s
            };
            digits.len() > 0 && (crate::text::all_digits(digits) ==> digits_val(digits)
                > 0x8000_0000)
        }),
    ensures
        spec_parse_i32(s) is None,
{
}

/// Parses a signed decimal 32-bit integer, rejecting anything malformed
/// or out of range.
pub fn parse_i32(s: &str) -> (r: Option<i32>)
    ensures
        (match r {
            Some(v) => spec_parse_i32(s@) == Some(v as int),
            None => spec_parse_i32(s@) is None,
        }),
{
    let len = s.unicode_len();
    if len == 0 {
        return None;
    }
    let c0 = s.get_char(0);
    let neg = c0 == '-';
    let start: usize = if c0 == '-' || c0 == '+' {
        1
    } else {
        0
    };
    let ghost digits = if s@[0] == '-' || s@[0] == '+' {
        s@.drop_first()
    } else {
        s@
    };
    proof {
        assert(digits =~= s@.skip(start as int));
    }
    if len == start {
        return None;
    }
    let mut acc: i64 = 0;
    let mut i: usize = start;
    proof {
        assert(digits.take(0) =~= Seq::<char>::empty());
    }
    while i < len
        invariant
            start <= i <= len,
            len == s@.len(),
            s@.len() > 0,
            start as int == (if s@[0] == '-' || s@[0] == '+' {
                1int
            } else {
                0int
            }),
            digits == (if s@[0] == '-' || s@[0] == '+' {
                s@.drop_first()
            } else {
                s@
            }),
            digits =~= s@.skip(start as int),
            crate::text::all_digits(digits.take(i - start as int)),
            acc == digits_val(digits.take(i - start as int)),
            0 <= acc <= 0x8000_0000,
        decreases len - i,
    {
        let c = s.get_char(i) as u32;
        if c < 48 || c > 57 {
            proof {
                assert(digits[i - start as int] == s@[i as int]);
                assert(!(48 <= (s@[i as int]) as int <= 57));
                assert(!crate::text::all_digits(digits));
                lemma_spi_malformed(s@);
            }
            return None;
        }
        let d: i64 = (c - 48) as i64;
        let ghost pre = digits.take(i - start as int);
        let ghost cur = digits.take(i + 1 - start as int);
        proof {
            assert(cur.drop_last() =~= pre);
            assert(cur.last() == s@[i as int]);
        }
        proof {
            assert(crate::text::all_digits(cur)) by {
                assert forall|j: int| 0 <= j < cur.len() implies 48 <= (#[trigger] cur[j]) as int
                    <= 57 by {
                    if j < cur.len() - 1 {
                        assert(cur[j] == pre[j]);
                    } else {
                        assert(cur[j] == s@[i as int]);
                    }
                }
            }
        }
        acc = acc * 10 + d;
        if acc > 0x8000_0000 {
            proof {
                lemma_digits_run_monotone(digits, i + 1 - start as int);
                assert(crate::text::all_digits(digits) ==> digits_val(digits) > 0x8000_0000);
                lemma_spi_out_of_range(s@);
            }
            return None;
        }
        i = i + 1;
    }
    proof {
        assert(digits.take(digits.len() as int) =~= digits);
    }
    if neg {
        proof {
            assert(s@[0] == '-');
        }
        Some((-acc) as i32)
    } else {
        if acc > 0x7FFF_FFFF {
            return None;
        }
        Some(acc as i32)
    }
}

/// Once a prefix of a digit run exceeds a bound, the whole run does: each
/// further digit only grows the value.
proof fn lemma_digits_run_monotone(s: Seq<char>, k: int)
    requires
        0 <= k <= s.len(),
        crate::text::all_digits(s.take(k)),
    ensures
        crate::text::all_digits(s) ==> digits_val(s) >= digits_val(s.take(k)),
    decreases s.len() - k,
{
    if k < s.len() {
        if crate::text::all_digits(s) {
            assert(s.take(k + 1).drop_last() =~= s.take(k));
            assert(crate::text::all_digits(s.take(k + 1))) by {
                assert(forall|j: int|
                    0 <= j < k + 1 ==> 48 <= (#[trigger] s.take(k + 1)[j]) as int <= 57);
            }
            lemma_digits_val_nonneg(s.take(k));
            assert(digits_val(s.take(k + 1)) == digits_val(s.take(k)) * 10 + (s[k] as int - 48));
            assert(digits_val(s.take(k)) * 10 >= digits_val(s.take(k))) by (nonlinear_arith)
                requires
                    digits_val(s.take(k)) >= 0,
            ;
            lemma_digits_run_monotone(s, k + 1);
        }
    } else {
        assert(s.take(k) =~= s);
    }
}

} // verus!
