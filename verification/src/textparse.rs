//! Tokenizing helpers for the kernel's whitespace-delimited tables: splitting
//! a text into lines and fields, and reading decimal counters.

use vstd::prelude::*;

verus! {

/// Field separators inside a line.
pub open spec fn is_ws(c: char) -> bool {
    c == ' ' || c == '\t' || c == '\r'
}

/// The field-separator class.
pub open spec fn ws_class() -> spec_fn(char) -> bool {
    |c: char| is_ws(c)
}

/// The line-separator class.
pub open spec fn nl_class() -> spec_fn(char) -> bool {
    |c: char| c == '\n'
}

/// Tokens of `s` from position `i` on, where `cur` is the token under
/// construction; separators never produce empty tokens.
pub open spec fn tokens_from(
    s: Seq<char>,
    sep: spec_fn(char) -> bool,
    i: int,
    cur: Seq<char>,
) -> Seq<Seq<char>>
    decreases s.len() - i,
{
    if i < 0 || i >= s.len() {
        if cur.len() > 0 {
            seq![cur]
        } else {
            Seq::empty()
        }
    } else if sep(s[i]) {
        if cur.len() > 0 {
            seq![cur] + tokens_from(s, sep, i + 1, Seq::empty())
        } else {
            tokens_from(s, sep, i + 1, Seq::empty())
        }
    } else {
        tokens_from(s, sep, i + 1, cur.push(s[i]))
    }
}

/// The maximal separator-free tokens of `s`, in order.
pub open spec fn tokens(s: Seq<char>, sep: spec_fn(char) -> bool) -> Seq<Seq<char>> {
    tokens_from(s, sep, 0, Seq::empty())
}

/// Views of a sequence of strings.
pub open spec fn views_of(v: Seq<String>) -> Seq<Seq<char>> {
    v.map_values(|t: String| t@)
}

/// Splits a line into its whitespace-delimited fields.
pub fn split_fields(s: &str) -> (r: Vec<String>)
    ensures
        views_of(r@) == tokens(s@, ws_class()),
{
    split_on(s, false)
}

/// Splits a text into its non-empty lines.
pub fn split_lines(s: &str) -> (r: Vec<String>)
    ensures
        views_of(r@) == tokens(s@, nl_class()),
{
    split_on(s, true)
}

/// Shared splitter; `by_newline` selects the separator class.
fn split_on(s: &str, by_newline: bool) -> (r: Vec<String>)
    ensures
        by_newline ==> views_of(r@) == tokens(s@, nl_class()),
        !by_newline ==> views_of(r@) == tokens(s@, ws_class()),
{
    let ghost sep: spec_fn(char) -> bool = if by_newline { nl_class() } else { ws_class() };
    let n = s.unicode_len();
    let mut out: Vec<String> = Vec::new();
    let mut start: usize = 0;
    let mut i: usize = 0;
    proof {
        assert(s@.subrange(0, 0) =~= Seq::<char>::empty());
        assert(views_of(out@) =~= Seq::<Seq<char>>::empty());
    }
    while i < n
        invariant
            n == s@.len(),
            start <= i <= n,
            sep == (if by_newline { nl_class() } else { ws_class() }),
            tokens(s@, sep) == views_of(out@) + tokens_from(s@, sep, i as int, s@.subrange(start as int, i as int)),
        decreases n - i,
    {
        let c = s.get_char(i);
        let is_sep = if by_newline { c == '\n' } else { c == ' ' || c == '\t' || c == '\r' };
        proof {
            if by_newline {
                assert(sep(s@[i as int]) == (s@[i as int] == '\n'));
            } else {
                assert(sep(s@[i as int]) == is_ws(s@[i as int]));
            }
            assert(is_sep == sep(s@[i as int]));
        }
        if is_sep {
            if start < i {
                let tok = s.substring_char(start, i).to_owned();
                proof {
                    let cur = s@.subrange(start as int, i as int);
                    assert(views_of(out@.push(tok)) =~= views_of(out@).push(cur));
                    assert(views_of(out@).push(cur) + tokens_from(s@, sep, i + 1, Seq::empty())
                        =~= views_of(out@) + (seq![cur] + tokens_from(s@, sep, i + 1, Seq::empty())));
                }
                out.push(tok);
            }
            start = i + 1;
            proof {
                assert(s@.subrange(start as int, start as int) =~= Seq::<char>::empty());
            }
        } else {
            proof {
                assert(s@.subrange(start as int, i + 1)
                    =~= s@.subrange(start as int, i as int).push(s@[i as int]));
            }
        }
        i += 1;
    }
    if start < i {
        let tok = s.substring_char(start, i).to_owned();
        proof {
            let cur = s@.subrange(start as int, i as int);
            assert(views_of(out@.push(tok)) =~= views_of(out@).push(cur));
            assert(views_of(out@).push(cur) =~= views_of(out@) + seq![cur]);
        }
        out.push(tok);
    }
    out
}

/// Whether a character is a decimal digit.
pub open spec fn is_digit(c: char) -> bool {
    '0' as u32 <= c as u32 && c as u32 <= '9' as u32
}

/// Whether every character is a decimal digit.
pub open spec fn all_digits(s: Seq<char>) -> bool {
    forall|i: int| 0 <= i < s.len() ==> is_digit(#[trigger] s[i])
}

/// The number denoted by a sequence of decimal digits.
pub open spec fn digits_value(s: Seq<char>) -> int
    decreases s.len(),
{
    if s.len() == 0 {
        0
    } else {
        digits_value(s.drop_last()) * 10 + (s.last() as u32 - '0' as u32)
    }
}

/// The counter a field denotes: its decimal value when the field is a
/// well-formed number that fits, and zero otherwise.
pub open spec fn parsed_u64(s: Seq<char>) -> u64 {
    if s.len() > 0 && all_digits(s) && digits_value(s) <= u64::MAX {
        digits_value(s) as u64
    } else {
        0
    }
}

/// A digit string's value is non-negative.
proof fn lemma_digits_value_nonneg(s: Seq<char>)
    requires
        all_digits(s),
    ensures
        digits_value(s) >= 0,
    decreases s.len(),
{
    if s.len() > 0 {
        assert(all_digits(s.drop_last())) by {
            assert(forall|i: int| 0 <= i < s.len() - 1 ==> s.drop_last()[i] == s[i]);
        }
        lemma_digits_value_nonneg(s.drop_last());
        assert(is_digit(s[s.len() - 1]));
    }
}

/// Appending digits never shrinks the value.
proof fn lemma_digits_value_grows(s: Seq<char>, i: int)
    requires
        0 <= i <= s.len(),
        all_digits(s),
    ensures
        digits_value(s) >= digits_value(s.take(i)),
    decreases s.len() - i,
{
    if i < s.len() {
        let t1 = s.take(i + 1);
        assert(t1.drop_last() =~= s.take(i));
        assert(t1.last() == s[i]);
        assert(is_digit(s[i]));
        assert(digits_value(t1) == digits_value(s.take(i)) * 10 + (s[i] as u32 - '0' as u32));
        assert(all_digits(s.take(i))) by {
            assert(forall|j: int| 0 <= j < i ==> s.take(i)[j] == s[j]);
        }
        lemma_digits_value_nonneg(s.take(i));
        assert(digits_value(t1) >= digits_value(s.take(i)));
        lemma_digits_value_grows(s, i + 1);
    } else {
        assert(s.take(i) =~= s);
    }
}

/// Reads a decimal counter field; a malformed or overlarge field reads as
/// zero.
pub fn parse_u64_or_zero(s: &str) -> (r: u64)
    ensures
        r == parsed_u64(s@),
{
    let n = s.unicode_len();
    if n == 0 {
        return 0;
    }
    let mut acc: u64 = 0;
    let mut i: usize = 0;
    proof {
        assert(s@.take(0) =~= Seq::<char>::empty());
    }
    while i < n
        invariant
            n == s@.len(),
            i <= n,
            all_digits(s@.take(i as int)),
            acc == digits_value(s@.take(i as int)),
        decreases n - i,
    {
        let c = s.get_char(i);
        let cu = c as u32;
        if cu < '0' as u32 || cu > '9' as u32 {
            proof {
                assert(!is_digit(s@[i as int]));
                assert(!all_digits(s@));
            }
            return 0;
        }
        let d: u32 = cu - '0' as u32;
        proof {
            assert(is_digit(s@[i as int]));
            assert(d <= 9);
            assert(all_digits(s@.take(i + 1))) by {
                assert(forall|j: int| 0 <= j < i ==> s@.take(i + 1)[j] == s@.take(i as int)[j]);
                assert(s@.take(i + 1)[i as int] == s@[i as int]);
            }
        }
        if acc > (u64::MAX - d as u64) / 10 {
            // The value can no longer fit in 64 bits; by the contract it
            // reads as zero, whatever the remaining characters are.
            proof {
                let t1 = s@.take(i + 1);
                assert(t1.drop_last() =~= s@.take(i as int));
                assert(t1.last() == s@[i as int]);
                assert(digits_value(t1) == acc * 10 + d);
                assert(acc * 10 + d > u64::MAX) by (nonlinear_arith)
                    requires acc > (u64::MAX - d as u64) / 10, d <= 9,
                {}
                if all_digits(s@) {
                    lemma_digits_value_grows(s@, i + 1);
                }
            }
            return 0;
        }
        proof {
            assert(acc * 10 + d <= u64::MAX) by (nonlinear_arith)
                requires acc <= (u64::MAX - d as u64) / 10, d <= 9,
            {}
            let t1 = s@.take(i + 1);
            assert(t1.drop_last() =~= s@.take(i as int));
            assert(t1.last() == s@[i as int]);
        }
        acc = acc * 10 + d as u64;
        i += 1;
    }
    proof {
        assert(s@.take(n as int) =~= s@);
    }
    acc
}

} // verus!
