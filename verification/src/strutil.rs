//! Verified string helpers: equality, ASCII-case-insensitive equality,
//! lexicographic comparison, whitespace tests, and decimal parsing.

use vstd::prelude::*;
use vstd::string::StrSliceExecFns;

verus! {

// ---------------------------------------------------------------------------
// Plain equality
// ---------------------------------------------------------------------------

/// Character-wise string equality.
pub fn str_eq(a: &str, b: &str) -> (r: bool)
    ensures
        r == (a@ == b@),
{
    let an = a.unicode_len();
    let bn = b.unicode_len();
    if an != bn {
        return false;
    }
    let mut i: usize = 0;
    while i < an
        invariant
            an == a@.len(),
            bn == b@.len(),
            an == bn,
            i <= an,
            forall|k: int| 0 <= k < i as int ==> a@[k] == b@[k],
        decreases an - i,
    {
        if a.get_char(i) != b.get_char(i) {
            return false;
        }
        i += 1;
    }
    proof {
        assert(a@ =~= b@);
    }
    true
}

// ---------------------------------------------------------------------------
// ASCII-case-insensitive equality
// ---------------------------------------------------------------------------

/// The code point of a character with an ASCII upper-case letter folded to
/// its lower-case counterpart; all other characters are left as they are.
pub open spec fn lower_code(c: char) -> int {
    if 'A' as int <= c as int && c as int <= 'Z' as int {
        c as int + 32
    } else {
        c as int
    }
}

/// Equality up to ASCII case: same length, and the case-folded code points
/// agree position by position.
pub open spec fn eq_ignore_ascii_case_seq(a: Seq<char>, b: Seq<char>) -> bool {
    a.len() == b.len() && forall|k: int|
        0 <= k < a.len() ==> #[trigger] lower_code(a[k]) == lower_code(b[k])
}

/// Character-wise ASCII-case-insensitive string equality.
pub fn str_eq_ignore_ascii_case(a: &str, b: &str) -> (r: bool)
    ensures
        r == eq_ignore_ascii_case_seq(a@, b@),
{
    let an = a.unicode_len();
    let bn = b.unicode_len();
    if an != bn {
        return false;
    }
    let mut i: usize = 0;
    while i < an
        invariant
            an == a@.len(),
            bn == b@.len(),
            an == bn,
            i <= an,
            forall|k: int| 0 <= k < i as int ==> #[trigger] lower_code(a@[k]) == lower_code(b@[k]),
        decreases an - i,
    {
        let ca = a.get_char(i) as u32;
        let cb = b.get_char(i) as u32;
        let la: u32 = if ca >= 'A' as u32 && ca <= 'Z' as u32 {
            ca + 32
        } else {
            ca
        };
        let lb: u32 = if cb >= 'A' as u32 && cb <= 'Z' as u32 {
            cb + 32
        } else {
            cb
        };
        proof {
            assert(la as int == lower_code(a@[i as int]));
            assert(lb as int == lower_code(b@[i as int]));
        }
        if la != lb {
            return false;
        }
        i += 1;
    }
    true
}

// ---------------------------------------------------------------------------
// Lexicographic order by code point
// ---------------------------------------------------------------------------

/// Lexicographic order on character sequences by code point. Because UTF-8
/// preserves code-point order byte-wise, this is the order `str` comparison
/// uses.
pub open spec fn lex_le(a: Seq<char>, b: Seq<char>) -> bool
    decreases a.len(),
{
    if a.len() == 0 {
        true
    } else if b.len() == 0 {
        false
    } else if (a[0] as int) < (b[0] as int) {
        true
    } else if (a[0] as int) > (b[0] as int) {
        false
    } else {
        lex_le(a.skip(1), b.skip(1))
    }
}

/// The lexicographic order is total.
pub proof fn lemma_lex_le_total(a: Seq<char>, b: Seq<char>)
    ensures
        lex_le(a, b) || lex_le(b, a),
    decreases a.len(),
{
    if a.len() != 0 && b.len() != 0 && a[0] == b[0] {
        lemma_lex_le_total(a.skip(1), b.skip(1));
    }
}

/// The lexicographic order is transitive.
pub proof fn lemma_lex_le_trans(a: Seq<char>, b: Seq<char>, c: Seq<char>)
    requires
        lex_le(a, b),
        lex_le(b, c),
    ensures
        lex_le(a, c),
    decreases a.len(),
{
    if a.len() != 0 && b.len() != 0 && c.len() != 0 && a[0] == b[0] && b[0] == c[0] {
        lemma_lex_le_trans(a.skip(1), b.skip(1), c.skip(1));
    }
}

/// Character-wise lexicographic comparison: `a` is less than or equal to
/// `b`.
pub fn str_le(a: &str, b: &str) -> (r: bool)
    ensures
        r == lex_le(a@, b@),
{
    let an = a.unicode_len();
    let bn = b.unicode_len();
    let mut i: usize = 0;
    proof {
        assert(a@.skip(0) =~= a@);
        assert(b@.skip(0) =~= b@);
    }
    loop
        invariant
            an == a@.len(),
            bn == b@.len(),
            i <= an,
            i <= bn,
            lex_le(a@, b@) == lex_le(a@.skip(i as int), b@.skip(i as int)),
        decreases an - i,
    {
        if i >= an {
            proof {
                assert(a@.skip(i as int).len() == 0);
            }
            return true;
        }
        if i >= bn {
            proof {
                assert(b@.skip(i as int).len() == 0);
                assert(a@.skip(i as int).len() != 0);
            }
            return false;
        }
        let ca = a.get_char(i) as u32;
        let cb = b.get_char(i) as u32;
        proof {
            assert(a@.skip(i as int)[0] == a@[i as int]);
            assert(b@.skip(i as int)[0] == b@[i as int]);
        }
        if ca < cb {
            return true;
        }
        if ca > cb {
            return false;
        }
        proof {
            assert(a@.skip(i as int).skip(1) =~= a@.skip(i as int + 1));
            assert(b@.skip(i as int).skip(1) =~= b@.skip(i as int + 1));
        }
        i += 1;
    }
}

// ---------------------------------------------------------------------------
// Whitespace
// ---------------------------------------------------------------------------

/// A character with the Unicode `White_Space` property; the set `str::trim`
/// strips.
pub open spec fn is_whitespace_char(c: char) -> bool {
    let p = c as int;
    ||| (0x09 <= p && p <= 0x0D)
    ||| p == 0x20
    ||| p == 0x85
    ||| p == 0xA0
    ||| p == 0x1680
    ||| (0x2000 <= p && p <= 0x200A)
    ||| p == 0x2028
    ||| p == 0x2029
    ||| p == 0x202F
    ||| p == 0x205F
    ||| p == 0x3000
}

/// All characters of the sequence are whitespace (true of the empty
/// sequence).
pub open spec fn all_whitespace(s: Seq<char>) -> bool {
    forall|k: int| 0 <= k < s.len() ==> #[trigger] is_whitespace_char(s[k])
}

/// Whether the string consists of whitespace only, i.e. trimming it leaves
/// nothing.
pub fn is_blank(s: &str) -> (r: bool)
    ensures
        r == all_whitespace(s@),
{
    let n = s.unicode_len();
    let mut i: usize = 0;
    while i < n
        invariant
            n == s@.len(),
            i <= n,
            forall|k: int| 0 <= k < i as int ==> #[trigger] is_whitespace_char(s@[k]),
        decreases n - i,
    {
        let p = s.get_char(i) as u32;
        let ws = (p >= 0x09 && p <= 0x0D) || p == 0x20 || p == 0x85 || p == 0xA0 || p == 0x1680
            || (p >= 0x2000 && p <= 0x200A) || p == 0x2028 || p == 0x2029 || p == 0x202F
            || p == 0x205F || p == 0x3000;
        proof {
            assert(ws == is_whitespace_char(s@[i as int]));
        }
        if !ws {
            return false;
        }
        i += 1;
    }
    true
}

// ---------------------------------------------------------------------------
// Decimal parsing
// ---------------------------------------------------------------------------

pub open spec fn is_ascii_digit(c: char) -> bool {
    '0' as int <= c as int && c as int <= '9' as int
}

pub open spec fn digit_value(c: char) -> int {
    c as int - '0' as int
}

/// The value of the first `k` characters read as a decimal numeral.
pub open spec fn digits_value_upto(s: Seq<char>, k: int) -> int
    decreases k,
{
    if k <= 0 || k > s.len() {
        0
    } else {
        digits_value_upto(s, k - 1) * 10 + digit_value(s[k - 1])
    }
}

/// The digit part of a decimal numeral: everything after an optional leading
/// plus sign.
pub open spec fn numeral_digits(s: Seq<char>) -> Seq<char> {
    if s.len() > 0 && s[0] == '+' {
        s.skip(1)
    } else {
        s
    }
}

/// The string is a well-formed decimal numeral whose value fits in `usize`:
/// an optional leading plus sign, then one or more ASCII digits.
pub open spec fn is_usize_numeral(s: Seq<char>) -> bool {
    let d = numeral_digits(s);
    &&& d.len() > 0
    &&& forall|k: int| 0 <= k < d.len() ==> #[trigger] is_ascii_digit(d[k])
    &&& digits_value_upto(d, d.len() as int) <= usize::MAX
}

/// A longer digit prefix never has a smaller value.
proof fn lemma_digits_value_monotone(s: Seq<char>, k: int)
    requires
        0 <= k < s.len(),
        forall|j: int| 0 <= j < s.len() ==> #[trigger] is_ascii_digit(s[j]),
    ensures
        digits_value_upto(s, k + 1) >= digits_value_upto(s, k),
        digits_value_upto(s, k) >= 0,
    decreases k,
{
    if k > 0 {
        lemma_digits_value_monotone(s, k - 1);
    }
    let v = digits_value_upto(s, k);
    assert(v * 10 >= v) by (nonlinear_arith)
        requires
            v >= 0,
    {}
    assert(is_ascii_digit(s[k]));
    assert(digit_value(s[k]) >= 0);
    assert(digits_value_upto(s, k + 1) == v * 10 + digit_value(s[k]));
}

/// Every later prefix value is at least the earlier one.
proof fn lemma_digits_value_monotone_upto(s: Seq<char>, k: int, m: int)
    requires
        0 <= k <= m <= s.len(),
        forall|j: int| 0 <= j < s.len() ==> #[trigger] is_ascii_digit(s[j]),
    ensures
        digits_value_upto(s, m) >= digits_value_upto(s, k),
        digits_value_upto(s, k) >= 0,
    decreases m - k,
{
    if k < m {
        lemma_digits_value_monotone(s, m - 1);
        lemma_digits_value_monotone_upto(s, k, m - 1);
    } else if k > 0 {
        lemma_digits_value_monotone(s, k - 1);
    }
}

/// Parses a decimal numeral as `str::parse::<usize>` accepts it: an optional
/// leading plus sign, then one or more ASCII digits, rejecting overflow.
pub fn parse_usize(s: &str) -> (r: Option<usize>)
    ensures
        match r {
            Some(v) => is_usize_numeral(s@) && v as int == digits_value_upto(
                numeral_digits(s@),
                numeral_digits(s@).len() as int,
            ),
            None => !is_usize_numeral(s@),
        },
{
    let n = s.unicode_len();
    let start: usize = if n > 0 && s.get_char(0) == '+' {
        1
    } else {
        0
    };
    proof {
        if start == 1 {
            assert(numeral_digits(s@) =~= s@.skip(1));
        } else {
            assert(numeral_digits(s@) =~= s@);
        }
    }
    let ghost d = numeral_digits(s@);
    if n == start {
        return None;
    }
    let mut acc: usize = 0;
    let mut i: usize = start;
    while i < n
        invariant
            n == s@.len(),
            start <= i <= n,
            start < n,
            start == 0 || start == 1,
            d == numeral_digits(s@),
            d.len() == n - start,
            forall|k: int| 0 <= k < i - start ==> #[trigger] is_ascii_digit(d[k]),
            acc as int == digits_value_upto(d, i - start),
        decreases n - i,
    {
        let c = s.get_char(i);
        let p = c as u32;
        if !(p >= '0' as u32 && p <= '9' as u32) {
            proof {
                assert(d[i - start] == s@[i as int]);
                assert(!is_ascii_digit(d[i - start]));
            }
            return None;
        }
        let dv: u32 = p - '0' as u32;
        proof {
            assert(d[i - start] == s@[i as int]);
        }
        if acc > (usize::MAX - dv as usize) / 10 {
            proof {
                let pos = i - start;
                assert(acc as int * 10 + dv as int > usize::MAX) by (nonlinear_arith)
                    requires
                        acc as int > (usize::MAX as int - dv as int) / 10,
                        0 <= dv as int <= 9,
                        acc as int >= 0,
                {}
                assert(digits_value_upto(d, pos + 1) > usize::MAX);
                if is_usize_numeral(s@) {
                    lemma_digits_value_monotone_upto(d, pos + 1, d.len() as int);
                    assert(false);
                }
            }
            return None;
        }
        proof {
            assert(acc as int * 10 + dv as int <= usize::MAX) by (nonlinear_arith)
                requires
                    acc as int <= (usize::MAX as int - dv as int) / 10,
                    0 <= dv as int <= 9,
                    acc as int >= 0,
            {}
        }
        acc = acc * 10 + dv as usize;
        i += 1;
    }
    Some(acc)
}

} // verus!
