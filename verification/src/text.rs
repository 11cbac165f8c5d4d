//! Small verified text utilities: ASCII case-insensitive comparison and
//! decimal formatting/parsing of unsigned integers.
//!
//! GitLab sends status words and page counts as plain ASCII text, and the
//! report renders ids back into decimal, so these few routines carry all the
//! text handling the core logic needs.

use vstd::prelude::*;

verus! {

/// The Unicode scalar value of `c`, with ASCII upper-case letters folded to
/// lower case. Only A-Z are folded; every other character is left as is.
pub open spec fn lower_code(c: char) -> u32 {
    if 65 <= c as u32 && c as u32 <= 90 {
        (c as u32 + 32) as u32
    } else {
        c as u32
    }
}

/// Two character sequences are equal up to ASCII case.
pub open spec fn eq_ignore_case(a: Seq<char>, b: Seq<char>) -> bool {
    a.len() == b.len() && forall|i: int| 0 <= i < a.len() ==> lower_code(a[i]) == lower_code(b[i])
}

/// Compares two strings for equality ignoring ASCII case.
pub fn str_eq_ignore_case(a: &str, b: &str) -> (r: bool)
    ensures
        r == eq_ignore_case(a@, b@),
{
    let a_len = a.unicode_len();
    let b_len = b.unicode_len();
    if a_len != b_len {
        return false;
    }
    let mut i: usize = 0;
    while i < a_len
        invariant
            a_len == a@.len(),
            b_len == b@.len(),
            a_len == b_len,
            i <= a_len,
            forall|j: int| 0 <= j < i ==> lower_code(a@[j]) == lower_code(b@[j]),
        decreases a_len - i,
    {
        let ca = a.get_char(i);
        let cb = b.get_char(i);
        let xa = ca as u32;
        let xb = cb as u32;
        let la = if 65 <= xa && xa <= 90 { xa + 32 } else { xa };
        let lb = if 65 <= xb && xb <= 90 { xb + 32 } else { xb };
        if la != lb {
            return false;
        }
        i = i + 1;
    }
    true
}

/// The character for a single decimal digit value.
pub open spec fn digit_char(d: nat) -> char {
    if d == 0 { '0' }
    else if d == 1 { '1' }
    else if d == 2 { '2' }
    else if d == 3 { '3' }
    else if d == 4 { '4' }
    else if d == 5 { '5' }
    else if d == 6 { '6' }
    else if d == 7 { '7' }
    else if d == 8 { '8' }
    else if d == 9 { '9' }
    else { ' ' }
}

/// The decimal representation of `n`, most significant digit first, with no
/// leading zeros (and `0` itself written as "0").
pub open spec fn dec_digits(n: nat) -> Seq<char>
    decreases n,
{
    if n < 10 {
        seq![digit_char(n)]
    } else {
        dec_digits(n / 10).push(digit_char(n % 10))
    }
}

/// The one-character string for a decimal digit value below ten.
fn digit_str(d: u64) -> (r: &'static str)
    requires
        d < 10,
    ensures
        r@ == seq![digit_char(d as nat)],
{
    proof {
        reveal_strlit("0");
        reveal_strlit("1");
        reveal_strlit("2");
        reveal_strlit("3");
        reveal_strlit("4");
        reveal_strlit("5");
        reveal_strlit("6");
        reveal_strlit("7");
        reveal_strlit("8");
        reveal_strlit("9");
    }
    let r = if d == 0 { "0" }
    else if d == 1 { "1" }
    else if d == 2 { "2" }
    else if d == 3 { "3" }
    else if d == 4 { "4" }
    else if d == 5 { "5" }
    else if d == 6 { "6" }
    else if d == 7 { "7" }
    else if d == 8 { "8" }
    else { "9" };
    proof {
        assert(r@ =~= seq![digit_char(d as nat)]);
    }
    r
}

/// Renders `n` in decimal.
pub fn u64_to_dec(n: u64) -> (s: String)
    ensures
        s@ == dec_digits(n as nat),
{
    if n == 0 {
        proof {
            reveal_strlit("0");
        }
        let z = String::from_str("0");
        proof {
            assert(z@ =~= dec_digits(0));
        }
        return z;
    }
    let mut digits: Vec<u64> = Vec::new();
    let mut m: u64 = n;
    while m > 0
        invariant
            forall|j: int| 0 <= j < digits@.len() ==> digits@[j] < 10,
            m > 0 && digits@.len() == 0 ==> m == n,
            digits@.len() > 0 || m > 0,
            dec_digits(n as nat) =~= (if m > 0 {
                dec_digits(m as nat)
            } else {
                Seq::<char>::empty()
            }) + low_digits_rev(digits@),
        decreases m,
    {
        let d = m % 10;
        let ghost old_digits = digits@;
        let ghost old_m = m;
        digits.push(d);
        m = m / 10;
        proof {
            lemma_low_digits_rev_push(old_digits, d);
            if m > 0 {
                assert(dec_digits(old_m as nat) =~= dec_digits(m as nat).push(
                    digit_char((old_m % 10) as nat),
                ));
                assert(dec_digits(n as nat) =~= dec_digits(m as nat) + low_digits_rev(digits@));
            } else {
                assert(old_m < 10);
                assert(dec_digits(old_m as nat) =~= seq![digit_char((old_m % 10) as nat)]);
                assert(dec_digits(n as nat) =~= Seq::<char>::empty() + low_digits_rev(digits@));
            }
        }
    }
    proof {
        assert(dec_digits(n as nat) =~= low_digits_rev(digits@));
    }
    let count = digits.len();
    let mut s = String::new();
    let mut i: usize = 0;
    while i < count
        invariant
            count == digits@.len(),
            i <= count,
            forall|j: int| 0 <= j < digits@.len() ==> digits@[j] < 10,
            dec_digits(n as nat) == low_digits_rev(digits@),
            s@ =~= dec_digits(n as nat).subrange(0, i as int),
        decreases count - i,
    {
        let d = digits[count - 1 - i];
        let piece = digit_str(d);
        s.append(piece);
        proof {
            assert(low_digits_rev(digits@)[i as int] == digit_char(
                digits@[digits@.len() - 1 - i] as nat,
            ));
            assert(s@ =~= dec_digits(n as nat).subrange(0, i + 1));
        }
        i = i + 1;
    }
    proof {
        assert(s@ =~= dec_digits(n as nat));
    }
    s
}

/// The digits collected least-significant first, read back most-significant
/// first.
pub open spec fn low_digits_rev(ds: Seq<u64>) -> Seq<char> {
    Seq::new(ds.len(), |i: int| digit_char(ds[ds.len() - 1 - i] as nat))
}

proof fn lemma_low_digits_rev_push(ds: Seq<u64>, d: u64)
    ensures
        low_digits_rev(ds.push(d)) =~= seq![digit_char(d as nat)] + low_digits_rev(ds),
{
}

/// Whether `c` is a decimal digit.
pub open spec fn is_digit(c: char) -> bool {
    48 <= c as u32 && c as u32 <= 57
}

/// The value of a decimal digit character.
pub open spec fn digit_val(c: char) -> nat
    recommends
        is_digit(c),
{
    (c as u32 - 48) as nat
}

/// Whether every character of `s` is a decimal digit.
pub open spec fn all_digits(s: Seq<char>) -> bool {
    forall|i: int| 0 <= i < s.len() ==> is_digit(s[i])
}

/// The number written by the digit sequence `s`, most significant first.
pub open spec fn digits_value(s: Seq<char>) -> nat
    decreases s.len(),
{
    if s.len() == 0 {
        0
    } else {
        digits_value(s.drop_last()) * 10 + digit_val(s.last())
    }
}

/// A digit string is worth at least any of its prefixes.
proof fn lemma_digits_value_prefix_le(s: Seq<char>, i: int)
    requires
        0 <= i <= s.len(),
    ensures
        digits_value(s.subrange(0, i)) <= digits_value(s),
    decreases s.len(),
{
    if i == s.len() {
        assert(s.subrange(0, i) =~= s);
    } else {
        let t = s.drop_last();
        assert(s.subrange(0, i) =~= t.subrange(0, i));
        lemma_digits_value_prefix_le(t, i);
    }
}

/// The digit part of an unsigned numeral: the whole string, or what
/// follows a single leading plus sign.
pub open spec fn numeral_digits(s: Seq<char>) -> Seq<char> {
    if s.len() > 0 && s[0] == '+' {
        s.drop_first()
    } else {
        s
    }
}

/// What parsing an unsigned numeral as a `u64` yields: the written value
/// when, after at most one leading plus sign, the string is one or more
/// digits and the value fits; nothing otherwise.
pub open spec fn spec_parse_u64(s: Seq<char>) -> Option<u64> {
    let d = numeral_digits(s);
    if d.len() > 0 && all_digits(d) && digits_value(d) <= u64::MAX {
        Some(digits_value(d) as u64)
    } else {
        None
    }
}

/// What parsing an unsigned numeral as a `u16` yields.
pub open spec fn spec_parse_u16(s: Seq<char>) -> Option<u16> {
    let d = numeral_digits(s);
    if d.len() > 0 && all_digits(d) && digits_value(d) <= u16::MAX {
        Some(digits_value(d) as u16)
    } else {
        None
    }
}

/// Parses an unsigned decimal numeral — digits, after at most one leading
/// plus sign — as a `u64`. Returns `None` on an empty digit part, on any
/// other character, and on a value that does not fit.
pub fn parse_u64_digits(s: &str) -> (r: Option<u64>)
    ensures
        r == spec_parse_u64(s@),
{
    let len = s.unicode_len();
    let start: usize = if len > 0 && s.get_char(0) as u32 == 43 {
        proof {
            assert(s@[0] == '+') by {
                assert('+' as u32 == 43);
            }
        }
        1
    } else {
        0
    };
    let ghost digits = numeral_digits(s@);
    proof {
        assert(digits =~= s@.subrange(start as int, len as int));
    }
    if len == start {
        return None;
    }
    let mut acc: u64 = 0;
    let mut i: usize = start;
    while i < len
        invariant
            len == s@.len(),
            start <= i <= len,
            digits == numeral_digits(s@),
            digits =~= s@.subrange(start as int, len as int),
            forall|j: int| start <= j < i ==> is_digit(s@[j]),
            acc == digits_value(s@.subrange(start as int, i as int)),
        decreases len - i,
    {
        let c = s.get_char(i);
        let x = c as u32;
        if !(48 <= x && x <= 57) {
            proof {
                assert(digits[i - start] == s@[i as int]);
            }
            return None;
        }
        let d: u64 = (x - 48) as u64;
        proof {
            assert(s@.subrange(start as int, i + 1).drop_last() =~= s@.subrange(
                start as int,
                i as int,
            ));
            assert(s@.subrange(start as int, i + 1).last() == s@[i as int]);
        }
        if acc > (u64::MAX - d) / 10 {
            proof {
                assert(s@.subrange(start as int, i + 1) =~= digits.subrange(0, i + 1 - start));
                lemma_digits_value_prefix_le(digits, i + 1 - start);
            }
            return None;
        }
        acc = acc * 10 + d;
        i = i + 1;
    }
    proof {
        assert(forall|j: int|
            0 <= j < digits.len() ==> is_digit(#[trigger] digits[j]) == is_digit(
                s@[j + start],
            ));
    }
    Some(acc)
}

/// Whether `c` is ASCII whitespace (space, tab, line feed, vertical tab,
/// form feed or carriage return).
pub open spec fn is_space(c: char) -> bool {
    c as u32 == 32 || c as u32 == 9 || c as u32 == 10 || c as u32 == 11 || c as u32 == 12 || (c
        as u32) == 13
}

/// Whether `c` is ASCII whitespace.
pub fn is_space_char(c: char) -> (r: bool)
    ensures
        r == is_space(c),
{
    let x = c as u32;
    x == 32 || x == 9 || x == 10 || x == 11 || x == 12 || x == 13
}

/// `s` without its leading whitespace.
pub open spec fn trim_front(s: Seq<char>) -> Seq<char>
    decreases s.len(),
{
    if s.len() > 0 && is_space(s[0]) {
        trim_front(s.drop_first())
    } else {
        s
    }
}

/// `s` without its trailing whitespace.
pub open spec fn trim_back(s: Seq<char>) -> Seq<char>
    decreases s.len(),
{
    if s.len() > 0 && is_space(s.last()) {
        trim_back(s.drop_last())
    } else {
        s
    }
}

/// `s` without leading and trailing whitespace.
pub open spec fn spec_trim(s: Seq<char>) -> Seq<char> {
    trim_back(trim_front(s))
}

/// Trimming the front keeps the part after the leading spaces.
pub proof fn lemma_trim_front_range(s: Seq<char>, a: int)
    requires
        0 <= a <= s.len(),
        forall|k: int| 0 <= k < a ==> is_space(#[trigger] s[k]),
        a < s.len() ==> !is_space(s[a]),
    ensures
        trim_front(s) == s.subrange(a, s.len() as int),
    decreases s.len(),
{
    if a == 0 {
        if s.len() > 0 {
            assert(!is_space(s[0]));
        }
        assert(s.subrange(0, s.len() as int) =~= s);
    } else {
        assert(is_space(s[0]));
        let t = s.drop_first();
        assert forall|k: int| 0 <= k < a - 1 implies is_space(#[trigger] t[k]) by {
            assert(t[k] == s[k + 1]);
        }
        lemma_trim_front_range(t, a - 1);
        assert(t.subrange(a - 1, t.len() as int) =~= s.subrange(a, s.len() as int));
    }
}

/// Trimming the back keeps the part before the trailing spaces.
pub proof fn lemma_trim_back_range(s: Seq<char>, b: int)
    requires
        0 <= b <= s.len(),
        forall|k: int| b <= k < s.len() ==> is_space(#[trigger] s[k]),
        b > 0 ==> !is_space(s[b - 1]),
    ensures
        trim_back(s) == s.subrange(0, b),
    decreases s.len(),
{
    if b == s.len() {
        if s.len() > 0 {
            assert(!is_space(s.last()));
        }
        assert(s.subrange(0, b) =~= s);
    } else {
        assert(is_space(s.last()));
        let t = s.drop_last();
        lemma_trim_back_range(t, b);
        assert(t.subrange(0, b) =~= s.subrange(0, b));
    }
}

/// How many times `c` occurs in `s`.
pub open spec fn count_char(s: Seq<char>, c: char) -> nat
    decreases s.len(),
{
    if s.len() == 0 {
        0
    } else {
        count_char(s.drop_last(), c) + if s.last() == c {
            1nat
        } else {
            0nat
        }
    }
}

/// The index of the first occurrence of `c` in `s`.
pub open spec fn find_char(s: Seq<char>, c: char) -> int
    recommends
        count_char(s, c) > 0,
    decreases s.len(),
{
    if s.len() == 0 {
        0
    } else if s[0] == c {
        0
    } else {
        1 + find_char(s.drop_first(), c)
    }
}

/// The first occurrence is where the scan found it.
pub proof fn lemma_find_char_at(s: Seq<char>, c: char, j: int)
    requires
        0 <= j < s.len(),
        s[j] == c,
        forall|k: int| 0 <= k < j ==> #[trigger] s[k] != c,
    ensures
        find_char(s, c) == j,
    decreases s.len(),
{
    if j > 0 {
        let t = s.drop_first();
        assert forall|k: int| 0 <= k < j - 1 implies #[trigger] t[k] != c by {
            assert(t[k] == s[k + 1]);
        }
        lemma_find_char_at(t, c, j - 1);
    }
}

/// Parses an unsigned decimal numeral — digits, after at most one leading
/// plus sign — as a `u16`.
pub fn parse_u16_digits(s: &str) -> (r: Option<u16>)
    ensures
        r == spec_parse_u16(s@),
{
    match parse_u64_digits(s) {
        Some(v) => if v <= 65535 {
            Some(v as u16)
        } else {
            None
        },
        None => None,
    }
}

} // verus!
