//! Characters, decimal numerals, and the conversions between `String`,
//! `Vec<char>` and numbers that the emitters and parsers build on.

use vstd::prelude::*;
use vstd::string::StrSliceExecFns;

verus! {

broadcast use vstd::utf8::char_is_scalar, vstd::utf8::char_u32_cast;

/// Relies on std's `String::push`: appends one character to the string.
#[verifier::external_body]
pub fn push_char(s: &mut String, c: char)
    ensures
        final(s)@ == old(s)@.push(c),
{
    s.push(c);
}

/// The characters of a string slice, as a vector.
pub fn chars_vec(s: &str) -> (r: Vec<char>)
    ensures
        r@ == s@,
{
    let n = s.unicode_len();
    let mut r: Vec<char> = Vec::new();
    let mut i: usize = 0;
    while i < n
        invariant
            n == s@.len(),
            i <= n,
            r@ == s@.take(i as int),
        decreases n - i,
    {
        r.push(s.get_char(i));
        i = i + 1;
        proof {
            assert(r@ =~= s@.take(i as int));
        }
    }
    proof {
        assert(r@ =~= s@);
    }
    r
}

/// A `String` holding exactly the given characters.
pub fn string_from_chars(v: &Vec<char>) -> (r: String)
    ensures
        r@ == v@,
{
    let mut r = String::new();
    let mut i: usize = 0;
    while i < v.len()
        invariant
            i <= v@.len(),
            r@ == v@.take(i as int),
        decreases v@.len() - i,
    {
        push_char(&mut r, v[i]);
        i = i + 1;
        proof {
            assert(r@ =~= v@.take(i as int));
        }
    }
    proof {
        assert(r@ =~= v@);
    }
    r
}

/// Whether `c` is one of the characters `'0'` through `'9'`.
pub open spec fn is_digit(c: char) -> bool {
    48 <= c as u32 && c as u32 <= 57
}

/// The numeric value of a digit character.
pub open spec fn digit_val(c: char) -> int {
    c as u32 - 48
}

/// The digit character for a value in `0..=9`.
pub open spec fn digit_char(d: int) -> char {
    if d == 0 {
        '0'
    } else if d == 1 {
        '1'
    } else if d == 2 {
        '2'
    } else if d == 3 {
        '3'
    } else if d == 4 {
        '4'
    } else if d == 5 {
        '5'
    } else if d == 6 {
        '6'
    } else if d == 7 {
        '7'
    } else if d == 8 {
        '8'
    } else {
        '9'
    }
}

/// The decimal numeral of `n`, most significant digit first, no leading
/// zeros (except for the single digit of zero itself).
pub open spec fn dec_of(n: nat) -> Seq<char>
    decreases n,
{
    if n < 10 {
        seq![digit_char(n as int)]
    } else {
        dec_of(n / 10).push(digit_char((n % 10) as int))
    }
}

/// The value of a sequence of digit characters, most significant first.
pub open spec fn dec_val(ds: Seq<char>) -> int
    decreases ds.len(),
{
    if ds.len() == 0 {
        0
    } else {
        dec_val(ds.drop_last()) * 10 + digit_val(ds.last())
    }
}

proof fn lemma_digit_char_val(d: int)
    requires
        0 <= d <= 9,
    ensures
        is_digit(digit_char(d)),
        digit_val(digit_char(d)) == d,
{
}

/// Every numeral is a nonempty sequence of digits whose value is the number
/// it was formed from.
pub proof fn lemma_dec_of(n: nat)
    ensures
        dec_of(n).len() >= 1,
        forall|k: int| 0 <= k < dec_of(n).len() ==> is_digit(#[trigger] dec_of(n)[k]),
        dec_val(dec_of(n)) == n,
    decreases n,
{
    if n < 10 {
        lemma_digit_char_val(n as int);
        let ds = seq![digit_char(n as int)];
        assert(dec_of(n) == ds);
        assert(ds.drop_last() =~= Seq::<char>::empty());
        assert(dec_val(Seq::<char>::empty()) == 0);
        assert(dec_val(ds) == digit_val(digit_char(n as int)));
    } else {
        lemma_dec_of(n / 10);
        lemma_digit_char_val((n % 10) as int);
        let ds = dec_of(n / 10).push(digit_char((n % 10) as int));
        assert(dec_of(n) == ds);
        assert(ds.drop_last() =~= dec_of(n / 10));
        assert(dec_val(ds) == (n / 10) * 10 + (n % 10));
        vstd::arithmetic::div_mod::lemma_fundamental_div_mod(n as int, 10);
        assert(n as int == 10 * (n as int / 10) + (n as int % 10));
        assert((n / 10) * 10 + (n % 10) == n as int) by {
            assert(n as int / 10 == (n / 10) as int);
            assert(n as int % 10 == (n % 10) as int);
        }
    }
}

/// The index of the first non-digit character at or after `i`.
pub open spec fn scan_digits(s: Seq<char>, i: int) -> int
    decreases s.len() - i when 0 <= i <= s.len()
{
    if i < s.len() && is_digit(s[i]) {
        scan_digits(s, i + 1)
    } else {
        i
    }
}

pub proof fn lemma_scan_digits_bounds(s: Seq<char>, i: int)
    requires
        0 <= i <= s.len(),
    ensures
        i <= scan_digits(s, i) <= s.len(),
        forall|k: int| i <= k < scan_digits(s, i) ==> is_digit(#[trigger] s[k]),
        scan_digits(s, i) < s.len() ==> !is_digit(s[scan_digits(s, i)]),
    decreases s.len() - i,
{
    if i < s.len() && is_digit(s[i]) {
        lemma_scan_digits_bounds(s, i + 1);
    }
}

/// If everything in `[i, j)` is a digit and `j` sits at the end or at a
/// non-digit, the digit scan started at `i` stops exactly at `j`.
pub proof fn lemma_scan_digits_range(s: Seq<char>, i: int, j: int)
    requires
        0 <= i <= j <= s.len(),
        forall|k: int| i <= k < j ==> is_digit(#[trigger] s[k]),
        j == s.len() || !is_digit(s[j]),
    ensures
        scan_digits(s, i) == j,
    decreases j - i,
{
    if i < j {
        lemma_scan_digits_range(s, i + 1, j);
    }
}

/// Parsing a decimal numeral at index `i`: the value of the maximal digit
/// run starting there, if the run is nonempty and the value fits in `u64`.
pub open spec fn spec_parse_u64_at(s: Seq<char>, i: int) -> Option<(u64, int)> {
    let j = scan_digits(s, i);
    if j == i {
        None
    } else {
        let v = dec_val(s.subrange(i, j));
        if v <= u64::MAX {
            Some((v as u64, j))
        } else {
            None
        }
    }
}

pub proof fn lemma_dec_val_nonneg(ds: Seq<char>)
    requires
        forall|k: int| 0 <= k < ds.len() ==> is_digit(#[trigger] ds[k]),
    ensures
        dec_val(ds) >= 0,
    decreases ds.len(),
{
    if ds.len() > 0 {
        lemma_dec_val_nonneg(ds.drop_last());
    }
}

proof fn lemma_dec_val_step(s: Seq<char>, i: int, j: int)
    requires
        0 <= i <= j < s.len(),
    ensures
        dec_val(s.subrange(i, j + 1)) == dec_val(s.subrange(i, j)) * 10 + digit_val(s[j]),
{
    assert(s.subrange(i, j + 1).drop_last() =~= s.subrange(i, j));
    assert(s.subrange(i, j + 1).last() == s[j]);
}

/// Extending a digit run can only grow its value.
proof fn lemma_dec_val_monotone(s: Seq<char>, i: int, j: int, j2: int)
    requires
        0 <= i <= j <= j2 <= s.len(),
        forall|k: int| i <= k < j2 ==> is_digit(#[trigger] s[k]),
    ensures
        dec_val(s.subrange(i, j)) <= dec_val(s.subrange(i, j2)),
    decreases j2 - j,
{
    if j < j2 {
        lemma_dec_val_monotone(s, i, j, j2 - 1);
        lemma_dec_val_step(s, i, j2 - 1);
        assert(forall|k: int|
            0 <= k < s.subrange(i, j2 - 1).len() ==> is_digit(#[trigger] s.subrange(i, j2 - 1)[k]));
        lemma_dec_val_nonneg(s.subrange(i, j2 - 1));
    }
}

/// Whether `c` is a decimal digit, executably.
pub fn digit_test(c: char) -> (r: bool)
    ensures
        r == is_digit(c),
{
    let u: u32 = c as u32;
    48 <= u && u <= 57
}

/// Reads a decimal numeral from `s` starting at `i`, exactly as
/// [`spec_parse_u64_at`] describes.
pub fn parse_u64_at(s: &Vec<char>, i: usize) -> (r: Option<(u64, usize)>)
    requires
        i <= s@.len(),
    ensures
        match r {
            Some((v, j)) => spec_parse_u64_at(s@, i as int) == Some((v, j as int)) && i < j <= s@.len(),
            None => spec_parse_u64_at(s@, i as int) is None,
        },
{
    let ghost end = scan_digits(s@, i as int);
    proof {
        lemma_scan_digits_bounds(s@, i as int);
    }
    let mut j: usize = i;
    let mut acc: u64 = 0;
    let mut overflow: bool = false;
    while j < s.len() && digit_test(s[j])
        invariant
            i <= j <= s@.len(),
            end == scan_digits(s@, i as int),
            i <= end <= s@.len(),
            forall|k: int| i <= k < end ==> is_digit(#[trigger] s@[k]),
            j <= end,
            j < end ==> is_digit(s@[j as int]),
            j == end || (j < s@.len() && is_digit(s@[j as int])),
            scan_digits(s@, j as int) == end,
            !overflow ==> acc as int == dec_val(s@.subrange(i as int, j as int)),
            overflow ==> dec_val(s@.subrange(i as int, j as int)) > u64::MAX,
        decreases s@.len() - j,
    {
        let d: u32 = s[j] as u32 - 48;
        proof {
            assert(is_digit(s@[j as int]));
            assert(j < end) by {
                if j == end {
                    lemma_scan_digits_bounds(s@, i as int);
                }
            }
            lemma_dec_val_step(s@, i as int, j as int);
        }
        if !overflow {
            let wide: u128 = (acc as u128) * 10 + (d as u128);
            if wide > u64::MAX as u128 {
                overflow = true;
                proof {
                    assert(dec_val(s@.subrange(i as int, j + 1 as int)) > u64::MAX);
                }
            } else {
                acc = wide as u64;
            }
        } else {
            proof {
                assert(digit_val(s@[j as int]) >= 0);
                assert(forall|k: int|
                    i <= k < j + 1 ==> is_digit(#[trigger] s@[k]));
                lemma_dec_val_monotone(s@, i as int, j as int, j + 1 as int);
            }
        }
        j = j + 1;
    }
    proof {
        assert(j == end) by {
            lemma_scan_digits_bounds(s@, j as int);
        }
    }
    if j == i {
        None
    } else if overflow {
        None
    } else {
        Some((acc, j))
    }
}

/// Appends the decimal numeral of `n` to `out`.
pub fn append_u64(out: &mut Vec<char>, n: u64)
    ensures
        final(out)@ == old(out)@ + dec_of(n as nat),
    decreases n,
{
    if n < 10 {
        let d: u32 = 48 + n as u32;
        out.push(char_from_digit(n));
        proof {
            assert(final(out)@ =~= old(out)@ + dec_of(n as nat));
        }
    } else {
        append_u64(out, n / 10);
        out.push(char_from_digit(n % 10));
        proof {
            assert(final(out)@ =~= old(out)@ + dec_of(n as nat));
        }
    }
}

/// The digit character of a value below ten, executably.
fn char_from_digit(d: u64) -> (c: char)
    requires
        d < 10,
    ensures
        c == digit_char(d as int),
{
    if d == 0 {
        '0'
    } else if d == 1 {
        '1'
    } else if d == 2 {
        '2'
    } else if d == 3 {
        '3'
    } else if d == 4 {
        '4'
    } else if d == 5 {
        '5'
    } else if d == 6 {
        '6'
    } else if d == 7 {
        '7'
    } else if d == 8 {
        '8'
    } else {
        '9'
    }
}

/// The decimal numeral of `n` as a `String`.
pub fn u64_string(n: u64) -> (r: String)
    ensures
        r@ == dec_of(n as nat),
{
    let mut out: Vec<char> = Vec::new();
    append_u64(&mut out, n);
    string_from_chars(&out)
}

/// When the text at `i` is exactly the numeral of `n` followed by the end of
/// the text or a non-digit, number parsing yields `n` and stops right after
/// the numeral.
pub proof fn lemma_parse_u64_emitted(s: Seq<char>, i: int, n: u64, j: int)
    requires
        0 <= i <= j <= s.len(),
        s.subrange(i, j) == dec_of(n as nat),
        j == s.len() || !is_digit(s[j]),
    ensures
        spec_parse_u64_at(s, i) == Some((n, j)),
{
    lemma_dec_of(n as nat);
    assert(forall|k: int| i <= k < j ==> is_digit(#[trigger] s[k])) by {
        assert(forall|k: int| i <= k < j ==> s[k] == dec_of(n as nat)[k - i]);
    }
    lemma_scan_digits_range(s, i, j);
    assert(dec_val(s.subrange(i, j)) == n);
    assert(j > i) by {
        assert(dec_of(n as nat).len() >= 1);
    }
}

} // verus!
