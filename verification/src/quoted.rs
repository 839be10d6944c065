//! Double-quoted string bodies as the exporters write them: quote and
//! backslash are escaped with a backslash, control characters become
//! `\u00XX`, and everything else stands for itself.  Scanning such a body
//! back is proved to invert escaping.

use vstd::prelude::*;
use crate::text::{digit_char, digit_val, is_digit};

verus! {

broadcast use vstd::utf8::char_is_scalar, vstd::utf8::char_u32_cast;

/// The lower-case hexadecimal digit for a value in `0..=15`.
pub open spec fn hex_char(d: int) -> char {
    if d < 10 {
        digit_char(d)
    } else if d == 10 {
        'a'
    } else if d == 11 {
        'b'
    } else if d == 12 {
        'c'
    } else if d == 13 {
        'd'
    } else if d == 14 {
        'e'
    } else {
        'f'
    }
}

/// Whether `c` is a decimal digit or one of `'a'` through `'f'`.
pub open spec fn is_hex(c: char) -> bool {
    is_digit(c) || (97 <= c as u32 && c as u32 <= 102)
}

/// The numeric value of a hexadecimal digit character.
pub open spec fn hex_val(c: char) -> int {
    if is_digit(c) {
        digit_val(c)
    } else {
        c as u32 - 87
    }
}

proof fn lemma_hex_char_val(d: int)
    requires
        0 <= d <= 15,
    ensures
        is_hex(hex_char(d)),
        hex_val(hex_char(d)) == d,
        hex_char(d) != '"',
        hex_char(d) != '\\',
{
}

/// How one character appears inside a double-quoted string body.
pub open spec fn esc_char(c: char) -> Seq<char> {
    if c == '"' {
        seq!['\\', '"']
    } else if c == '\\' {
        seq!['\\', '\\']
    } else if (c as u32) < 32 {
        seq!['\\', 'u', '0', '0', hex_char((c as u32) as int / 16), hex_char((c as u32) as int % 16)]
    } else {
        seq![c]
    }
}

/// The escaped form of a whole string.
pub open spec fn esc(s: Seq<char>) -> Seq<char>
    decreases s.len(),
{
    if s.len() == 0 {
        Seq::empty()
    } else {
        esc_char(s[0]) + esc(s.drop_first())
    }
}

/// Escaping one more character on the right appends its escaped form.
pub proof fn lemma_esc_snoc(s: Seq<char>, c: char)
    ensures
        esc(s.push(c)) == esc(s) + esc_char(c),
    decreases s.len(),
{
    let p = s.push(c);
    if s.len() == 0 {
        assert(p[0] == c);
        assert(p.drop_first() =~= Seq::<char>::empty());
        assert(esc(p) == esc_char(c) + esc(Seq::<char>::empty()));
        assert(esc(Seq::<char>::empty()) =~= Seq::<char>::empty());
        assert(esc(p) =~= esc_char(c));
        assert(esc(s) + esc_char(c) =~= esc_char(c));
    } else {
        assert(p[0] == s[0]);
        assert(p.drop_first() =~= s.drop_first().push(c));
        lemma_esc_snoc(s.drop_first(), c);
        assert(esc(p) == esc_char(s[0]) + (esc(s.drop_first()) + esc_char(c)));
        assert(esc_char(s[0]) + (esc(s.drop_first()) + esc_char(c)) =~= (esc_char(s[0]) + esc(
            s.drop_first(),
        )) + esc_char(c));
    }
}

/// Scanning a double-quoted string body that starts at `i`: the decoded
/// characters up to the closing quote, and the index just past that quote.
/// Unescaped quotes end the body; stray control characters, truncated or
/// unknown escapes, and a missing closing quote yield `None`.
pub open spec fn spec_scan_string(s: Seq<char>, i: int) -> Option<(Seq<char>, int)>
    decreases s.len() - i when 0 <= i <= s.len()
{
    if i >= s.len() {
        None
    } else if s[i] == '"' {
        Some((Seq::empty(), i + 1))
    } else if s[i] == '\\' {
        if i + 1 >= s.len() {
            None
        } else if s[i + 1] == '"' {
            scan_cons('"', spec_scan_string(s, i + 2))
        } else if s[i + 1] == '\\' {
            scan_cons('\\', spec_scan_string(s, i + 2))
        } else if s[i + 1] == 'u' {
            if i + 6 <= s.len() && s[i + 2] == '0' && s[i + 3] == '0' && is_hex(s[i + 4]) && is_hex(
                s[i + 5],
            ) {
                scan_cons(
                    ((hex_val(s[i + 4]) * 16 + hex_val(s[i + 5])) as u8) as char,
                    spec_scan_string(s, i + 6),
                )
            } else {
                None
            }
        } else {
            None
        }
    } else if (s[i] as u32) < 32 {
        None
    } else {
        scan_cons(s[i], spec_scan_string(s, i + 1))
    }
}

/// Prepends a decoded character to the result of scanning the rest.
pub open spec fn scan_cons(c: char, rest: Option<(Seq<char>, int)>) -> Option<(Seq<char>, int)> {
    match rest {
        Some((t, j)) => Some((seq![c] + t, j)),
        None => None,
    }
}

/// Scanning the escaped form of `t` followed by a closing quote decodes
/// exactly `t` and stops just past the quote: escaping round-trips.
pub proof fn lemma_scan_esc(s: Seq<char>, i: int, t: Seq<char>, j: int)
    requires
        0 <= i,
        j == i + esc(t).len() + 1,
        j <= s.len(),
        s.subrange(i, j) == esc(t) + seq!['"'],
    ensures
        spec_scan_string(s, i) == Some((t, j)),
    decreases t.len(),
{
    if t.len() == 0 {
        assert(s.subrange(i, j)[0] == '"');
        assert(s[i] == '"');
    } else {
        let c = t[0];
        let m = esc_char(c).len() as int;
        let rest = t.drop_first();
        assert(esc(t) == esc_char(c) + esc(rest));
        assert forall|k: int| i <= k < i + m implies s[k] == esc_char(c)[k - i] by {
            assert(s[k] == s.subrange(i, j)[k - i]);
            assert(s.subrange(i, j)[k - i] == (esc(t) + seq!['"'])[k - i]);
            assert((esc(t) + seq!['"'])[k - i] == esc(t)[k - i]);
            assert(esc(t)[k - i] == esc_char(c)[k - i]);
        }
        assert(s.subrange(i + m, j) =~= esc(rest) + seq!['"']) by {
            let b = esc(rest) + seq!['"'];
            assert forall|k: int| 0 <= k < j - (i + m) implies #[trigger] s.subrange(i + m, j)[k]
                == b[k] by {
                assert(s.subrange(i + m, j)[k] == s[i + m + k]);
                assert(s[i + m + k] == s.subrange(i, j)[m + k]);
                assert(s.subrange(i, j)[m + k] == (esc(t) + seq!['"'])[m + k]);
                assert((esc(t) + seq!['"'])[m + k] == b[k]);
            }
        }
        lemma_scan_esc(s, i + m, rest, j);
        if c == '"' {
            assert(s[i] == '\\' && s[i + 1] == '"');
            assert(spec_scan_string(s, i) == scan_cons('"', spec_scan_string(s, i + 2)));
            assert(seq!['"'] + rest =~= t);
        } else if c == '\\' {
            assert(s[i] == '\\' && s[i + 1] == '\\');
            assert(seq!['\\'] + rest =~= t);
        } else if (c as u32) < 32 {
            let h1 = (c as u32) as int / 16;
            let h2 = (c as u32) as int % 16;
            vstd::arithmetic::div_mod::lemma_fundamental_div_mod((c as u32) as int, 16);
            lemma_hex_char_val(h1);
            lemma_hex_char_val(h2);
            assert(s[i] == '\\' && s[i + 1] == 'u' && s[i + 2] == '0' && s[i + 3] == '0');
            assert(s[i + 4] == hex_char(h1) && s[i + 5] == hex_char(h2));
            assert(hex_val(s[i + 4]) * 16 + hex_val(s[i + 5]) == (c as u32) as int);
            let v = hex_val(s[i + 4]) * 16 + hex_val(s[i + 5]);
            let w = c as u32;
            assert(v as u8 == w as u8);
            assert((w as u8) as char as u32 == w);
            assert((v as u8) as char as u32 == c as u32);
            vstd::utf8::char_u32_cast(c, c as u32);
            vstd::utf8::char_u32_cast((v as u8) as char, c as u32);
            assert(((hex_val(s[i + 4]) * 16 + hex_val(s[i + 5])) as u8) as char == c);
            assert(seq![c] + rest =~= t);
        } else {
            assert(s[i] == c);
            assert(seq![c] + rest =~= t);
        }
    }
}

/// The hexadecimal digit character of a value below sixteen, executably.
fn hex_from(d: u32) -> (c: char)
    requires
        d < 16,
    ensures
        c == hex_char(d as int),
{
    if d == 0 {
        '0'
    } else if d == 1 {
        '1'
    } else if d == 2 {
        '2'
    } else if d == 3 {
        '3'
    } else if d == 4 {
        '4'
    } else if d == 5 {
        '5'
    } else if d == 6 {
        '6'
    } else if d == 7 {
        '7'
    } else if d == 8 {
        '8'
    } else if d == 9 {
        '9'
    } else if d == 10 {
        'a'
    } else if d == 11 {
        'b'
    } else if d == 12 {
        'c'
    } else if d == 13 {
        'd'
    } else if d == 14 {
        'e'
    } else {
        'f'
    }
}

/// Appends the escaped form of the characters `t` to `out`.
pub fn push_escaped(out: &mut Vec<char>, t: &Vec<char>)
    ensures
        final(out)@ == old(out)@ + esc(t@),
{
    let mut i: usize = 0;
    while i < t.len()
        invariant
            i <= t@.len(),
            out@ == old(out)@ + esc(t@.take(i as int)),
        decreases t@.len() - i,
    {
        let c = t[i];
        let ghost out0 = out@;
        if c == '"' {
            out.push('\\');
            out.push('"');
            proof {
                assert(out@ =~= out0 + esc_char(c));
            }
        } else if c == '\\' {
            out.push('\\');
            out.push('\\');
            proof {
                assert(out@ =~= out0 + esc_char(c));
            }
        } else {
            let u: u32 = c as u32;
            if u < 32 {
                out.push('\\');
                out.push('u');
                out.push('0');
                out.push('0');
                out.push(hex_from(u / 16));
                out.push(hex_from(u % 16));
                proof {
                    assert(out@ =~= out0 + esc_char(c));
                }
            } else {
                out.push(c);
                proof {
                    assert(out@ =~= out0 + esc_char(c));
                }
            }
        }
        proof {
            lemma_esc_snoc(t@.take(i as int), t@[i as int]);
            assert(t@.take(i + 1 as int) =~= t@.take(i as int).push(t@[i as int]));
            assert(out@ =~= (old(out)@ + esc(t@.take(i as int))) + esc_char(t@[i as int]));
            assert(out@ =~= old(out)@ + esc(t@.take(i + 1 as int)));
        }
        i = i + 1;
    }
    proof {
        assert(t@.take(t@.len() as int) =~= t@);
    }
}

/// Whether `c` is a lower-case hexadecimal digit, executably.
fn hex_test(c: char) -> (r: bool)
    ensures
        r == is_hex(c),
{
    let u: u32 = c as u32;
    (48 <= u && u <= 57) || (97 <= u && u <= 102)
}

/// The numeric value of a hexadecimal digit character, executably.
fn hex_val_exec(c: char) -> (r: u32)
    requires
        is_hex(c),
    ensures
        r as int == hex_val(c),
        r < 16,
{
    let u: u32 = c as u32;
    if u <= 57 {
        u - 48
    } else {
        u - 87
    }
}

/// Scans a double-quoted string body starting at `i`, exactly as
/// [`spec_scan_string`] describes.
pub fn scan_string(s: &Vec<char>, i: usize) -> (r: Option<(Vec<char>, usize)>)
    requires
        i <= s@.len(),
    ensures
        match r {
            Some((t, j)) => spec_scan_string(s@, i as int) == Some((t@, j as int)) && j
                <= s@.len(),
            None => spec_scan_string(s@, i as int) is None,
        },
{
    let mut acc: Vec<char> = Vec::new();
    let mut j: usize = i;
    loop
        invariant
            i <= j <= s@.len(),
            spec_scan_string(s@, i as int) == (match spec_scan_string(s@, j as int) {
                Some((t, k)) => Some((acc@ + t, k)),
                None => None,
            }),
        decreases s@.len() - j,
    {
        if j >= s.len() {
            return None;
        }
        let c = s[j];
        if c == '"' {
            proof {
                assert(acc@ + Seq::<char>::empty() =~= acc@);
            }
            return Some((acc, j + 1));
        }
        let ghost prev = j as int;
        let ghost prev_acc = acc@;
        let decoded: char;
        if c == '\\' {
            if j + 1 >= s.len() {
                return None;
            }
            let c1 = s[j + 1];
            if c1 == '"' {
                decoded = '"';
                j = j + 2;
            } else if c1 == '\\' {
                decoded = '\\';
                j = j + 2;
            } else if c1 == 'u' {
                if s.len() - j < 6 {
                    return None;
                }
                if !(s[j + 2] == '0' && s[j + 3] == '0') {
                    return None;
                }
                let h1 = s[j + 4];
                let h2 = s[j + 5];
                if !(hex_test(h1) && hex_test(h2)) {
                    return None;
                }
                let v: u32 = hex_val_exec(h1) * 16 + hex_val_exec(h2);
                decoded = (v as u8) as char;
                j = j + 6;
            } else {
                return None;
            }
        } else {
            let u: u32 = c as u32;
            if u < 32 {
                return None;
            }
            decoded = c;
            j = j + 1;
        }
        acc.push(decoded);
        proof {
            assert(spec_scan_string(s@, prev) == scan_cons(
                decoded,
                spec_scan_string(s@, j as int),
            ));
            match spec_scan_string(s@, j as int) {
                Some((t, k)) => {
                    assert(prev_acc + (seq![decoded] + t) =~= acc@ + t);
                },
                None => {},
            }
        }
    }
}

} // verus!
