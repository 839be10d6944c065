//! Text-layout helpers: display widths of the help columns and centering
//! a label within a fixed width.

use vstd::prelude::*;
use vstd::string::StringSliceAdditionalSpecFns;
use crate::keybindings::Keybinding;
use crate::lsof::lines_from;
use crate::text::string_from_chars;

verus! {

/// The name of what the external width measurer returns: the number of
/// terminal columns a string occupies, a function of its characters alone.
pub uninterp spec fn display_width(s: Seq<char>) -> int;

/// Relies on the `unicode_width` crate's `UnicodeWidthStr::width`: the
/// display width of a string, depending on its characters alone.
#[verifier::external_body]
fn str_width(s: &str) -> (r: usize)
    ensures
        r as int == display_width(s@),
{
    unicode_width::UnicodeWidthStr::width(s)
}

/// The larger of two values.
pub open spec fn wmax(a: int, b: int) -> int {
    if a > b {
        a
    } else {
        b
    }
}

/// The widest combo among the bindings.
pub open spec fn max_combo_width(s: Seq<Keybinding>) -> int
    decreases s.len(),
{
    if s.len() == 0 {
        0
    } else {
        wmax(max_combo_width(s.drop_last()), display_width(s.last().combo@))
    }
}

/// The widest line among a sequence of lines.
pub open spec fn max_line_width(ls: Seq<Seq<char>>) -> int
    decreases ls.len(),
{
    if ls.len() == 0 {
        0
    } else {
        wmax(max_line_width(ls.drop_last()), display_width(ls.last()))
    }
}

/// The widest description line among the bindings.
pub open spec fn max_description_width(s: Seq<Keybinding>) -> int
    decreases s.len(),
{
    if s.len() == 0 {
        0
    } else {
        wmax(
            max_description_width(s.drop_last()),
            max_line_width(lines_from(s.last().description@, 0)),
        )
    }
}

/// The widest line among the lines of one description.
fn description_width(d: &str) -> (r: usize)
    ensures
        r as int == wmax(max_line_width(lines_from(d@, 0)), 0),
{
    let cs = crate::text::chars_vec(d);
    let lines = crate::lsof::split_lines(&cs);
    let ghost ls = crate::lsof::toks_of(lines@);
    let mut best: usize = 0;
    let mut i: usize = 0;
    proof {
        assert(ls.take(0int) =~= Seq::<Seq<char>>::empty());
    }
    while i < lines.len()
        invariant
            i <= lines@.len(),
            ls == crate::lsof::toks_of(lines@),
            ls == lines_from(d@, 0),
            best as int == wmax(max_line_width(ls.take(i as int)), 0),
        decreases lines@.len() - i,
    {
        let line = string_from_chars(&lines[i]);
        let w = str_width(line.as_str());
        if w > best {
            best = w;
        }
        proof {
            assert(ls.take(i + 1 as int).drop_last() =~= ls.take(i as int));
            assert(ls.take(i + 1 as int).last() == ls[i as int]);
            assert(ls[i as int] == lines@[i as int]@);
        }
        i = i + 1;
    }
    proof {
        assert(ls.take(ls.len() as int) =~= ls);
    }
    best
}

/// The column widths the help table needs: the widest combo and the
/// widest description line, each truncated into sixteen bits.
pub fn keybindings_constraint_len_calculator(items: &Vec<Keybinding>) -> (r: (u16, u16))
    ensures
        r.0 == wmax(max_combo_width(items@), 0) as u16,
        r.1 == wmax(max_description_width(items@), 0) as u16,
{
    let mut combo_best: usize = 0;
    let mut desc_best: usize = 0;
    let mut i: usize = 0;
    proof {
        assert(items@.take(0int) =~= Seq::<Keybinding>::empty());
        assert(max_combo_width(items@.take(0int)) == 0);
        assert(max_description_width(items@.take(0int)) == 0);
    }
    while i < items.len()
        invariant
            i <= items@.len(),
            combo_best as int == wmax(max_combo_width(items@.take(i as int)), 0),
            desc_best as int == wmax(max_description_width(items@.take(i as int)), 0),
        decreases items@.len() - i,
    {
        let cw = str_width(items[i].combo);
        if cw > combo_best {
            combo_best = cw;
        }
        let dw = description_width(items[i].description);
        if dw > desc_best {
            desc_best = dw;
        }
        proof {
            assert(items@.take(i + 1 as int).drop_last() =~= items@.take(i as int));
            assert(items@.take(i + 1 as int).last() == items@[i as int]);
        }
        i = i + 1;
    }
    proof {
        assert(items@.take(items@.len() as int) =~= items@);
        assert(wmax(max_combo_width(items@), 0) == wmax(wmax(max_combo_width(items@), 0), 0));
    }
    let c16 = #[verifier::truncate] (combo_best as u16);
    let d16 = #[verifier::truncate] (desc_best as u16);
    proof {
        assert(combo_best as int == wmax(max_combo_width(items@), 0));
        assert(desc_best as int == wmax(max_description_width(items@), 0));
    }
    (c16, d16)
}

/// A run of spaces.
pub open spec fn spaces(n: int) -> Seq<char>
    decreases n,
{
    if n <= 0 {
        Seq::empty()
    } else {
        spaces(n - 1).push(' ')
    }
}

/// The label centered in `width` columns, counted in bytes as the padding
/// budget: half the leftover space before it, the rest after it.
pub fn center_str(text: &str, width: u16) -> (r: String)
    ensures
        ({
            let tl = text.spec_bytes().len() as usize;
            let pad = wmax(width - tl, 0);
            r@ == spaces(pad / 2) + text@ + spaces(pad - pad / 2)
        }),
{
    let w = width as usize;
    let tlen = text.len();
    let pad: usize = if w > tlen {
        w - tlen
    } else {
        0
    };
    let left = pad / 2;
    let right = pad - left;
    let mut out: Vec<char> = Vec::new();
    let mut k: usize = 0;
    while k < left
        invariant
            k <= left,
            out@ == spaces(k as int),
        decreases left - k,
    {
        out.push(' ');
        k = k + 1;
    }
    crate::codec::push_lit(&mut out, text);
    let ghost mid = out@;
    proof {
        assert(mid + spaces(0int) =~= mid);
    }
    let mut m: usize = 0;
    while m < right
        invariant
            m <= right,
            out@ == mid + spaces(m as int),
        decreases right - m,
    {
        out.push(' ');
        proof {
            assert(out@ =~= mid + spaces(m + 1 as int));
        }
        m = m + 1;
    }
    proof {
        let tl = text.spec_bytes().len() as usize;
        let pad2 = wmax(width - tl, 0);
        assert(pad as int == pad2);
        assert(out@ =~= spaces(pad2 / 2) + text@ + spaces(pad2 - pad2 / 2));
    }
    string_from_chars(&out)
}

} // verus!
