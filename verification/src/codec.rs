//! Utilities shared by the JSON, YAML and CSV renderers and the snapshot
//! parsers: emitting and expecting literal fragments, and facts about
//! escaping plain text.

use vstd::prelude::*;
use vstd::string::StrSliceExecFns;
use crate::model::ProcessPortState;
use crate::quoted::{esc, esc_char};

verus! {

broadcast use vstd::utf8::char_is_scalar, vstd::utf8::char_u32_cast;

/// Whether the characters of `pat` stand at position `i` of `s`.
pub open spec fn starts_with_at(s: Seq<char>, i: int, pat: Seq<char>) -> bool {
    &&& 0 <= i
    &&& i + pat.len() <= s.len()
    &&& s.subrange(i, i + pat.len()) == pat
}

/// Appends the characters of `lit` to `out`.
pub fn push_lit(out: &mut Vec<char>, lit: &str)
    ensures
        final(out)@ == old(out)@ + lit@,
{
    let n = lit.unicode_len();
    let mut k: usize = 0;
    while k < n
        invariant
            n == lit@.len(),
            k <= n,
            out@ == old(out)@ + lit@.take(k as int),
        decreases n - k,
    {
        out.push(lit.get_char(k));
        proof {
            assert(out@ =~= old(out)@ + lit@.take(k + 1 as int));
        }
        k = k + 1;
    }
    proof {
        assert(old(out)@ + lit@.take(n as int) =~= old(out)@ + lit@);
    }
}

/// If `lit` stands at position `i` of `s`, the index just past it;
/// otherwise `None`.
pub fn expect_lit(s: &Vec<char>, i: usize, lit: &str) -> (r: Option<usize>)
    requires
        i <= s@.len(),
    ensures
        match r {
            Some(j) => {
                &&& starts_with_at(s@, i as int, lit@)
                &&& j == i + lit@.len()
            },
            None => !starts_with_at(s@, i as int, lit@),
        },
{
    let n = lit.unicode_len();
    let slen = s.len();
    if slen - i < n {
        proof {
            assert(!starts_with_at(s@, i as int, lit@));
        }
        return None;
    }
    let mut k: usize = 0;
    while k < n
        invariant
            n == lit@.len(),
            k <= n,
            slen == s@.len(),
            i + n <= slen,
            forall|m: int| 0 <= m < k ==> s@[i + m] == lit@[m],
        decreases n - k,
    {
        if s[i + k] != lit.get_char(k) {
            proof {
                assert(s@.subrange(i as int, i + lit@.len()) != lit@) by {
                    assert(s@.subrange(i as int, i + lit@.len())[k as int] == s@[i + k]);
                }
            }
            return None;
        }
        k = k + 1;
    }
    proof {
        assert(s@.subrange(i as int, i + lit@.len()) =~= lit@);
    }
    Some(i + n)
}

/// If the text from `i` to `j` is `a` followed by `b`, then `a` stands at
/// `i` and `b` stands right after it.
pub proof fn lemma_split_subrange(s: Seq<char>, i: int, j: int, a: Seq<char>, b: Seq<char>)
    requires
        0 <= i <= j <= s.len(),
        s.subrange(i, j) == a + b,
    ensures
        s.subrange(i, i + a.len()) == a,
        s.subrange(i + a.len(), j) == b,
{
    assert(s.subrange(i, j).len() == j - i);
    assert((a + b).len() == a.len() + b.len());
    assert(j - i == a.len() + b.len());
    assert(s.subrange(i, i + a.len()) =~= a) by {
        assert forall|k: int| 0 <= k < a.len() implies #[trigger] s.subrange(i, i + a.len())[k]
            == a[k] by {
            assert(s.subrange(i, i + a.len())[k] == s[i + k]);
            assert(s[i + k] == s.subrange(i, j)[k]);
            assert(s.subrange(i, j)[k] == (a + b)[k]);
        }
    }
    assert(s.subrange(i + a.len(), j) =~= b) by {
        assert forall|k: int| 0 <= k < b.len() implies #[trigger] s.subrange(i + a.len(), j)[k]
            == b[k] by {
            assert(s.subrange(i + a.len(), j)[k] == s[i + a.len() + k]);
            assert(s[i + a.len() + k] == s.subrange(i, j)[a.len() + k]);
            assert(s.subrange(i, j)[a.len() + k] == (a + b)[a.len() + k]);
        }
    }
}

/// A character that escaping leaves alone.
pub open spec fn plain_char(c: char) -> bool {
    c != '"' && c != '\\' && c as u32 >= 32
}

/// Escaping changes nothing in text made of plain characters.
pub proof fn lemma_esc_plain(s: Seq<char>)
    requires
        forall|k: int| 0 <= k < s.len() ==> plain_char(#[trigger] s[k]),
    ensures
        esc(s) == s,
    decreases s.len(),
{
    if s.len() == 0 {
        assert(esc(s) =~= s);
    } else {
        assert(forall|k: int|
            0 <= k < s.drop_first().len() ==> plain_char(#[trigger] s.drop_first()[k]));
        lemma_esc_plain(s.drop_first());
        assert(esc_char(s[0]) == seq![s[0]]);
        assert(esc(s) =~= s) by {
            assert(esc(s) == seq![s[0]] + s.drop_first());
        }
    }
}

/// The label under which a port state is exported.
pub open spec fn state_chars(st: ProcessPortState) -> Seq<char> {
    match st {
        ProcessPortState::Hosting => "Hosting"@,
        ProcessPortState::Using => "Using"@,
    }
}

/// Appends the label of `st` to `out`.
pub fn push_state(out: &mut Vec<char>, st: ProcessPortState)
    ensures
        final(out)@ == old(out)@ + state_chars(st),
{
    match st {
        ProcessPortState::Hosting => push_lit(out, "Hosting"),
        ProcessPortState::Using => push_lit(out, "Using"),
    }
}

/// State labels are plain text, escape to themselves, and are distinct.
pub proof fn lemma_state_chars(st: ProcessPortState)
    ensures
        esc(state_chars(st)) == state_chars(st),
        state_chars(ProcessPortState::Hosting) != state_chars(ProcessPortState::Using),
        (state_chars(st) == "Hosting"@) == (st == ProcessPortState::Hosting),
        (state_chars(st) == "Using"@) == (st == ProcessPortState::Using),
{
    reveal_strlit("Hosting");
    reveal_strlit("Using");
    assert(forall|k: int|
        0 <= k < "Hosting"@.len() ==> plain_char(#[trigger] "Hosting"@[k]));
    assert(forall|k: int| 0 <= k < "Using"@.len() ==> plain_char(#[trigger] "Using"@[k]));
    lemma_esc_plain("Hosting"@);
    lemma_esc_plain("Using"@);
}

/// Whether the characters in `v` are exactly those of `lit`.
pub fn chars_eq_lit(v: &Vec<char>, lit: &str) -> (r: bool)
    ensures
        r == (v@ == lit@),
{
    let n = lit.unicode_len();
    if v.len() != n {
        proof {
            assert(v@ != lit@);
        }
        return false;
    }
    let mut k: usize = 0;
    while k < n
        invariant
            n == lit@.len(),
            k <= n,
            v@.len() == n,
            forall|m: int| 0 <= m < k ==> v@[m] == lit@[m],
        decreases n - k,
    {
        if v[k] != lit.get_char(k) {
            return false;
        }
        k = k + 1;
    }
    proof {
        assert(v@ =~= lit@);
    }
    true
}

} // verus!
