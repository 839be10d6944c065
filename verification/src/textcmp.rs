//! Case folding, lexicographic order on character sequences, and
//! substring search: what filtering and sorting the port table rests on.

use vstd::prelude::*;

verus! {

broadcast use vstd::utf8::char_is_scalar, vstd::utf8::char_u32_cast;

/// The name of what the external case folder returns: the lower-case form
/// of a string, a function of its characters alone.
pub uninterp spec fn lower_of(s: Seq<char>) -> Seq<char>;

/// Relies on std's `str::to_lowercase`: the Unicode lower-case form of the
/// string, depending on its characters alone; an empty string stays empty.
#[verifier::external_body]
pub fn lowercase(s: &str) -> (r: String)
    ensures
        r@ == lower_of(s@),
        s@.len() == 0 ==> r@.len() == 0,
{
    s.to_lowercase()
}

/// Lexicographic order by Unicode scalar value.
pub open spec fn lex_le(a: Seq<char>, b: Seq<char>) -> bool
    decreases a.len(),
{
    if a.len() == 0 {
        true
    } else if b.len() == 0 {
        false
    } else if a[0] as u32 != b[0] as u32 {
        (a[0] as u32) < (b[0] as u32)
    } else {
        lex_le(a.drop_first(), b.drop_first())
    }
}

/// Any two sequences are ordered one way or the other.
pub proof fn lemma_lex_total(a: Seq<char>, b: Seq<char>)
    ensures
        lex_le(a, b) || lex_le(b, a),
    decreases a.len(),
{
    if a.len() > 0 && b.len() > 0 && a[0] as u32 == b[0] as u32 {
        lemma_lex_total(a.drop_first(), b.drop_first());
    }
}

/// Lexicographic order is transitive.
pub proof fn lemma_lex_trans(a: Seq<char>, b: Seq<char>, c: Seq<char>)
    requires
        lex_le(a, b),
        lex_le(b, c),
    ensures
        lex_le(a, c),
    decreases a.len(),
{
    if a.len() > 0 && b.len() > 0 && c.len() > 0 {
        if a[0] as u32 == b[0] as u32 && b[0] as u32 == c[0] as u32 {
            lemma_lex_trans(a.drop_first(), b.drop_first(), c.drop_first());
        }
    }
}

/// Decides the lexicographic order of two character vectors.
pub fn lex_le_exec(a: &Vec<char>, b: &Vec<char>) -> (r: bool)
    ensures
        r == lex_le(a@, b@),
{
    let mut i: usize = 0;
    proof {
        assert(a@.skip(0int) =~= a@);
        assert(b@.skip(0int) =~= b@);
    }
    while i < a.len() && i < b.len()
        invariant
            i <= a@.len(),
            i <= b@.len(),
            lex_le(a@, b@) == lex_le(a@.skip(i as int), b@.skip(i as int)),
        decreases a@.len() - i,
    {
        let ca: u32 = a[i] as u32;
        let cb: u32 = b[i] as u32;
        proof {
            assert(a@.skip(i as int)[0] == a@[i as int]);
            assert(b@.skip(i as int)[0] == b@[i as int]);
            assert(a@.skip(i as int).drop_first() =~= a@.skip(i + 1 as int));
            assert(b@.skip(i as int).drop_first() =~= b@.skip(i + 1 as int));
        }
        if ca != cb {
            return ca < cb;
        }
        i = i + 1;
    }
    proof {
        if i >= a@.len() {
            assert(a@.skip(i as int).len() == 0);
        } else {
            assert(b@.skip(i as int).len() == 0);
            assert(a@.skip(i as int).len() > 0);
        }
    }
    i >= a.len()
}

/// Whether `needle` occurs anywhere inside `hay`.
pub open spec fn contains_seq(hay: Seq<char>, needle: Seq<char>) -> bool {
    exists|m: int|
        0 <= m && m + needle.len() <= hay.len() && #[trigger] hay.subrange(m, m + needle.len())
            == needle
}

/// Whether the characters of `needle` stand at position `m` of `hay`,
/// executably.
fn match_at(hay: &Vec<char>, m: usize, needle: &Vec<char>) -> (r: bool)
    requires
        m + needle@.len() <= hay@.len(),
    ensures
        r == (hay@.subrange(m as int, m + needle@.len()) == needle@),
{
    let hlen = hay.len();
    let mut k: usize = 0;
    while k < needle.len()
        invariant
            k <= needle@.len(),
            hlen == hay@.len(),
            m + needle@.len() <= hay@.len(),
            forall|p: int| 0 <= p < k ==> hay@[m + p] == needle@[p],
        decreases needle@.len() - k,
    {
        if hay[m + k] != needle[k] {
            proof {
                assert(hay@.subrange(m as int, m + needle@.len())[k as int] == hay@[m + k]);
            }
            return false;
        }
        k = k + 1;
    }
    proof {
        assert(hay@.subrange(m as int, m + needle@.len()) =~= needle@);
    }
    true
}

/// Decides whether `needle` occurs anywhere inside `hay`.
pub fn contains_chars(hay: &Vec<char>, needle: &Vec<char>) -> (r: bool)
    ensures
        r == contains_seq(hay@, needle@),
{
    if needle.len() > hay.len() {
        proof {
            if contains_seq(hay@, needle@) {
                let m = choose|m: int|
                    0 <= m && m + needle@.len() <= hay@.len() && #[trigger] hay@.subrange(
                        m,
                        m + needle@.len(),
                    ) == needle@;
            }
        }
        return false;
    }
    let bound = hay.len() - needle.len();
    let mut m: usize = 0;
    loop
        invariant
            needle@.len() <= hay@.len(),
            bound == hay@.len() - needle@.len(),
            m <= bound,
            forall|p: int|
                0 <= p < m ==> #[trigger] hay@.subrange(p, p + needle@.len()) != needle@,
        decreases bound - m,
    {
        if match_at(hay, m, needle) {
            return true;
        }
        if m == bound {
            proof {
                if contains_seq(hay@, needle@) {
                    let p = choose|p: int|
                        0 <= p && p + needle@.len() <= hay@.len() && #[trigger] hay@.subrange(
                            p,
                            p + needle@.len(),
                        ) == needle@;
                    assert(p <= bound);
                }
            }
            return false;
        }
        m = m + 1;
    }
}

} // verus!
