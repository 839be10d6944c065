//! The Unix collector's parser: turns the text that a diagnostic listing
//! of open network files prints — one header line, then whitespace-split
//! columns — into port rows.  Malformed lines are skipped, never fatal,
//! and rows are deduplicated on `(pid, port)`, first occurrence first.

use vstd::prelude::*;
use crate::codec::starts_with_at;
use crate::model::ProcessPortState;
use crate::text::{
    dec_val, digit_test, is_digit, lemma_scan_digits_range, parse_u64_at, scan_digits,
    spec_parse_u64_at, string_from_chars,
};

verus! {

/// The whitespace that separates columns: spaces and tabs.
pub open spec fn is_ws(c: char) -> bool {
    c == ' ' || c == '\t'
}

/// Whether `c` separates columns, executably.
fn ws_test(c: char) -> (r: bool)
    ensures
        r == is_ws(c),
{
    c == ' ' || c == '\t'
}

/// The index of the first separator at or after `i`, or the end.
pub open spec fn scan_tok(s: Seq<char>, i: int) -> int
    decreases s.len() - i when 0 <= i <= s.len()
{
    if i < s.len() && !is_ws(s[i]) {
        scan_tok(s, i + 1)
    } else {
        i
    }
}

proof fn lemma_scan_tok_bounds(s: Seq<char>, i: int)
    requires
        0 <= i <= s.len(),
    ensures
        i <= scan_tok(s, i) <= s.len(),
        forall|k: int| i <= k < scan_tok(s, i) ==> !is_ws(#[trigger] s[k]),
        scan_tok(s, i) < s.len() ==> is_ws(s[scan_tok(s, i)]),
    decreases s.len() - i,
{
    if i < s.len() && !is_ws(s[i]) {
        lemma_scan_tok_bounds(s, i + 1);
    }
}

/// The whitespace-separated columns of a line, in order.
pub open spec fn tokens_from(s: Seq<char>, i: int) -> Seq<Seq<char>>
    decreases s.len() - i when 0 <= i <= s.len()
{
    if i >= s.len() {
        Seq::empty()
    } else if is_ws(s[i]) {
        tokens_from(s, i + 1)
    } else {
        let j = scan_tok(s, i + 1);
        // The scan always lands in this range; the test keeps the
        // recursion visibly well-founded.
        if i + 1 <= j <= s.len() {
            seq![s.subrange(i, j)] + tokens_from(s, j)
        } else {
            Seq::empty()
        }
    }
}

/// The views of a vector of character vectors.
pub open spec fn toks_of(s: Seq<Vec<char>>) -> Seq<Seq<char>> {
    s.map_values(|v: Vec<char>| v@)
}

/// The characters of `v` from `i` to `j`.
fn chars_range(v: &Vec<char>, i: usize, j: usize) -> (r: Vec<char>)
    requires
        i <= j <= v@.len(),
    ensures
        r@ == v@.subrange(i as int, j as int),
{
    let mut r: Vec<char> = Vec::new();
    let mut k: usize = i;
    while k < j
        invariant
            i <= k <= j <= v@.len(),
            r@ == v@.subrange(i as int, k as int),
        decreases j - k,
    {
        r.push(v[k]);
        proof {
            assert(r@ =~= v@.subrange(i as int, k + 1 as int));
        }
        k = k + 1;
    }
    proof {
        assert(r@ =~= v@.subrange(i as int, j as int));
    }
    r
}

/// The index of the first separator at or after `i`, executably.
fn token_end(s: &Vec<char>, i: usize) -> (r: usize)
    requires
        i <= s@.len(),
    ensures
        r == scan_tok(s@, i as int),
        i <= r <= s@.len(),
{
    let mut j: usize = i;
    while j < s.len() && !ws_test(s[j])
        invariant
            i <= j <= s@.len(),
            scan_tok(s@, i as int) == scan_tok(s@, j as int),
        decreases s@.len() - j,
    {
        j = j + 1;
    }
    j
}

/// Splits a line into its whitespace-separated columns.
pub fn tokenize(line: &Vec<char>) -> (r: Vec<Vec<char>>)
    ensures
        toks_of(r@) == tokens_from(line@, 0),
{
    let mut out: Vec<Vec<char>> = Vec::new();
    let mut i: usize = 0;
    proof {
        assert(toks_of(out@) =~= Seq::<Seq<char>>::empty());
        assert(tokens_from(line@, 0int) =~= toks_of(out@) + tokens_from(line@, 0int));
    }
    while i < line.len()
        invariant
            i <= line@.len(),
            tokens_from(line@, 0) == toks_of(out@) + tokens_from(line@, i as int),
        decreases line@.len() - i,
    {
        if ws_test(line[i]) {
            i = i + 1;
        } else {
            let ghost i0 = i as int;
            let j = token_end(line, i + 1);
            proof {
                lemma_scan_tok_bounds(line@, i0 + 1);
                assert(tokens_from(line@, i0) == seq![line@.subrange(i0, j as int)]
                    + tokens_from(line@, j as int));
            }
            let tok = chars_range(line, i, j);
            out.push(tok);
            proof {
                assert(toks_of(out@) =~= toks_of(out@.drop_last()).push(line@.subrange(
                    i0,
                    j as int,
                )));
                assert(toks_of(out@.drop_last()) + (seq![line@.subrange(i0, j as int)]
                    + tokens_from(line@, j as int)) =~= toks_of(out@) + tokens_from(
                    line@,
                    j as int,
                ));
            }
            i = j;
        }
    }
    proof {
        assert(tokens_from(line@, i as int) =~= Seq::<Seq<char>>::empty());
        assert(toks_of(out@) + Seq::<Seq<char>>::empty() =~= toks_of(out@));
    }
    out
}

/// The index of the first line break at or after `i`, or the end.
pub open spec fn scan_nl(s: Seq<char>, i: int) -> int
    decreases s.len() - i when 0 <= i <= s.len()
{
    if i < s.len() && s[i] != '\n' {
        scan_nl(s, i + 1)
    } else {
        i
    }
}

/// A line with a trailing carriage return removed.
pub open spec fn strip_cr(l: Seq<char>) -> Seq<char> {
    if l.len() > 0 && l.last() == '\r' {
        l.drop_last()
    } else {
        l
    }
}

/// The lines of a text, split on line breaks, each without a trailing
/// carriage return; a trailing line break ends the last line.
pub open spec fn lines_from(s: Seq<char>, i: int) -> Seq<Seq<char>>
    decreases s.len() - i when 0 <= i <= s.len()
{
    if i >= s.len() {
        Seq::empty()
    } else {
        let j = scan_nl(s, i);
        // The scan always lands in this range; the test keeps the
        // recursion visibly well-founded.
        if i <= j <= s.len() {
            let line = strip_cr(s.subrange(i, j));
            if j >= s.len() {
                seq![line]
            } else {
                seq![line] + lines_from(s, j + 1)
            }
        } else {
            Seq::empty()
        }
    }
}

/// The index of the first line break at or after `i`, executably.
fn line_end(s: &Vec<char>, i: usize) -> (r: usize)
    requires
        i <= s@.len(),
    ensures
        r == scan_nl(s@, i as int),
        i <= r <= s@.len(),
{
    let mut j: usize = i;
    while j < s.len() && s[j] != '\n'
        invariant
            i <= j <= s@.len(),
            scan_nl(s@, i as int) == scan_nl(s@, j as int),
        decreases s@.len() - j,
    {
        j = j + 1;
    }
    j
}

/// Splits a text into its lines.
pub fn split_lines(s: &Vec<char>) -> (r: Vec<Vec<char>>)
    ensures
        toks_of(r@) == lines_from(s@, 0),
{
    let mut out: Vec<Vec<char>> = Vec::new();
    let mut i: usize = 0;
    proof {
        assert(toks_of(out@) + lines_from(s@, 0int) =~= lines_from(s@, 0int));
    }
    while i < s.len()
        invariant
            i <= s@.len(),
            lines_from(s@, 0) == toks_of(out@) + lines_from(s@, i as int),
        decreases s@.len() - i,
    {
        let ghost i0 = i as int;
        let j = line_end(s, i);
        let line: Vec<char> = if j > i && s[j - 1] == '\r' {
            let r = chars_range(s, i, j - 1);
            proof {
                assert(s@.subrange(i0, j as int).last() == s@[j - 1]);
                assert(s@.subrange(i0, j - 1 as int) =~= s@.subrange(i0, j as int).drop_last());
                assert(r@ == strip_cr(s@.subrange(i0, j as int)));
            }
            r
        } else {
            let r = chars_range(s, i, j);
            proof {
                if s@.subrange(i0, j as int).len() > 0 {
                    assert(s@.subrange(i0, j as int).last() == s@[j - 1]);
                }
                assert(r@ == strip_cr(s@.subrange(i0, j as int)));
            }
            r
        };
        out.push(line);
        proof {
            let ghost lv = strip_cr(s@.subrange(i0, j as int));
            if j >= s@.len() {
                assert(lines_from(s@, i0) == seq![lv]);
                assert(toks_of(out@) =~= toks_of(out@.drop_last()).push(lv));
                assert(toks_of(out@.drop_last()) + seq![lv] =~= toks_of(out@));
            } else {
                assert(lines_from(s@, i0) == seq![lv] + lines_from(s@, j + 1));
                assert(toks_of(out@) =~= toks_of(out@.drop_last()).push(lv));
                assert(toks_of(out@.drop_last()) + (seq![lv] + lines_from(s@, j + 1 as int))
                    =~= toks_of(out@) + lines_from(s@, j + 1 as int));
            }
        }
        if j >= s.len() {
            proof {
                assert(toks_of(out@) =~= lines_from(s@, 0int));
            }
            return out;
        }
        i = j + 1;
    }
    proof {
        assert(lines_from(s@, i as int) =~= Seq::<Seq<char>>::empty());
        assert(toks_of(out@) + Seq::<Seq<char>>::empty() =~= toks_of(out@));
    }
    out
}

/// A decimal process id, if the token is exactly a numeral that fits.
pub open spec fn pid_of(t: Seq<char>) -> Option<u32> {
    if t.len() >= 1 && (forall|k: int| 0 <= k < t.len() ==> is_digit(#[trigger] t[k])) && dec_val(
        t,
    ) <= u32::MAX {
        Some(dec_val(t) as u32)
    } else {
        None
    }
}

/// A decimal port number, if the token is exactly a numeral that fits.
pub open spec fn u16_of(t: Seq<char>) -> Option<u16> {
    if t.len() >= 1 && (forall|k: int| 0 <= k < t.len() ==> is_digit(#[trigger] t[k])) && dec_val(
        t,
    ) <= u16::MAX {
        Some(dec_val(t) as u16)
    } else {
        None
    }
}

/// Reads a whole token as a decimal number below the bound, or `None`.
fn parse_numeral(t: &Vec<char>, bound: u64) -> (r: Option<u64>)
    ensures
        match r {
            Some(v) => t@.len() >= 1 && (forall|k: int|
                0 <= k < t@.len() ==> is_digit(#[trigger] t@[k])) && dec_val(t@) == v && v
                <= bound,
            None => !(t@.len() >= 1 && (forall|k: int|
                0 <= k < t@.len() ==> is_digit(#[trigger] t@[k])) && dec_val(t@) <= bound),
        },
{
    if t.len() == 0 {
        return None;
    }
    let mut k: usize = 0;
    while k < t.len()
        invariant
            k <= t@.len(),
            forall|m: int| 0 <= m < k ==> is_digit(#[trigger] t@[m]),
        decreases t@.len() - k,
    {
        if !digit_test(t[k]) {
            return None;
        }
        k = k + 1;
    }
    proof {
        lemma_scan_digits_range(t@, 0, t@.len() as int);
        assert(t@.subrange(0, t@.len() as int) =~= t@);
        assert(scan_digits(t@, 0) == t@.len());
        crate::text::lemma_dec_val_nonneg(t@);
        assert(dec_val(t@.subrange(0, t@.len() as int)) == dec_val(t@));
        if dec_val(t@) <= u64::MAX {
            assert(spec_parse_u64_at(t@, 0) == Some((dec_val(t@) as u64, t@.len() as int)));
        } else {
            assert(spec_parse_u64_at(t@, 0) is None);
        }
    }
    match parse_u64_at(t, 0) {
        Some((v, _)) => {
            proof {
                assert(dec_val(t@) == v);
            }
            if v <= bound {
                Some(v)
            } else {
                None
            }
        },
        None => {
            proof {
                assert(dec_val(t@) > u64::MAX);
            }
            None
        },
    }
}

/// The characters after the last colon, or the whole token if it has none.
pub open spec fn after_last_colon(t: Seq<char>) -> Seq<char>
    decreases t.len(),
{
    if t.len() == 0 {
        t
    } else if t.last() == ':' {
        Seq::empty()
    } else {
        after_last_colon(t.drop_last()).push(t.last())
    }
}

proof fn lemma_after_last_colon(t: Seq<char>, start: int)
    requires
        0 <= start <= t.len(),
        forall|k: int| start <= k < t.len() ==> t[k] != ':',
        start > 0 ==> t[start - 1] == ':',
        start == 0 ==> forall|k: int| 0 <= k < t.len() ==> t[k] != ':',
    ensures
        after_last_colon(t) == t.subrange(start, t.len() as int),
    decreases t.len(),
{
    if t.len() == 0 {
        assert(after_last_colon(t) =~= t.subrange(0, 0));
    } else if start == t.len() {
        assert(t.last() == ':');
        assert(after_last_colon(t) =~= t.subrange(start, t.len() as int));
    } else {
        assert(t.last() != ':');
        let d = t.drop_last();
        assert(forall|k: int| start <= k < d.len() ==> d[k] != ':');
        if start > 0 {
            assert(d[start - 1] == t[start - 1]);
        }
        lemma_after_last_colon(d, start);
        assert(after_last_colon(t) == d.subrange(start, d.len() as int).push(t.last()));
        assert(d.subrange(start, d.len() as int).push(t.last()) =~= t.subrange(
            start,
            t.len() as int,
        ));
    }
}

/// The part of `t` after its last colon, executably.
fn tail_after_colon(t: &Vec<char>) -> (r: Vec<char>)
    ensures
        r@ == after_last_colon(t@),
{
    let mut m: usize = t.len();
    while m > 0
        invariant
            m <= t@.len(),
            forall|k: int| m <= k < t@.len() ==> t@[k] != ':',
        decreases m,
    {
        if t[m - 1] == ':' {
            proof {
                lemma_after_last_colon(t@, m as int);
            }
            return chars_range(t, m, t.len());
        }
        m = m - 1;
    }
    proof {
        lemma_after_last_colon(t@, 0);
        assert(t@.subrange(0, t@.len() as int) =~= t@);
    }
    chars_range(t, 0, t.len())
}

/// The port read from an address column: the numeral after the last
/// colon, or zero when that is not a numeral in range.
pub open spec fn port_of(t: Seq<char>) -> u16 {
    match u16_of(after_last_colon(t)) {
        Some(p) => p,
        None => 0,
    }
}

/// The port of an address column, executably.
fn parse_port_token(t: &Vec<char>) -> (r: u16)
    ensures
        r == port_of(t@),
{
    let u = tail_after_colon(t);
    match parse_numeral(&u, u16::MAX as u64) {
        Some(v) => v as u16,
        None => 0,
    }
}

/// Reads a whole token as a process id, exactly as [`pid_of`] describes.
pub fn parse_pid_token(t: &Vec<char>) -> (r: Option<u32>)
    ensures
        match r {
            Some(v) => pid_of(t@) == Some(v),
            None => pid_of(t@) is None,
        },
{
    match parse_numeral(t, u32::MAX as u64) {
        Some(v) => Some(v as u32),
        None => None,
    }
}

/// Reads the port after an address column's last colon, or `None` when it
/// is not exactly a numeral in range.
pub fn parse_u16_token(t: &Vec<char>) -> (r: Option<u16>)
    ensures
        match r {
            Some(v) => u16_of(after_last_colon(t@)) == Some(v),
            None => u16_of(after_last_colon(t@)) is None,
        },
{
    let u = tail_after_colon(t);
    match parse_numeral(&u, u16::MAX as u64) {
        Some(v) => Some(v as u16),
        None => None,
    }
}

/// Whether the token holds `LISTEN` anywhere, for callers outside.
pub fn listen_token(t: &Vec<char>) -> (r: bool)
    ensures
        r == contains_listen(t@),
{
    listen_test(t)
}

/// Whether the token holds `LISTEN` anywhere.
pub open spec fn contains_listen(t: Seq<char>) -> bool {
    exists|m: int| starts_with_at(t, m, "LISTEN"@)
}

/// Whether the token holds `LISTEN` anywhere, executably.
fn listen_test(t: &Vec<char>) -> (r: bool)
    ensures
        r == contains_listen(t@),
{
    let mut m: usize = 0;
    while m < t.len()
        invariant
            m <= t@.len(),
            forall|p: int| 0 <= p < m ==> !starts_with_at(t@, p, "LISTEN"@),
        decreases t@.len() - m,
    {
        if let Some(_) = crate::codec::expect_lit(t, m, "LISTEN") {
            return true;
        }
        m = m + 1;
    }
    proof {
        reveal_strlit("LISTEN");
        if contains_listen(t@) {
            let p = choose|p: int| starts_with_at(t@, p, "LISTEN"@);
            assert(p + 6 <= t@.len());
            assert(!starts_with_at(t@, p, "LISTEN"@));
        }
    }
    false
}

/// The mathematical value of one parsed port row.
#[verifier::ext_equal]
pub ghost struct RowRecord {
    pub pid: u32,
    pub port: u16,
    pub name: Seq<char>,
    pub state: ProcessPortState,
}

/// One parsed port row: the owning pid, the local port, the process name
/// column, and the connection-state classification.
#[derive(Debug, Clone, PartialEq, Eq)]
pub struct LsofRow {
    pub pid: u32,
    pub port: u16,
    pub process_name: String,
    pub state: ProcessPortState,
}

impl View for LsofRow {
    type V = RowRecord;

    open spec fn view(&self) -> RowRecord {
        RowRecord {
            pid: self.pid,
            port: self.port,
            name: self.process_name@,
            state: self.state,
        }
    }
}

/// The row views of a sequence of rows.
pub open spec fn rows_of(s: Seq<LsofRow>) -> Seq<RowRecord> {
    s.map_values(|r: LsofRow| r@)
}

/// The row a line yields: `None` when it has fewer than nine columns or
/// its second column is not a process id.  The state is `Hosting` exactly
/// when a tenth column holds `LISTEN`; the port comes from the ninth
/// column, zero when unreadable.
pub open spec fn row_of_line(line: Seq<char>) -> Option<RowRecord> {
    let parts = tokens_from(line, 0);
    if parts.len() < 9 {
        None
    } else {
        match pid_of(parts[1]) {
            None => None,
            Some(pid) => Some(
                RowRecord {
                    pid,
                    port: port_of(parts[8]),
                    name: parts[0],
                    state: if parts.len() > 9 && contains_listen(parts[9]) {
                        ProcessPortState::Hosting
                    } else {
                        ProcessPortState::Using
                    },
                },
            ),
        }
    }
}

/// Parses one line into a row, exactly as [`row_of_line`] describes.
fn parse_row(line: &Vec<char>) -> (r: Option<LsofRow>)
    ensures
        match r {
            Some(row) => row_of_line(line@) == Some(row@),
            None => row_of_line(line@) is None,
        },
{
    let parts = tokenize(line);
    if parts.len() < 9 {
        return None;
    }
    let pid64 = match parse_numeral(&parts[1], u32::MAX as u64) {
        Some(v) => v,
        None => {
            proof {
                assert(toks_of(parts@)[1] == parts@[1]@);
            }
            return None;
        },
    };
    let port = parse_port_token(&parts[8]);
    let state = if parts.len() > 9 && listen_test(&parts[9]) {
        ProcessPortState::Hosting
    } else {
        ProcessPortState::Using
    };
    let name = string_from_chars(&parts[0]);
    let row = LsofRow { pid: pid64 as u32, port, process_name: name, state };
    proof {
        let sp = tokens_from(line@, 0);
        assert(sp[0] == parts@[0]@);
        assert(sp[1] == parts@[1]@);
        assert(sp[8] == parts@[8]@);
        if sp.len() > 9 {
            assert(sp[9] == parts@[9]@);
        }
        assert(row@ =~= row_of_line(line@).unwrap());
    }
    Some(row)
}

/// State classification: a parsed line yields `Hosting` exactly when its
/// tenth column exists and holds `LISTEN`; every other line that parses
/// yields `Using`.
pub proof fn lemma_listen_classification(line: Seq<char>)
    ensures
        match row_of_line(line) {
            Some(r) => r.state == (if tokens_from(line, 0).len() > 9 && contains_listen(
                tokens_from(line, 0)[9],
            ) {
                ProcessPortState::Hosting
            } else {
                ProcessPortState::Using
            }),
            None => true,
        },
{
}

/// The rows of all lines that parse, in order.
pub open spec fn raw_rows(ls: Seq<Seq<char>>) -> Seq<RowRecord>
    decreases ls.len(),
{
    if ls.len() == 0 {
        Seq::empty()
    } else {
        raw_rows(ls.drop_last()) + (match row_of_line(ls.last()) {
            Some(r) => seq![r],
            None => Seq::empty(),
        })
    }
}

/// Whether some earlier row claims the same `(pid, port)` key.
pub open spec fn key_in(rows: Seq<RowRecord>, pid: u32, port: u16) -> bool {
    exists|m: int| 0 <= m < rows.len() && rows[m].pid == pid && #[trigger] rows[m].port == port
}

/// The rows with every later holder of an already-seen `(pid, port)` key
/// removed: first occurrence wins.
pub open spec fn dedup_rows(rows: Seq<RowRecord>) -> Seq<RowRecord>
    decreases rows.len(),
{
    if rows.len() == 0 {
        rows
    } else {
        let rest = dedup_rows(rows.drop_last());
        if key_in(rows.drop_last(), rows.last().pid, rows.last().port) {
            rest
        } else {
            rest.push(rows.last())
        }
    }
}

/// Appending one row adds exactly its key to the keys present.
proof fn lemma_key_in_push(rows: Seq<RowRecord>, r: RowRecord, pid: u32, port: u16)
    ensures
        key_in(rows.push(r), pid, port) == (key_in(rows, pid, port) || (r.pid == pid && r.port
            == port)),
{
    let p = rows.push(r);
    if key_in(p, pid, port) {
        let m = choose|m: int| 0 <= m < p.len() && p[m].pid == pid && #[trigger] p[m].port == port;
        if m < rows.len() {
            assert(rows[m].pid == pid && rows[m].port == port);
        } else {
            assert(p[m] == r);
        }
    }
    if key_in(rows, pid, port) {
        let m = choose|m: int|
            0 <= m < rows.len() && rows[m].pid == pid && #[trigger] rows[m].port == port;
        assert(p[m].pid == pid && p[m].port == port);
    }
    if r.pid == pid && r.port == port {
        assert(p[rows.len() as int].pid == pid && p[rows.len() as int].port == port);
    }
}

/// Deduplication keeps each key exactly once: the result has pairwise
/// distinct keys, and holds a key if and only if the input does.
pub proof fn lemma_dedup_rows(rows: Seq<RowRecord>)
    ensures
        forall|i: int, j: int|
            0 <= i < j < dedup_rows(rows).len() ==> !(dedup_rows(rows)[i].pid == dedup_rows(
                rows,
            )[j].pid && #[trigger] dedup_rows(rows)[i].port == #[trigger] dedup_rows(
                rows,
            )[j].port),
        forall|pid: u32, port: u16|
            key_in(rows, pid, port) == #[trigger] key_in(dedup_rows(rows), pid, port),
    decreases rows.len(),
{
    let ded = dedup_rows(rows);
    if rows.len() > 0 {
        let prefix = rows.drop_last();
        let last = rows.last();
        lemma_dedup_rows(prefix);
        let rest = dedup_rows(prefix);
        assert(rows =~= prefix.push(last));
        assert forall|pid: u32, port: u16|
            key_in(rows, pid, port) == #[trigger] key_in(ded, pid, port) by {
            lemma_key_in_push(prefix, last, pid, port);
            assert(key_in(prefix, pid, port) == key_in(rest, pid, port));
            if key_in(prefix, last.pid, last.port) {
                assert(ded == rest);
                if last.pid == pid && last.port == port {
                    assert(key_in(prefix, pid, port));
                }
            } else {
                assert(ded == rest.push(last));
                lemma_key_in_push(rest, last, pid, port);
            }
        }
        if !key_in(prefix, last.pid, last.port) {
            assert(!key_in(rest, last.pid, last.port));
            assert(ded == rest.push(last));
            assert forall|i: int, j: int| 0 <= i < j < ded.len() implies !(ded[i].pid == ded[j].pid
                && #[trigger] ded[i].port == #[trigger] ded[j].port) by {
                if j < ded.len() - 1 {
                    assert(ded[i] == rest[i] && ded[j] == rest[j]);
                } else {
                    assert(ded[j] == last);
                    assert(ded[i] == rest[i]);
                    if ded[i].pid == last.pid && ded[i].port == last.port {
                        assert(rest[i].pid == last.pid && rest[i].port == last.port);
                        assert(key_in(rest, last.pid, last.port));
                    }
                }
            }
        } else {
            assert(ded == rest);
        }
    }
}

/// Deduplication of a listing: the fetched rows never repeat a
/// `(pid, port)` key, and hold a key exactly when some parsed line
/// claimed it — two raw rows with one key yield one row.
pub proof fn lemma_fetch_dedup(s: Seq<char>)
    ensures
        forall|i: int, j: int|
            0 <= i < j < spec_rows(s).len() ==> !(spec_rows(s)[i].pid == spec_rows(s)[j].pid
                && #[trigger] spec_rows(s)[i].port == #[trigger] spec_rows(s)[j].port),
        forall|pid: u32, port: u16|
            key_in(raw_rows(skip_header(lines_from(s, 0))), pid, port) == #[trigger] key_in(
                spec_rows(s),
                pid,
                port,
            ),
{
    lemma_dedup_rows(raw_rows(skip_header(lines_from(s, 0))));
}

/// The lines after the header line.
pub open spec fn skip_header(ls: Seq<Seq<char>>) -> Seq<Seq<char>> {
    if ls.len() == 0 {
        ls
    } else {
        ls.drop_first()
    }
}

/// The rows that a whole listing yields: the header line is skipped, each
/// remaining line parses or is dropped, and `(pid, port)` keys are
/// deduplicated, first seen first.
pub open spec fn spec_rows(s: Seq<char>) -> Seq<RowRecord> {
    dedup_rows(raw_rows(skip_header(lines_from(s, 0))))
}

/// Whether some row of `v` claims the key, executably.
fn key_in_exec(v: &Vec<LsofRow>, pid: u32, port: u16) -> (r: bool)
    ensures
        r == key_in(rows_of(v@), pid, port),
{
    let mut i: usize = 0;
    while i < v.len()
        invariant
            i <= v@.len(),
            forall|m: int| 0 <= m < i ==> !(rows_of(v@)[m].pid == pid && #[trigger] rows_of(
                v@,
            )[m].port == port),
        decreases v@.len() - i,
    {
        if v[i].pid == pid && v[i].port == port {
            proof {
                assert(rows_of(v@)[i as int].pid == pid && rows_of(v@)[i as int].port == port);
            }
            return true;
        }
        i = i + 1;
    }
    proof {
        if key_in(rows_of(v@), pid, port) {
            let m = choose|m: int|
                0 <= m < rows_of(v@).len() && rows_of(v@)[m].pid == pid && #[trigger] rows_of(
                    v@,
                )[m].port == port;
        }
    }
    false
}

/// Parses a whole listing into deduplicated port rows, exactly as
/// [`spec_rows`] describes.
pub fn parse_lsof_output(output: &str) -> (r: Vec<LsofRow>)
    ensures
        rows_of(r@) == spec_rows(output@),
{
    let cs = crate::text::chars_vec(output);
    let lines = split_lines(&cs);
    let ghost hs = skip_header(toks_of(lines@));
    let mut out: Vec<LsofRow> = Vec::new();
    let mut i: usize = 1;
    proof {
        assert(raw_rows(hs.take(0int)) =~= Seq::<RowRecord>::empty());
        assert(rows_of(out@) =~= dedup_rows(raw_rows(hs.take(0int))));
        if lines@.len() == 0 {
            assert(hs =~= Seq::<Seq<char>>::empty());
        } else {
            assert(hs.len() == lines@.len() - 1);
            assert(forall|k: int| 0 <= k < hs.len() ==> hs[k] == toks_of(lines@)[k + 1]);
        }
    }
    while i < lines.len()
        invariant
            1 <= i,
            lines@.len() == 0 ==> i == 1,
            lines@.len() > 0 ==> i <= lines@.len(),
            hs == skip_header(toks_of(lines@)),
            lines@.len() > 0 ==> hs.len() == lines@.len() - 1,
            forall|k: int| 0 <= k < hs.len() ==> hs[k] == toks_of(lines@)[k + 1],
            rows_of(out@) == dedup_rows(raw_rows(hs.take(i - 1))),
        decreases lines@.len() - i,
    {
        let ghost seen = raw_rows(hs.take(i - 1));
        let row_opt = parse_row(&lines[i]);
        proof {
            assert(hs[i - 1] == lines@[i as int]@);
            assert(raw_rows(hs.take(i as int)) == seen + (match row_of_line(hs[i - 1]) {
                Some(r) => seq![r],
                None => Seq::<RowRecord>::empty(),
            })) by {
                assert(hs.take(i as int).drop_last() =~= hs.take(i - 1));
                assert(hs.take(i as int).last() == hs[i - 1]);
            }
        }
        match row_opt {
            Some(row) => {
                let ghost rv = row@;
                proof {
                    lemma_dedup_rows(seen);
                    assert(raw_rows(hs.take(i as int)) =~= seen.push(rv));
                    assert(raw_rows(hs.take(i as int)).drop_last() =~= seen);
                    assert(dedup_rows(raw_rows(hs.take(i as int))) == (if key_in(
                        seen,
                        rv.pid,
                        rv.port,
                    ) {
                        dedup_rows(seen)
                    } else {
                        dedup_rows(seen).push(rv)
                    }));
                }
                if !key_in_exec(&out, row.pid, row.port) {
                    out.push(row);
                    proof {
                        assert(rows_of(out@) =~= rows_of(out@.drop_last()).push(rv));
                    }
                } else {
                }
            },
            None => {
                proof {
                    assert(raw_rows(hs.take(i as int)) =~= seen);
                }
            },
        }
        i = i + 1;
    }
    proof {
        if lines@.len() == 0 {
            assert(hs.take(0int) =~= hs);
        } else {
            assert(hs.take(i - 1) =~= hs);
        }
    }
    out
}

} // verus!
