//! The JSON form of a snapshot: a pretty-printed array of record objects.
//! Rendering and parsing are both specified exactly, and parsing is proved
//! to invert rendering.

use vstd::prelude::*;
use crate::codec::{
    expect_lit, lemma_esc_plain, lemma_split_subrange, lemma_state_chars, push_lit, push_state,
    starts_with_at, state_chars,
};
use crate::model::{records_of, PortInfo, PortRecord, ProcessPortState};
use crate::quoted::{esc, lemma_scan_esc, push_escaped, scan_string, spec_scan_string};
use crate::text::{
    append_u64, chars_vec, dec_of, is_digit, lemma_dec_of, lemma_parse_u64_emitted, parse_u64_at,
    spec_parse_u64_at, string_from_chars,
};

verus! {

/// A double quote, as a one-character sequence.
pub open spec fn q() -> Seq<char> {
    seq!['"']
}

/// The JSON object for one record.
pub open spec fn json_record(r: PortRecord) -> Seq<char> {
    "  {\n    \"id\": \""@ + esc(r.id) + q() + ",\n    \"port\": "@ + dec_of(r.port as nat)
        + ",\n    \"pid\": "@ + dec_of(r.pid as nat) + ",\n    \"process_name\": \""@ + esc(
        r.process_name,
    ) + q() + ",\n    \"process_path\": \""@ + esc(r.process_path) + q()
        + ",\n    \"port_state\": \""@ + esc(state_chars(r.port_state)) + q() + "\n  }"@
}

/// The comma-separated JSON objects of a snapshot's records.
pub open spec fn json_items(rs: Seq<PortRecord>) -> Seq<char>
    decreases rs.len(),
{
    if rs.len() == 0 {
        Seq::empty()
    } else if rs.len() == 1 {
        json_record(rs[0])
    } else {
        json_record(rs[0]) + ",\n"@ + json_items(rs.drop_first())
    }
}

/// The full JSON text of a snapshot.
pub open spec fn json_snapshot(rs: Seq<PortRecord>) -> Seq<char> {
    if rs.len() == 0 {
        "[]"@
    } else {
        "[\n"@ + json_items(rs) + "\n]"@
    }
}

/// The state named by an exported label, if any.
pub open spec fn state_of_chars(t: Seq<char>) -> Option<ProcessPortState> {
    if t == "Hosting"@ {
        Some(ProcessPortState::Hosting)
    } else if t == "Using"@ {
        Some(ProcessPortState::Using)
    } else {
        None
    }
}

/// `pat` at position `i` of `s`: the index just past it, or `None`.
pub open spec fn expect_at(s: Seq<char>, i: int, pat: Seq<char>) -> Option<int> {
    if starts_with_at(s, i, pat) {
        Some(i + pat.len())
    } else {
        None
    }
}

/// Parsing one record object at position `i`: the record and the index just
/// past the object's closing brace.
pub open spec fn spec_parse_record(s: Seq<char>, i: int) -> Option<(PortRecord, int)> {
    match expect_at(s, i, "  {\n    \"id\": \""@) {
        None => None,
        Some(i1) => match spec_scan_string(s, i1) {
            None => None,
            Some((id, i2)) => match expect_at(s, i2, ",\n    \"port\": "@) {
                None => None,
                Some(i3) => match spec_parse_u64_at(s, i3) {
                    None => None,
                    Some((port, i4)) => if port > u16::MAX as u64 {
                        None
                    } else {
                        match expect_at(s, i4, ",\n    \"pid\": "@) {
                            None => None,
                            Some(i5) => match spec_parse_u64_at(s, i5) {
                                None => None,
                                Some((pid, i6)) => if pid > u32::MAX as u64 {
                                    None
                                } else {
                                    spec_parse_record_tail(s, i6, id, port as u16, pid as u32)
                                },
                            },
                        }
                    },
                },
            },
        },
    }
}

/// The rest of a record object, from the `process_name` key on.
pub open spec fn spec_parse_record_tail(
    s: Seq<char>,
    i6: int,
    id: Seq<char>,
    port: u16,
    pid: u32,
) -> Option<(PortRecord, int)> {
    match expect_at(s, i6, ",\n    \"process_name\": \""@) {
        None => None,
        Some(i7) => match spec_scan_string(s, i7) {
            None => None,
            Some((name, i8)) => match expect_at(s, i8, ",\n    \"process_path\": \""@) {
                None => None,
                Some(i9) => match spec_scan_string(s, i9) {
                    None => None,
                    Some((path, i10)) => match expect_at(s, i10, ",\n    \"port_state\": \""@) {
                        None => None,
                        Some(i11) => match spec_scan_string(s, i11) {
                            None => None,
                            Some((stc, i12)) => match state_of_chars(stc) {
                                None => None,
                                Some(st) => match expect_at(s, i12, "\n  }"@) {
                                    None => None,
                                    Some(i13) => Some(
                                        (
                                            PortRecord {
                                                id,
                                                port,
                                                pid,
                                                process_name: name,
                                                process_path: path,
                                                port_state: st,
                                            },
                                            i13,
                                        ),
                                    ),
                                },
                            },
                        },
                    },
                },
            },
        },
    }
}

/// Parsing the record objects from position `i` to the closing `]` at the
/// very end of the text.
pub open spec fn spec_parse_items(s: Seq<char>, i: int) -> Option<(Seq<PortRecord>, int)>
    decreases s.len() - i when 0 <= i <= s.len()
{
    match spec_parse_record(s, i) {
        None => None,
        Some((r, j)) => if j <= i || j > s.len() {
            None
        } else if starts_with_at(s, j, ",\n"@) {
            match spec_parse_items(s, j + ",\n"@.len()) {
                None => None,
                Some((rest, k)) => Some((seq![r] + rest, k)),
            }
        } else if starts_with_at(s, j, "\n]"@) && j + "\n]"@.len() == s.len() {
            Some((seq![r], s.len() as int))
        } else {
            None
        },
    }
}

/// Parsing a whole snapshot text: the records, if the text is exactly a
/// rendered snapshot.
pub open spec fn spec_parse_snapshot(s: Seq<char>) -> Option<Seq<PortRecord>> {
    if s == "[]"@ {
        Some(Seq::empty())
    } else if starts_with_at(s, 0, "[\n"@) {
        match spec_parse_items(s, "[\n"@.len() as int) {
            None => None,
            Some((rs, _)) => Some(rs),
        }
    } else {
        None
    }
}

/// Appends the JSON object of `p` to `out`.
pub fn push_json_record(out: &mut Vec<char>, p: &PortInfo)
    ensures
        final(out)@ == old(out)@ + json_record(p@),
{
    let id = chars_vec(p.id.as_str());
    let name = chars_vec(p.process_name.as_str());
    let path = chars_vec(p.process_path.as_str());
    push_lit(out, "  {\n    \"id\": \"");
    push_escaped(out, &id);
    out.push('"');
    proof {
        assert(out@ =~= old(out)@ + ("  {\n    \"id\": \""@ + esc(p@.id) + q()));
    }
    push_lit(out, ",\n    \"port\": ");
    append_u64(out, p.port as u64);
    proof {
        assert(out@ =~= old(out)@ + ("  {\n    \"id\": \""@ + esc(p@.id) + q()
            + ",\n    \"port\": "@ + dec_of(p@.port as nat)));
    }
    push_lit(out, ",\n    \"pid\": ");
    append_u64(out, p.pid as u64);
    push_lit(out, ",\n    \"process_name\": \"");
    push_escaped(out, &name);
    out.push('"');
    proof {
        assert(out@ =~= old(out)@ + ("  {\n    \"id\": \""@ + esc(p@.id) + q()
            + ",\n    \"port\": "@ + dec_of(p@.port as nat) + ",\n    \"pid\": "@ + dec_of(
            p@.pid as nat,
        ) + ",\n    \"process_name\": \""@ + esc(p@.process_name) + q()));
    }
    push_lit(out, ",\n    \"process_path\": \"");
    push_escaped(out, &path);
    out.push('"');
    push_lit(out, ",\n    \"port_state\": \"");
    push_state(out, p.port_state);
    out.push('"');
    push_lit(out, "\n  }");
    proof {
        lemma_state_chars(p@.port_state);
        assert(out@ =~= old(out)@ + json_record(p@));
    }
}

/// `json_items` grows on the right by a separator and one more object.
pub proof fn lemma_json_items_snoc(rs: Seq<PortRecord>, r: PortRecord)
    requires
        rs.len() >= 1,
    ensures
        json_items(rs.push(r)) == json_items(rs) + ",\n"@ + json_record(r),
    decreases rs.len(),
{
    let p = rs.push(r);
    if rs.len() == 1 {
        assert(p.drop_first() =~= seq![r]);
        assert(json_items(p) == json_record(p[0]) + ",\n"@ + json_items(p.drop_first()));
        assert(json_items(seq![r]) == json_record(r));
        assert(p[0] == rs[0]);
    } else {
        assert(p.drop_first() =~= rs.drop_first().push(r));
        lemma_json_items_snoc(rs.drop_first(), r);
        assert(json_items(p) == json_record(rs[0]) + ",\n"@ + ((json_items(rs.drop_first())
            + ",\n"@) + json_record(r)));
        assert(json_record(rs[0]) + ",\n"@ + ((json_items(rs.drop_first()) + ",\n"@) + json_record(
            r,
        )) =~= ((json_record(rs[0]) + ",\n"@ + json_items(rs.drop_first())) + ",\n"@) + json_record(
            r,
        ));
    }
}

/// The full JSON text of a snapshot, as a `String`.
pub fn json_snapshot_string(entries: &Vec<PortInfo>) -> (r: String)
    ensures
        r@ == json_snapshot(records_of(entries@)),
{
    let ghost rs = records_of(entries@);
    if entries.len() == 0 {
        let s = "[]";
        let out = chars_vec(s);
        return string_from_chars(&out);
    }
    let mut out: Vec<char> = Vec::new();
    push_lit(&mut out, "[\n");
    let mut i: usize = 0;
    while i < entries.len()
        invariant
            1 <= entries@.len(),
            i <= entries@.len(),
            rs == records_of(entries@),
            i == 0 ==> out@ == "[\n"@,
            i >= 1 ==> out@ == "[\n"@ + json_items(records_of(entries@.take(i as int))),
        decreases entries@.len() - i,
    {
        if i > 0 {
            push_lit(&mut out, ",\n");
        }
        push_json_record(&mut out, &entries[i]);
        proof {
            let prev = records_of(entries@.take(i as int));
            let now = records_of(entries@.take(i + 1 as int));
            assert(now =~= prev.push(entries@[i as int]@));
            if i == 0 {
                assert(json_items(now) == json_record(now[0]));
                assert(now[0] == entries@[0]@);
                assert(out@ =~= "[\n"@ + json_items(now));
            } else {
                lemma_json_items_snoc(prev, entries@[i as int]@);
                assert(out@ =~= "[\n"@ + json_items(now));
            }
        }
        i = i + 1;
    }
    push_lit(&mut out, "\n]");
    proof {
        assert(entries@.take(entries@.len() as int) =~= entries@);
        assert(out@ =~= json_snapshot(rs));
    }
    string_from_chars(&out)
}

/// Reads one record object at position `i`, exactly as
/// [`spec_parse_record`] describes.
fn parse_record(s: &Vec<char>, i: usize) -> (r: Option<(PortInfo, usize)>)
    requires
        i <= s@.len(),
    ensures
        match r {
            Some((p, j)) => spec_parse_record(s@, i as int) == Some((p@, j as int)) && j
                <= s@.len(),
            None => spec_parse_record(s@, i as int) is None,
        },
{
    let i1 = match expect_lit(s, i, "  {\n    \"id\": \"") {
        Some(x) => x,
        None => {
            return None;
        },
    };
    let (id, i2) = match scan_string(s, i1) {
        Some(x) => x,
        None => {
            return None;
        },
    };
    let i3 = match expect_lit(s, i2, ",\n    \"port\": ") {
        Some(x) => x,
        None => {
            return None;
        },
    };
    let (port64, i4) = match parse_u64_at(s, i3) {
        Some(x) => x,
        None => {
            return None;
        },
    };
    if port64 > u16::MAX as u64 {
        return None;
    }
    let i5 = match expect_lit(s, i4, ",\n    \"pid\": ") {
        Some(x) => x,
        None => {
            return None;
        },
    };
    let (pid64, i6) = match parse_u64_at(s, i5) {
        Some(x) => x,
        None => {
            return None;
        },
    };
    if pid64 > u32::MAX as u64 {
        return None;
    }
    let i7 = match expect_lit(s, i6, ",\n    \"process_name\": \"") {
        Some(x) => x,
        None => {
            return None;
        },
    };
    let (name, i8) = match scan_string(s, i7) {
        Some(x) => x,
        None => {
            return None;
        },
    };
    let i9 = match expect_lit(s, i8, ",\n    \"process_path\": \"") {
        Some(x) => x,
        None => {
            return None;
        },
    };
    let (path, i10) = match scan_string(s, i9) {
        Some(x) => x,
        None => {
            return None;
        },
    };
    let i11 = match expect_lit(s, i10, ",\n    \"port_state\": \"") {
        Some(x) => x,
        None => {
            return None;
        },
    };
    let (stc, i12) = match scan_string(s, i11) {
        Some(x) => x,
        None => {
            return None;
        },
    };
    let st: ProcessPortState = if crate::codec::chars_eq_lit(&stc, "Hosting") {
        ProcessPortState::Hosting
    } else if crate::codec::chars_eq_lit(&stc, "Using") {
        ProcessPortState::Using
    } else {
        return None;
    };
    let i13 = match expect_lit(s, i12, "\n  }") {
        Some(x) => x,
        None => {
            return None;
        },
    };
    let p = PortInfo {
        id: string_from_chars(&id),
        port: port64 as u16,
        pid: pid64 as u32,
        process_name: string_from_chars(&name),
        process_path: string_from_chars(&path),
        port_state: st,
    };
    proof {
        assert(p@ =~= PortRecord {
            id: id@,
            port: port64 as u16,
            pid: pid64 as u32,
            process_name: name@,
            process_path: path@,
            port_state: st,
        });
    }
    Some((p, i13))
}

/// Reads a whole snapshot back from its JSON text, exactly as
/// [`spec_parse_snapshot`] describes: `Some` holds records whose views are
/// the parsed snapshot.
pub fn parse_json_snapshot(s: &str) -> (r: Option<Vec<PortInfo>>)
    ensures
        match r {
            Some(v) => spec_parse_snapshot(s@) == Some(records_of(v@)),
            None => spec_parse_snapshot(s@) is None,
        },
{
    let cs = chars_vec(s);
    if crate::codec::chars_eq_lit(&cs, "[]") {
        let v: Vec<PortInfo> = Vec::new();
        proof {
            assert(records_of(v@) =~= Seq::<PortRecord>::empty());
        }
        return Some(v);
    }
    let start = match expect_lit(&cs, 0, "[\n") {
        Some(x) => x,
        None => {
            return None;
        },
    };
    let mut acc: Vec<PortInfo> = Vec::new();
    let mut j: usize = start;
    proof {
        match spec_parse_items(cs@, j as int) {
            Some((rest, k)) => {
                assert(records_of(acc@) + rest =~= rest);
            },
            None => {},
        }
    }
    loop
        invariant
            j <= cs@.len(),
            cs@ == s@,
            s@ != "[]"@,
            starts_with_at(s@, 0, "[\n"@),
            start == "[\n"@.len(),
            spec_parse_items(cs@, start as int) == (match spec_parse_items(cs@, j as int) {
                Some((rest, k)) => Some((records_of(acc@) + rest, k)),
                None => None::<(Seq<PortRecord>, int)>,
            }),
        decreases cs@.len() - j,
    {
        let ghost j0 = j as int;
        let (p, jn) = match parse_record(&cs, j) {
            Some(x) => x,
            None => {
                return None;
            },
        };
        if jn <= j {
            return None;
        }
        let ghost rec = p@;
        acc.push(p);
        j = jn;
        proof {
            assert(records_of(acc@) =~= records_of(acc@.drop_last()).push(rec));
        }
        if let Some(next) = expect_lit(&cs, j, ",\n") {
            j = next;
            proof {
                assert(spec_parse_items(cs@, j0) == (match spec_parse_items(cs@, j as int) {
                    Some((rest, k)) => Some((seq![rec] + rest, k)),
                    None => None::<(Seq<PortRecord>, int)>,
                }));
                match spec_parse_items(cs@, j as int) {
                    Some((rest, k)) => {
                        assert(records_of(acc@.drop_last()) + (seq![rec] + rest) =~= records_of(
                            acc@,
                        ) + rest);
                    },
                    None => {},
                }
            }
        } else {
            let close = match expect_lit(&cs, j, "\n]") {
                Some(x) => x,
                None => {
                    return None;
                },
            };
            if close != cs.len() {
                return None;
            }
            proof {
                assert(spec_parse_record(cs@, j0) == Some((rec, j as int)));
                assert(j + "\n]"@.len() == cs@.len());
                assert(spec_parse_items(cs@, j0) == Some((seq![rec], cs@.len() as int)));
                assert(records_of(acc@.drop_last()) + seq![rec] =~= records_of(acc@));
            }
            return Some(acc);
        }
    }
}

/// Parsing inverts rendering: the JSON text of any snapshot parses back to
/// exactly that snapshot's records.
pub proof fn lemma_json_roundtrip(rs: Seq<PortRecord>)
    ensures
        spec_parse_snapshot(json_snapshot(rs)) == Some(rs),
{
    let s = json_snapshot(rs);
    if rs.len() == 0 {
        assert(s == "[]"@);
    } else {
        reveal_strlit("[\n");
        reveal_strlit("[]");
        assert(s == "[\n"@ + json_items(rs) + "\n]"@);
        assert(s =~= "[\n"@ + (json_items(rs) + "\n]"@));
        assert(s.subrange(0, s.len() as int) =~= s);
        lemma_split_subrange(s, 0, s.len() as int, "[\n"@, json_items(rs) + "\n]"@);
        assert(starts_with_at(s, 0, "[\n"@));
        assert(s != "[]"@) by {
            assert(s[1] == ("[\n"@ + (json_items(rs) + "\n]"@))[1]);
            assert(s[1] == '\n');
            assert("[]"@[1] == ']');
        }
        lemma_parse_items_emitted(s, "[\n"@.len() as int, rs);
    }
}

/// On text that ends with rendered items and the closing bracket, item
/// parsing returns exactly those records.
proof fn lemma_parse_items_emitted(s: Seq<char>, i: int, rs: Seq<PortRecord>)
    requires
        rs.len() >= 1,
        0 <= i <= s.len(),
        s.subrange(i, s.len() as int) == json_items(rs) + "\n]"@,
    ensures
        spec_parse_items(s, i) == Some((rs, s.len() as int)),
    decreases rs.len(),
{
    reveal_strlit("\n]");
    reveal_strlit(",\n");
    assert(s.len() - i == json_items(rs).len() + "\n]"@.len()) by {
        assert(s.subrange(i, s.len() as int).len() == s.len() - i);
    }
    let j = i + json_record(rs[0]).len();
    lemma_json_record_len(rs[0]);
    if rs.len() == 1 {
        assert(json_items(rs) == json_record(rs[0]));
        assert(j <= s.len());
        lemma_split_subrange(s, i, s.len() as int, json_record(rs[0]), "\n]"@);
        lemma_parse_record_emitted(s, i, rs[0], j);
        assert(starts_with_at(s, j, "\n]"@)) by {
            assert(s.subrange(j, s.len() as int) == "\n]"@);
            assert(j + "\n]"@.len() == s.len());
            assert(s.subrange(j, j + "\n]"@.len()) == "\n]"@);
        }
        assert(j + "\n]"@.len() == s.len());
        assert(!starts_with_at(s, j, ",\n"@)) by {
            assert(s.subrange(j, s.len() as int)[0] == s[j]);
            assert(s[j] == '\n');
            if starts_with_at(s, j, ",\n"@) {
                assert(s.subrange(j, j + ",\n"@.len())[0] == ',');
                assert(s[j] == ',');
            }
        }
        assert(spec_parse_items(s, i) == Some((seq![rs[0]], s.len() as int)));
        assert(seq![rs[0]] =~= rs);
    } else {
        let rest = rs.drop_first();
        assert(json_items(rs) == json_record(rs[0]) + ",\n"@ + json_items(rest));
        assert(json_items(rs) + "\n]"@ =~= json_record(rs[0]) + (",\n"@ + (json_items(rest)
            + "\n]"@)));
        assert(j <= s.len()) by {
            assert((json_record(rs[0]) + ",\n"@ + json_items(rest)).len() == json_record(
                rs[0],
            ).len() + ",\n"@.len() + json_items(rest).len());
        }
        lemma_split_subrange(
            s,
            i,
            s.len() as int,
            json_record(rs[0]),
            ",\n"@ + (json_items(rest) + "\n]"@),
        );
        lemma_parse_record_emitted(s, i, rs[0], j);
        lemma_split_subrange(s, j, s.len() as int, ",\n"@, json_items(rest) + "\n]"@);
        assert(starts_with_at(s, j, ",\n"@)) by {
            assert(s.subrange(j, j + ",\n"@.len()) == ",\n"@);
        }
        lemma_parse_items_emitted(s, j + ",\n"@.len(), rest);
        assert(spec_parse_items(s, i) == Some((seq![rs[0]] + rest, s.len() as int)));
        assert(seq![rs[0]] + rest =~= rs);
    }
}

/// A rendered record object is never empty.
proof fn lemma_json_record_len(r: PortRecord)
    ensures
        json_record(r).len() >= 1,
{
    reveal_strlit("  {\n    \"id\": \"");
}

/// On text that holds exactly one rendered record object between `i` and
/// `j`, record parsing returns that record and stops at `j`.
#[verifier::rlimit(60)]
proof fn lemma_parse_record_emitted(s: Seq<char>, i: int, r: PortRecord, j: int)
    requires
        0 <= i <= j <= s.len(),
        s.subrange(i, j) == json_record(r),
    ensures
        spec_parse_record(s, i) == Some((r, j)),
{
    reveal_strlit("  {\n    \"id\": \"");
    reveal_strlit(",\n    \"port\": ");
    reveal_strlit(",\n    \"pid\": ");
    lemma_dec_of(r.port as nat);
    lemma_dec_of(r.pid as nat);
    let l1 = "  {\n    \"id\": \""@;
    let l2 = ",\n    \"port\": "@;
    let l3 = ",\n    \"pid\": "@;
    let l4 = ",\n    \"process_name\": \""@;
    let e_id = esc(r.id) + q();
    let d_port = dec_of(r.port as nat);
    let d_pid = dec_of(r.pid as nat);
    let tail = json_record_tail(r);
    assert(json_record(r) =~= l1 + (e_id + (l2 + (d_port + (l3 + (d_pid + tail))))));
    let i1 = i + l1.len();
    lemma_split_subrange(s, i, j, l1, e_id + (l2 + (d_port + (l3 + (d_pid + tail)))));
    assert(starts_with_at(s, i, l1));
    let i2 = i1 + e_id.len();
    lemma_split_subrange(s, i1, j, e_id, l2 + (d_port + (l3 + (d_pid + tail))));
    lemma_scan_esc(s, i1, r.id, i2);
    let i3 = i2 + l2.len();
    lemma_split_subrange(s, i2, j, l2, d_port + (l3 + (d_pid + tail)));
    let i4 = i3 + d_port.len();
    lemma_split_subrange(s, i3, j, d_port, l3 + (d_pid + tail));
    assert(s[i4] == ',') by {
        assert(s.subrange(i4, j)[0] == s[i4]);
        assert((l3 + (d_pid + tail))[0] == ',');
    }
    assert(!is_digit(s[i4]));
    lemma_parse_u64_emitted(s, i3, r.port as u64, i4);
    let i5 = i4 + l3.len();
    lemma_split_subrange(s, i4, j, l3, d_pid + tail);
    let i6 = i5 + d_pid.len();
    lemma_split_subrange(s, i5, j, d_pid, tail);
    assert(s[i6] == ',') by {
        assert(s.subrange(i6, j)[0] == s[i6]);
        assert(tail[0] == ',') by {
            reveal_strlit(",\n    \"process_name\": \"");
            assert(tail =~= l4 + (esc(r.process_name) + q() + (",\n    \"process_path\": \""@
                + (esc(r.process_path) + q() + (",\n    \"port_state\": \""@ + (esc(
                state_chars(r.port_state),
            ) + q() + "\n  }"@))))));
            assert(tail[0] == l4[0]);
        }
    }
    assert(!is_digit(s[i6]));
    lemma_parse_u64_emitted(s, i5, r.pid as u64, i6);
    lemma_parse_tail_emitted(s, i6, r, j);
    assert((r.port as u64) <= u16::MAX as u64);
    assert((r.pid as u64) <= u32::MAX as u64);
    assert((r.port as u64) as u16 == r.port);
    assert((r.pid as u64) as u32 == r.pid);
}

/// The text of a record object from the `process_name` key on.
spec fn json_record_tail(r: PortRecord) -> Seq<char> {
    ",\n    \"process_name\": \""@ + esc(r.process_name) + q() + ",\n    \"process_path\": \""@
        + esc(r.process_path) + q() + ",\n    \"port_state\": \""@ + esc(
        state_chars(r.port_state),
    ) + q() + "\n  }"@
}

/// On text that holds exactly a record's tail between `i6` and `j`, tail
/// parsing completes the record and stops at `j`.
#[verifier::rlimit(60)]
proof fn lemma_parse_tail_emitted(s: Seq<char>, i6: int, r: PortRecord, j: int)
    requires
        0 <= i6 <= j <= s.len(),
        s.subrange(i6, j) == json_record_tail(r),
    ensures
        spec_parse_record_tail(s, i6, r.id, r.port, r.pid) == Some((r, j)),
{
    reveal_strlit(",\n    \"process_name\": \"");
    reveal_strlit(",\n    \"process_path\": \"");
    reveal_strlit(",\n    \"port_state\": \"");
    reveal_strlit("\n  }");
    lemma_state_chars(r.port_state);
    let l4 = ",\n    \"process_name\": \""@;
    let l5 = ",\n    \"process_path\": \""@;
    let l6 = ",\n    \"port_state\": \""@;
    let l7 = "\n  }"@;
    let e_name = esc(r.process_name) + q();
    let e_path = esc(r.process_path) + q();
    let e_st = esc(state_chars(r.port_state)) + q();
    assert(json_record_tail(r) =~= l4 + (e_name + (l5 + (e_path + (l6 + (e_st + l7))))));
    let i7 = i6 + l4.len();
    lemma_split_subrange(s, i6, j, l4, e_name + (l5 + (e_path + (l6 + (e_st + l7)))));
    let i8 = i7 + e_name.len();
    lemma_split_subrange(s, i7, j, e_name, l5 + (e_path + (l6 + (e_st + l7))));
    lemma_scan_esc(s, i7, r.process_name, i8);
    let i9 = i8 + l5.len();
    lemma_split_subrange(s, i8, j, l5, e_path + (l6 + (e_st + l7)));
    let i10 = i9 + e_path.len();
    lemma_split_subrange(s, i9, j, e_path, l6 + (e_st + l7));
    lemma_scan_esc(s, i9, r.process_path, i10);
    let i11 = i10 + l6.len();
    lemma_split_subrange(s, i10, j, l6, e_st + l7);
    let i12 = i11 + e_st.len();
    lemma_split_subrange(s, i11, j, e_st, l7);
    lemma_scan_esc(s, i11, state_chars(r.port_state), i12);
    assert(state_of_chars(state_chars(r.port_state)) == Some(r.port_state));
    assert(starts_with_at(s, i12, l7)) by {
        assert(s.subrange(i12, j) == l7);
        assert(i12 + l7.len() == j);
    }
    assert(i12 + l7.len() == j);
    let parsed = PortRecord {
        id: r.id,
        port: r.port,
        pid: r.pid,
        process_name: r.process_name,
        process_path: r.process_path,
        port_state: r.port_state,
    };
    assert(parsed =~= r);
}

} // verus!
