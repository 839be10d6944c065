//! Rendering snapshots and event logs to CSV, JSON and YAML text, and
//! building the timestamped file names they are written under.  The
//! functions here produce text only; writing files is the caller's task.

use vstd::prelude::*;
use vstd::string::StringExecFns;
use crate::codec::{push_lit, push_state, state_chars};
use crate::json::{json_record, json_snapshot, push_json_record, spec_parse_snapshot};
use crate::model::{records_of, PortInfo, PortRecord};
use crate::quoted::esc;
use crate::text::{append_u64, chars_vec, dec_of, string_from_chars};
use crate::tracker::{events_of, EventRecord, ExportFormat, PortEvent};
use crate::yaml::{spec_parse_yaml_snapshot, yaml_snapshot};

verus! {

/// The decimal numeral of a signed value: a minus sign before the numeral
/// of its magnitude.
pub open spec fn dec_signed(v: int) -> Seq<char> {
    if v < 0 {
        seq!['-'] + dec_of((-v) as nat)
    } else {
        dec_of(v as nat)
    }
}

/// Appends the decimal numeral of `n`, with a sign when negative.
pub fn append_i64(out: &mut Vec<char>, n: i64)
    ensures
        final(out)@ == old(out)@ + dec_signed(n as int),
{
    if n < 0 {
        out.push('-');
        let m: u64 = (-(n as i128)) as u64;
        append_u64(out, m);
        proof {
            assert(final(out)@ =~= old(out)@ + dec_signed(n as int));
        }
    } else {
        append_u64(out, n as u64);
    }
}

/// Whether a CSV field needs to be quoted: it holds a comma, a quote, or a
/// line break.
pub open spec fn csv_needs_quote(s: Seq<char>) -> bool {
    exists|k: int|
        0 <= k < s.len() && (s[k] == ',' || s[k] == '"' || s[k] == '\n' || s[k] == '\r')
}

/// The field with every quote doubled.
pub open spec fn csv_doubled(s: Seq<char>) -> Seq<char>
    decreases s.len(),
{
    if s.len() == 0 {
        Seq::empty()
    } else {
        (if s[0] == '"' {
            seq!['"', '"']
        } else {
            seq![s[0]]
        }) + csv_doubled(s.drop_first())
    }
}

/// How a field appears in a CSV row: quoted with doubled quotes when it
/// needs quoting, bare otherwise.
pub open spec fn csv_field(s: Seq<char>) -> Seq<char> {
    if csv_needs_quote(s) {
        seq!['"'] + csv_doubled(s) + seq!['"']
    } else {
        s
    }
}

/// A CSV row: the encoded fields joined by commas, ended by a newline.
pub open spec fn csv_row(fields: Seq<Seq<char>>) -> Seq<char>
    decreases fields.len(),
{
    if fields.len() == 0 {
        seq!['\n']
    } else if fields.len() == 1 {
        csv_field(fields[0]) + seq!['\n']
    } else {
        csv_field(fields[0]) + seq![','] + csv_row(fields.drop_first())
    }
}

/// Doubling quotes distributes over appending one character.
proof fn lemma_csv_doubled_snoc(s: Seq<char>, c: char)
    ensures
        csv_doubled(s.push(c)) == csv_doubled(s) + (if c == '"' {
            seq!['"', '"']
        } else {
            seq![c]
        }),
    decreases s.len(),
{
    let p = s.push(c);
    let tail: Seq<char> = if c == '"' {
        seq!['"', '"']
    } else {
        seq![c]
    };
    if s.len() == 0 {
        assert(p[0] == c);
        assert(p.drop_first() =~= Seq::<char>::empty());
        assert(csv_doubled(Seq::<char>::empty()) == Seq::<char>::empty());
        assert(csv_doubled(p) =~= csv_doubled(s) + tail);
    } else {
        assert(p[0] == s[0]);
        assert(p.drop_first() =~= s.drop_first().push(c));
        lemma_csv_doubled_snoc(s.drop_first(), c);
        let head: Seq<char> = if s[0] == '"' {
            seq!['"', '"']
        } else {
            seq![s[0]]
        };
        assert(csv_doubled(p) == head + (csv_doubled(s.drop_first()) + tail));
        assert(head + (csv_doubled(s.drop_first()) + tail) =~= (head + csv_doubled(s.drop_first()))
            + tail);
    }
}

/// Whether the characters of `v` force CSV quoting, executably.
fn csv_needs_quote_exec(v: &Vec<char>) -> (r: bool)
    ensures
        r == csv_needs_quote(v@),
{
    let mut i: usize = 0;
    while i < v.len()
        invariant
            i <= v@.len(),
            forall|k: int|
                0 <= k < i ==> !(v@[k] == ',' || v@[k] == '"' || v@[k] == '\n' || v@[k] == '\r'),
        decreases v@.len() - i,
    {
        let c = v[i];
        if c == ',' || c == '"' || c == '\n' || c == '\r' {
            return true;
        }
        i = i + 1;
    }
    false
}

/// Appends the CSV encoding of one field to `out`.
pub fn push_csv_field(out: &mut Vec<char>, field: &Vec<char>)
    ensures
        final(out)@ == old(out)@ + csv_field(field@),
{
    if !csv_needs_quote_exec(field) {
        let mut i: usize = 0;
        while i < field.len()
            invariant
                i <= field@.len(),
                out@ == old(out)@ + field@.take(i as int),
            decreases field@.len() - i,
        {
            out.push(field[i]);
            proof {
                assert(out@ =~= old(out)@ + field@.take(i + 1 as int));
            }
            i = i + 1;
        }
        proof {
            assert(old(out)@ + field@.take(field@.len() as int) =~= old(out)@ + field@);
        }
        return;
    }
    out.push('"');
    let mut i: usize = 0;
    while i < field.len()
        invariant
            i <= field@.len(),
            out@ == old(out)@ + seq!['"'] + csv_doubled(field@.take(i as int)),
        decreases field@.len() - i,
    {
        let c = field[i];
        if c == '"' {
            out.push('"');
            out.push('"');
        } else {
            out.push(c);
        }
        proof {
            lemma_csv_doubled_snoc(field@.take(i as int), field@[i as int]);
            assert(field@.take(i + 1 as int) =~= field@.take(i as int).push(field@[i as int]));
            assert(out@ =~= old(out)@ + seq!['"'] + csv_doubled(field@.take(i + 1 as int)));
        }
        i = i + 1;
    }
    out.push('"');
    proof {
        assert(field@.take(field@.len() as int) =~= field@);
        assert(out@ =~= old(out)@ + (seq!['"'] + csv_doubled(field@) + seq!['"']));
    }
}

/// The CSV text of a snapshot: the fixed header row, then one row per
/// record with its port, pid, name, path and state.
pub open spec fn snapshot_csv(rs: Seq<PortRecord>) -> Seq<char>
    decreases rs.len(),
{
    if rs.len() == 0 {
        "Port,PID,Process Name,Process Path,State\n"@
    } else {
        snapshot_csv(rs.drop_last()) + snapshot_csv_row(rs.last())
    }
}

/// One snapshot CSV row.
pub open spec fn snapshot_csv_row(r: PortRecord) -> Seq<char> {
    csv_row(
        seq![
            dec_of(r.port as nat),
            dec_of(r.pid as nat),
            r.process_name,
            r.process_path,
            state_chars(r.port_state),
        ],
    )
}

/// Appends one CSV row made of the given fields.
fn push_csv_row(out: &mut Vec<char>, fields: &Vec<Vec<char>>)
    requires
        fields@.len() >= 1,
    ensures
        final(out)@ == old(out)@ + csv_row(fields@.map_values(|f: Vec<char>| f@)),
{
    let ghost view_fields = fields@.map_values(|f: Vec<char>| f@);
    proof {
        assert(view_fields.skip(0int) =~= view_fields);
    }
    let mut i: usize = 0;
    while i < fields.len() - 1
        invariant
            fields@.len() >= 1,
            i <= fields@.len() - 1,
            view_fields == fields@.map_values(|f: Vec<char>| f@),
            out@ + csv_row(view_fields.skip(i as int)) == old(out)@ + csv_row(view_fields),
        decreases fields@.len() - i,
    {
        push_csv_field(out, &fields[i]);
        out.push(',');
        proof {
            assert(csv_row(view_fields.skip(i as int)) == csv_field(view_fields[i as int]) + seq![
                ',',
            ] + csv_row(view_fields.skip(i + 1 as int))) by {
                assert(view_fields.skip(i as int)[0] == view_fields[i as int]);
                assert(view_fields.skip(i as int).drop_first() =~= view_fields.skip(i + 1 as int));
                assert(view_fields.skip(i as int).len() > 1);
            }
            assert(out@ + csv_row(view_fields.skip(i + 1 as int)) =~= old(out)@ + csv_row(
                view_fields,
            ));
        }
        i = i + 1;
    }
    push_csv_field(out, &fields[i]);
    out.push('\n');
    proof {
        assert(csv_row(view_fields.skip(i as int)) == csv_field(view_fields[i as int]) + seq![
            '\n',
        ]) by {
            assert(view_fields.skip(i as int)[0] == view_fields[i as int]);
            assert(view_fields.skip(i as int).len() == 1);
        }
        assert(out@ =~= old(out)@ + csv_row(view_fields));
    }
}

/// The CSV text of a snapshot, as a `String`.
pub fn snapshot_csv_string(entries: &Vec<PortInfo>) -> (r: String)
    ensures
        r@ == snapshot_csv(records_of(entries@)),
{
    let mut out: Vec<char> = Vec::new();
    push_lit(&mut out, "Port,PID,Process Name,Process Path,State\n");
    let mut i: usize = 0;
    while i < entries.len()
        invariant
            i <= entries@.len(),
            out@ == snapshot_csv(records_of(entries@.take(i as int))),
        decreases entries@.len() - i,
    {
        push_snapshot_row(&mut out, &entries[i]);
        proof {
            let prev = records_of(entries@.take(i as int));
            let now = records_of(entries@.take(i + 1 as int));
            assert(now.drop_last() =~= prev);
            assert(now.last() == entries@[i as int]@);
            assert(records_of(entries@.take(0int)) =~= Seq::<PortRecord>::empty());
            assert(out@ =~= snapshot_csv(now));
        }
        i = i + 1;
    }
    proof {
        assert(entries@.take(entries@.len() as int) =~= entries@);
    }
    string_from_chars(&out)
}

/// Appends the snapshot CSV row of `p`.
fn push_snapshot_row(out: &mut Vec<char>, p: &PortInfo)
    ensures
        final(out)@ == old(out)@ + snapshot_csv_row(p@),
{
    let mut fields: Vec<Vec<char>> = Vec::new();
    let mut port_field: Vec<char> = Vec::new();
    append_u64(&mut port_field, p.port as u64);
    fields.push(port_field);
    let mut pid_field: Vec<char> = Vec::new();
    append_u64(&mut pid_field, p.pid as u64);
    fields.push(pid_field);
    fields.push(chars_vec(p.process_name.as_str()));
    fields.push(chars_vec(p.process_path.as_str()));
    let mut state_field: Vec<char> = Vec::new();
    push_state(&mut state_field, p.port_state);
    fields.push(state_field);
    proof {
        assert(fields@.map_values(|f: Vec<char>| f@) =~= seq![
            dec_of(p@.port as nat),
            dec_of(p@.pid as nat),
            p@.process_name,
            p@.process_path,
            state_chars(p@.port_state),
        ]);
    }
    push_csv_row(out, &fields);
}

/// The label under which an event is exported.
pub open spec fn event_label(e: EventRecord) -> Seq<char> {
    match e {
        EventRecord::InitialState { .. } => "initial_state"@,
        EventRecord::PortOpened { .. } => "port_opened"@,
        EventRecord::PortClosed { .. } => "port_closed"@,
    }
}

/// The CSV rows of one event: an `InitialState` expands to one row per
/// contained record; the others are one row each.
pub open spec fn event_csv(e: EventRecord) -> Seq<char> {
    match e {
        EventRecord::InitialState { timestamp, ports } => initial_rows(timestamp, ports),
        EventRecord::PortOpened { timestamp, port } => event_csv_row(
            timestamp,
            "port_opened"@,
            port,
        ),
        EventRecord::PortClosed { timestamp, port } => event_csv_row(
            timestamp,
            "port_closed"@,
            port,
        ),
    }
}

/// One CSV row per record of the initial snapshot.
pub open spec fn initial_rows(ts: int, ports: Seq<PortRecord>) -> Seq<char>
    decreases ports.len(),
{
    if ports.len() == 0 {
        Seq::empty()
    } else {
        initial_rows(ts, ports.drop_last()) + event_csv_row(ts, "initial_state"@, ports.last())
    }
}

/// One event-log CSV row.
pub open spec fn event_csv_row(ts: int, label: Seq<char>, r: PortRecord) -> Seq<char> {
    csv_row(
        seq![
            rfc3339_label(ts),
            label,
            dec_of(r.port as nat),
            dec_of(r.pid as nat),
            r.process_name,
            r.process_path,
        ],
    )
}

/// The CSV text of an event log: the fixed header, then the rows of each
/// event in order.
pub open spec fn events_csv(es: Seq<EventRecord>) -> Seq<char>
    decreases es.len(),
{
    if es.len() == 0 {
        "timestamp,event,port,pid,process_name,process_path\n"@
    } else {
        events_csv(es.drop_last()) + event_csv(es.last())
    }
}

/// Appends one event-log CSV row.
fn push_event_row(out: &mut Vec<char>, ts: i64, label: &str, p: &PortInfo)
    ensures
        final(out)@ == old(out)@ + event_csv_row(ts as int, label@, p@),
{
    let mut fields: Vec<Vec<char>> = Vec::new();
    let stamp = format_rfc3339(ts);
    fields.push(chars_vec(stamp.as_str()));
    fields.push(chars_vec(label));
    let mut port_field: Vec<char> = Vec::new();
    append_u64(&mut port_field, p.port as u64);
    fields.push(port_field);
    let mut pid_field: Vec<char> = Vec::new();
    append_u64(&mut pid_field, p.pid as u64);
    fields.push(pid_field);
    fields.push(chars_vec(p.process_name.as_str()));
    fields.push(chars_vec(p.process_path.as_str()));
    proof {
        assert(fields@.map_values(|f: Vec<char>| f@) =~= seq![
            rfc3339_label(ts as int),
            label@,
            dec_of(p@.port as nat),
            dec_of(p@.pid as nat),
            p@.process_name,
            p@.process_path,
        ]);
    }
    push_csv_row(out, &fields);
}

/// The CSV text of an event log, as a `String`.
pub fn events_csv_string(events: &Vec<PortEvent>) -> (r: String)
    ensures
        r@ == events_csv(events_of(events@)),
{
    let mut out: Vec<char> = Vec::new();
    push_lit(&mut out, "timestamp,event,port,pid,process_name,process_path\n");
    let mut i: usize = 0;
    while i < events.len()
        invariant
            i <= events@.len(),
            out@ == events_csv(events_of(events@.take(i as int))),
        decreases events@.len() - i,
    {
        let ghost out0 = out@;
        match &events[i] {
            PortEvent::InitialState { timestamp, ports } => {
                let ts: i64 = *timestamp;
                let mut k: usize = 0;
                while k < ports.len()
                    invariant
                        k <= ports@.len(),
                        out@ == out0 + initial_rows(ts as int, records_of(ports@.take(k as int))),
                    decreases ports@.len() - k,
                {
                    push_event_row(&mut out, ts, "initial_state", &ports[k]);
                    proof {
                        let prev = records_of(ports@.take(k as int));
                        let now = records_of(ports@.take(k + 1 as int));
                        assert(now.drop_last() =~= prev);
                        assert(now.last() == ports@[k as int]@);
                        assert(initial_rows(ts as int, records_of(ports@.take(0int))) =~= Seq::<
                            char,
                        >::empty());
                        assert(out@ =~= out0 + initial_rows(ts as int, now));
                    }
                    k = k + 1;
                }
                proof {
                    assert(ports@.take(ports@.len() as int) =~= ports@);
                    assert(events@[i as int]@ == EventRecord::InitialState {
                        timestamp: ts as int,
                        ports: records_of(ports@),
                    });
                }
            },
            PortEvent::PortOpened { timestamp, port } => {
                push_event_row(&mut out, *timestamp, "port_opened", port);
            },
            PortEvent::PortClosed { timestamp, port } => {
                push_event_row(&mut out, *timestamp, "port_closed", port);
            },
        }
        proof {
            let prev = events_of(events@.take(i as int));
            let now = events_of(events@.take(i + 1 as int));
            assert(now.drop_last() =~= prev);
            assert(now.last() == events@[i as int]@);
            assert(events_csv(events_of(events@.take(0int))) == events_csv(
                Seq::<EventRecord>::empty(),
            )) by {
                assert(events_of(events@.take(0int)) =~= Seq::<EventRecord>::empty());
            }
            assert(out@ =~= events_csv(now));
        }
        i = i + 1;
    }
    proof {
        assert(events@.take(events@.len() as int) =~= events@);
    }
    string_from_chars(&out)
}

/// The JSON object of one event.  An `InitialState` embeds the snapshot
/// array; the others embed one record object.
pub open spec fn event_json(e: EventRecord) -> Seq<char> {
    match e {
        EventRecord::InitialState { timestamp, ports } => "  {\n    \"event\": \"initial_state\",\n    \"timestamp\": \""@
            + esc(rfc3339_label(timestamp)) + "\",\n    \"ports\": "@ + json_snapshot(ports)
            + "\n  }"@,
        EventRecord::PortOpened { timestamp, port } => "  {\n    \"event\": \"port_opened\",\n    \"timestamp\": \""@
            + esc(rfc3339_label(timestamp)) + "\",\n    \"port\":\n"@ + json_record(port)
            + "\n  }"@,
        EventRecord::PortClosed { timestamp, port } => "  {\n    \"event\": \"port_closed\",\n    \"timestamp\": \""@
            + esc(rfc3339_label(timestamp)) + "\",\n    \"port\":\n"@ + json_record(port)
            + "\n  }"@,
    }
}

/// The comma-separated JSON objects of an event log.
pub open spec fn events_json_items(es: Seq<EventRecord>) -> Seq<char>
    decreases es.len(),
{
    if es.len() == 0 {
        Seq::empty()
    } else if es.len() == 1 {
        event_json(es[0])
    } else {
        events_json_items(es.drop_last()) + ",\n"@ + event_json(es.last())
    }
}

/// The full JSON text of an event log.
pub open spec fn events_json(es: Seq<EventRecord>) -> Seq<char> {
    if es.len() == 0 {
        "[]"@
    } else {
        "[\n"@ + events_json_items(es) + "\n]"@
    }
}

/// Appends the JSON object of one event.
fn push_event_json(out: &mut Vec<char>, e: &PortEvent)
    ensures
        final(out)@ == old(out)@ + event_json(e@),
{
    match e {
        PortEvent::InitialState { timestamp, ports } => {
            push_lit(out, "  {\n    \"event\": \"initial_state\",\n    \"timestamp\": \"");
            let stamp = format_rfc3339(*timestamp);
            let sc = chars_vec(stamp.as_str());
            crate::quoted::push_escaped(out, &sc);
            push_lit(out, "\",\n    \"ports\": ");
            let inner = crate::json::json_snapshot_string(ports);
            push_str_chars(out, inner.as_str());
            push_lit(out, "\n  }");
            proof {
                assert(out@ =~= old(out)@ + event_json(e@));
            }
        },
        PortEvent::PortOpened { timestamp, port } => {
            push_lit(out, "  {\n    \"event\": \"port_opened\",\n    \"timestamp\": \"");
            let stamp = format_rfc3339(*timestamp);
            let sc = chars_vec(stamp.as_str());
            crate::quoted::push_escaped(out, &sc);
            push_lit(out, "\",\n    \"port\":\n");
            push_json_record(out, port);
            push_lit(out, "\n  }");
            proof {
                assert(out@ =~= old(out)@ + event_json(e@));
            }
        },
        PortEvent::PortClosed { timestamp, port } => {
            push_lit(out, "  {\n    \"event\": \"port_closed\",\n    \"timestamp\": \"");
            let stamp = format_rfc3339(*timestamp);
            let sc = chars_vec(stamp.as_str());
            crate::quoted::push_escaped(out, &sc);
            push_lit(out, "\",\n    \"port\":\n");
            push_json_record(out, port);
            push_lit(out, "\n  }");
            proof {
                assert(out@ =~= old(out)@ + event_json(e@));
            }
        },
    }
}

/// Appends the characters of `s` to `out`.
fn push_str_chars(out: &mut Vec<char>, s: &str)
    ensures
        final(out)@ == old(out)@ + s@,
{
    push_lit(out, s);
}

/// The full JSON text of an event log, as a `String`.
#[verifier::rlimit(100)]
pub fn events_json_string(events: &Vec<PortEvent>) -> (r: String)
    ensures
        r@ == events_json(events_of(events@)),
{
    if events.len() == 0 {
        let out = chars_vec("[]");
        return string_from_chars(&out);
    }
    let mut out: Vec<char> = Vec::new();
    push_lit(&mut out, "[\n");
    let mut i: usize = 0;
    while i < events.len()
        invariant
            1 <= events@.len(),
            i <= events@.len(),
            i == 0 ==> out@ == "[\n"@,
            i >= 1 ==> out@ == "[\n"@ + events_json_items(events_of(events@.take(i as int))),
        decreases events@.len() - i,
    {
        if i > 0 {
            push_lit(&mut out, ",\n");
        }
        push_event_json(&mut out, &events[i]);
        proof {
            let prev = events_of(events@.take(i as int));
            let now = events_of(events@.take(i + 1 as int));
            assert(now =~= prev.push(events@[i as int]@));
            if i == 0 {
                assert(events_json_items(now) == event_json(now[0]));
                assert(out@ =~= "[\n"@ + events_json_items(now));
            } else {
                lemma_events_json_items_snoc(prev, events@[i as int]@);
                assert(out@ =~= "[\n"@ + events_json_items(now));
            }
        }
        i = i + 1;
    }
    push_lit(&mut out, "\n]");
    proof {
        assert(events@.take(events@.len() as int) =~= events@);
        assert(out@ =~= events_json(events_of(events@)));
    }
    string_from_chars(&out)
}

/// `events_json_items` grows on the right by a separator and one more
/// object.
proof fn lemma_events_json_items_snoc(es: Seq<EventRecord>, e: EventRecord)
    requires
        es.len() >= 1,
    ensures
        events_json_items(es.push(e)) == events_json_items(es) + ",\n"@ + event_json(e),
    decreases es.len(),
{
    let p = es.push(e);
    if es.len() == 1 {
        assert(p.drop_last() =~= es);
        assert(p.last() == e);
    } else {
        assert(p.drop_last() =~= es);
        assert(p.last() == e);
    }
}

/// The YAML lines of one event.  Nested records are indented under their
/// key.
pub open spec fn event_yaml(e: EventRecord) -> Seq<char> {
    match e {
        EventRecord::InitialState { timestamp, ports } => "- event: initial_state\n  timestamp: \""@
            + esc(rfc3339_label(timestamp)) + "\"\n  ports:\n"@ + yaml_nested_items(ports),
        EventRecord::PortOpened { timestamp, port } => "- event: port_opened\n  timestamp: \""@
            + esc(rfc3339_label(timestamp)) + "\"\n  port:\n"@ + yaml_nested_fields(port),
        EventRecord::PortClosed { timestamp, port } => "- event: port_closed\n  timestamp: \""@
            + esc(rfc3339_label(timestamp)) + "\"\n  port:\n"@ + yaml_nested_fields(port),
    }
}

/// The nested list items of an initial snapshot, indented one level.
pub open spec fn yaml_nested_items(rs: Seq<PortRecord>) -> Seq<char>
    decreases rs.len(),
{
    if rs.len() == 0 {
        Seq::empty()
    } else {
        yaml_nested_items(rs.drop_last()) + yaml_nested_item(rs.last())
    }
}

/// One nested snapshot record under `ports:`.
pub open spec fn yaml_nested_item(r: PortRecord) -> Seq<char> {
    "  - id: \""@ + esc(r.id) + "\"\n"@ + yaml_nested_fields_tail(r)
}

/// The mapping lines of a record nested under `port:`.
pub open spec fn yaml_nested_fields(r: PortRecord) -> Seq<char> {
    "    id: \""@ + esc(r.id) + "\"\n"@ + yaml_nested_fields_tail(r)
}

/// The shared field lines of a nested record, from `port` on.
pub open spec fn yaml_nested_fields_tail(r: PortRecord) -> Seq<char> {
    "    port: "@ + dec_of(r.port as nat) + "\n    pid: "@ + dec_of(r.pid as nat)
        + "\n    process_name: \""@ + esc(r.process_name) + "\"\n    process_path: \""@ + esc(
        r.process_path,
    ) + "\"\n    port_state: \""@ + esc(state_chars(r.port_state)) + "\"\n"@
}

/// Appends the shared nested field lines of `p`.
fn push_yaml_nested_tail(out: &mut Vec<char>, p: &PortInfo)
    ensures
        final(out)@ == old(out)@ + yaml_nested_fields_tail(p@),
{
    let name = chars_vec(p.process_name.as_str());
    let path = chars_vec(p.process_path.as_str());
    push_lit(out, "    port: ");
    append_u64(out, p.port as u64);
    push_lit(out, "\n    pid: ");
    append_u64(out, p.pid as u64);
    proof {
        assert(out@ =~= old(out)@ + ("    port: "@ + dec_of(p@.port as nat) + "\n    pid: "@
            + dec_of(p@.pid as nat)));
    }
    push_lit(out, "\n    process_name: \"");
    crate::quoted::push_escaped(out, &name);
    push_lit(out, "\"\n    process_path: \"");
    crate::quoted::push_escaped(out, &path);
    proof {
        assert(out@ =~= old(out)@ + ("    port: "@ + dec_of(p@.port as nat) + "\n    pid: "@
            + dec_of(p@.pid as nat) + "\n    process_name: \""@ + esc(p@.process_name)
            + "\"\n    process_path: \""@ + esc(p@.process_path)));
    }
    push_lit(out, "\"\n    port_state: \"");
    push_state(out, p.port_state);
    push_lit(out, "\"\n");
    proof {
        crate::codec::lemma_state_chars(p@.port_state);
        assert(out@ =~= old(out)@ + yaml_nested_fields_tail(p@));
    }
}

/// The YAML text of an event log.
pub open spec fn events_yaml(es: Seq<EventRecord>) -> Seq<char>
    decreases es.len(),
{
    if es.len() == 0 {
        "[]\n"@
    } else if es.len() == 1 {
        event_yaml(es[0])
    } else {
        events_yaml(es.drop_last()) + event_yaml(es.last())
    }
}

/// The YAML text of an event log, as a `String`.
#[verifier::rlimit(100)]
pub fn events_yaml_string(events: &Vec<PortEvent>) -> (r: String)
    ensures
        r@ == events_yaml(events_of(events@)),
{
    if events.len() == 0 {
        let out = chars_vec("[]\n");
        return string_from_chars(&out);
    }
    let mut out: Vec<char> = Vec::new();
    let mut i: usize = 0;
    while i < events.len()
        invariant
            1 <= events@.len(),
            i <= events@.len(),
            i == 0 ==> out@ == Seq::<char>::empty(),
            i >= 1 ==> out@ == events_yaml(events_of(events@.take(i as int))),
        decreases events@.len() - i,
    {
        let ghost out0 = out@;
        match &events[i] {
            PortEvent::InitialState { timestamp, ports } => {
                let ts: i64 = *timestamp;
                push_lit(&mut out, "- event: initial_state\n  timestamp: \"");
                let stamp = format_rfc3339(ts);
                let sc = chars_vec(stamp.as_str());
                crate::quoted::push_escaped(&mut out, &sc);
                push_lit(&mut out, "\"\n  ports:\n");
                let mut k: usize = 0;
                while k < ports.len()
                    invariant
                        k <= ports@.len(),
                        out@ == out0 + ("- event: initial_state\n  timestamp: \""@ + esc(
                            rfc3339_label(ts as int),
                        ) + "\"\n  ports:\n"@) + yaml_nested_items(
                            records_of(ports@.take(k as int)),
                        ),
                    decreases ports@.len() - k,
                {
                    let id = chars_vec(ports[k].id.as_str());
                    push_lit(&mut out, "  - id: \"");
                    crate::quoted::push_escaped(&mut out, &id);
                    push_lit(&mut out, "\"\n");
                    push_yaml_nested_tail(&mut out, &ports[k]);
                    proof {
                        let prev = records_of(ports@.take(k as int));
                        let now = records_of(ports@.take(k + 1 as int));
                        assert(now.drop_last() =~= prev);
                        assert(now.last() == ports@[k as int]@);
                        assert(yaml_nested_items(records_of(ports@.take(0int))) =~= Seq::<
                            char,
                        >::empty());
                        assert(out@ =~= out0 + ("- event: initial_state\n  timestamp: \""@ + esc(
                            rfc3339_label(ts as int),
                        ) + "\"\n  ports:\n"@) + yaml_nested_items(now));
                    }
                    k = k + 1;
                }
                proof {
                    assert(ports@.take(ports@.len() as int) =~= ports@);
                    assert(out@ =~= out0 + event_yaml(events@[i as int]@));
                }
            },
            PortEvent::PortOpened { timestamp, port } => {
                push_lit(&mut out, "- event: port_opened\n  timestamp: \"");
                let stamp = format_rfc3339(*timestamp);
                let sc = chars_vec(stamp.as_str());
                crate::quoted::push_escaped(&mut out, &sc);
                push_lit(&mut out, "\"\n  port:\n");
                let id = chars_vec(port.id.as_str());
                push_lit(&mut out, "    id: \"");
                crate::quoted::push_escaped(&mut out, &id);
                push_lit(&mut out, "\"\n");
                push_yaml_nested_tail(&mut out, port);
                proof {
                    assert(out@ =~= out0 + event_yaml(events@[i as int]@));
                }
            },
            PortEvent::PortClosed { timestamp, port } => {
                push_lit(&mut out, "- event: port_closed\n  timestamp: \"");
                let stamp = format_rfc3339(*timestamp);
                let sc = chars_vec(stamp.as_str());
                crate::quoted::push_escaped(&mut out, &sc);
                push_lit(&mut out, "\"\n  port:\n");
                let id = chars_vec(port.id.as_str());
                push_lit(&mut out, "    id: \"");
                crate::quoted::push_escaped(&mut out, &id);
                push_lit(&mut out, "\"\n");
                push_yaml_nested_tail(&mut out, port);
                proof {
                    assert(out@ =~= out0 + event_yaml(events@[i as int]@));
                }
            },
        }
        proof {
            let prev = events_of(events@.take(i as int));
            let now = events_of(events@.take(i + 1 as int));
            assert(now.drop_last() =~= prev);
            assert(now.last() == events@[i as int]@);
            if i == 0 {
                assert(out@ =~= events_yaml(now));
            } else {
                assert(out@ =~= events_yaml(now));
            }
        }
        i = i + 1;
    }
    proof {
        assert(events@.take(events@.len() as int) =~= events@);
    }
    string_from_chars(&out)
}

/// The name of what an external timestamp formatter returns for a given
/// Unix-second timestamp: `YYYYMMDD-HHMMSS` in UTC.
pub uninterp spec fn stamp_label(ts: int) -> Seq<char>;

/// Relies on chrono's `DateTime::from_timestamp` and `format`: turns Unix
/// seconds into a `YYYYMMDD-HHMMSS` label, in UTC, so the result depends on
/// the timestamp alone.  Out-of-range timestamps yield an empty label.
#[verifier::external_body]
fn format_stamp(ts: i64) -> (r: String)
    ensures
        r@ == stamp_label(ts as int),
{
    match chrono::DateTime::from_timestamp(ts, 0) {
        Some(dt) => dt.format("%Y%m%d-%H%M%S").to_string(),
        None => String::new(),
    }
}

/// The name of what the external RFC 3339 formatter returns for a given
/// Unix-second timestamp, in UTC.
pub uninterp spec fn rfc3339_label(ts: int) -> Seq<char>;

/// Relies on chrono's `DateTime::from_timestamp` and `to_rfc3339`: the
/// RFC 3339 text of the timestamp, in UTC, so the result depends on the
/// timestamp alone.  Out-of-range timestamps yield an empty label.
#[verifier::external_body]
fn format_rfc3339(ts: i64) -> (r: String)
    ensures
        r@ == rfc3339_label(ts as int),
{
    match chrono::DateTime::from_timestamp(ts, 0) {
        Some(dt) => dt.to_rfc3339(),
        None => String::new(),
    }
}

/// The file extension of a format.
pub open spec fn ext_chars(f: ExportFormat) -> Seq<char> {
    match f {
        ExportFormat::Csv => "csv"@,
        ExportFormat::Json => "json"@,
        ExportFormat::Yaml => "yaml"@,
    }
}

/// The file name of an export: `{prefix}-{stamp}.{ext}`.
pub open spec fn file_name(prefix: Seq<char>, ts: int, f: ExportFormat) -> Seq<char> {
    prefix + seq!['-'] + stamp_label(ts) + seq!['.'] + ext_chars(f)
}

/// Builds the file name of an export taken at `ts`.
pub fn export_file_name(prefix: &str, ts: i64, format: ExportFormat) -> (r: String)
    ensures
        r@ == file_name(prefix@, ts as int, format),
{
    let stamp = format_stamp(ts);
    let mut out: Vec<char> = Vec::new();
    push_lit(&mut out, prefix);
    out.push('-');
    push_lit(&mut out, stamp.as_str());
    out.push('.');
    match format {
        ExportFormat::Csv => push_lit(&mut out, "csv"),
        ExportFormat::Json => push_lit(&mut out, "json"),
        ExportFormat::Yaml => push_lit(&mut out, "yaml"),
    }
    proof {
        assert(out@ =~= file_name(prefix@, ts as int, format));
    }
    string_from_chars(&out)
}

/// The rendered text of a snapshot in the given format.
pub open spec fn snapshot_text(rs: Seq<PortRecord>, f: ExportFormat) -> Seq<char> {
    match f {
        ExportFormat::Csv => snapshot_csv(rs),
        ExportFormat::Json => json_snapshot(rs),
        ExportFormat::Yaml => yaml_snapshot(rs),
    }
}

/// Renders a snapshot for export: the file name `ports-{stamp}.{ext}` and
/// the full text of the snapshot in the chosen format.
pub fn export_snapshot(entries: &Vec<PortInfo>, format: ExportFormat, timestamp: i64) -> (r: (
    String,
    String,
))
    ensures
        r.0@ == file_name("ports"@, timestamp as int, format),
        r.1@ == snapshot_text(records_of(entries@), format),
{
    let name = export_file_name("ports", timestamp, format);
    let body = match format {
        ExportFormat::Csv => snapshot_csv_string(entries),
        ExportFormat::Json => crate::json::json_snapshot_string(entries),
        ExportFormat::Yaml => crate::yaml::yaml_snapshot_string(entries),
    };
    (name, body)
}

/// The rendered text of an event log in the given format.
pub open spec fn events_text(es: Seq<EventRecord>, f: ExportFormat) -> Seq<char> {
    match f {
        ExportFormat::Csv => events_csv(es),
        ExportFormat::Json => events_json(es),
        ExportFormat::Yaml => events_yaml(es),
    }
}

/// Renders an event log for export: the file name `changes-{stamp}.{ext}`
/// and the full text of the log in the chosen format.
pub fn export_events(events: &Vec<PortEvent>, format: ExportFormat, timestamp: i64) -> (r: (
    String,
    String,
))
    ensures
        r.0@ == file_name("changes"@, timestamp as int, format),
        r.1@ == events_text(events_of(events@), format),
{
    let name = export_file_name("changes", timestamp, format);
    let body = match format {
        ExportFormat::Csv => events_csv_string(events),
        ExportFormat::Json => events_json_string(events),
        ExportFormat::Yaml => events_yaml_string(events),
    };
    (name, body)
}

impl crate::tracker::Tracker {
    /// Renders this tracker's accumulated event log for export, in its own
    /// selected format: the file name `changes-{stamp}.{ext}` and the full
    /// text of the log.
    pub fn export(&self, timestamp: i64) -> (r: (String, String))
        ensures
            r.0@ == file_name("changes"@, timestamp as int, self.export_format),
            r.1@ == events_text(events_of(self.events@), self.export_format),
    {
        export_events(&self.events, self.export_format, timestamp)
    }
}

/// Export round trip: rendering any snapshot as JSON and as YAML and
/// parsing both texts back yields exactly the original records — so the
/// two parses agree with each other as well.
pub proof fn lemma_export_roundtrip(rs: Seq<PortRecord>)
    ensures
        spec_parse_snapshot(snapshot_text(rs, ExportFormat::Json)) == Some(rs),
        spec_parse_yaml_snapshot(snapshot_text(rs, ExportFormat::Yaml)) == Some(rs),
{
    crate::json::lemma_json_roundtrip(rs);
    crate::yaml::lemma_yaml_roundtrip(rs);
}

} // verus!
