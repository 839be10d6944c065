//! The change tracker: keeps a baseline snapshot, diffs each new snapshot
//! against it with set semantics on full-record equality, and appends typed
//! events — one `InitialState` at start, one `PortOpened` per record that
//! appeared, one `PortClosed` per record that vanished.

use vstd::prelude::*;
use vstd::seq_lib::*;
use crate::model::{records_of, PortInfo, PortRecord};

verus! {

/// Which file format an export writes.
#[derive(Debug, Clone, Copy, PartialEq, Eq, Structural)]
pub enum ExportFormat {
    Json,
    Csv,
    Yaml,
}

impl Default for ExportFormat {
    /// The default export format is JSON.
    fn default() -> (r: Self)
        ensures
            r == ExportFormat::Json,
    {
        ExportFormat::Json
    }
}

impl ExportFormat {
    /// The format after this one, cycling JSON, CSV, YAML.
    pub fn next(self) -> (r: Self)
        ensures
            r == spec_next(self),
    {
        match self {
            ExportFormat::Json => ExportFormat::Csv,
            ExportFormat::Csv => ExportFormat::Yaml,
            ExportFormat::Yaml => ExportFormat::Json,
        }
    }

    /// The format before this one: the inverse of `next`.
    pub fn prev(self) -> (r: Self)
        ensures
            r == spec_prev(self),
    {
        match self {
            ExportFormat::Json => ExportFormat::Yaml,
            ExportFormat::Csv => ExportFormat::Json,
            ExportFormat::Yaml => ExportFormat::Csv,
        }
    }
}

/// The format `next` yields.
pub open spec fn spec_next(f: ExportFormat) -> ExportFormat {
    match f {
        ExportFormat::Json => ExportFormat::Csv,
        ExportFormat::Csv => ExportFormat::Yaml,
        ExportFormat::Yaml => ExportFormat::Json,
    }
}

/// The format `prev` yields.
pub open spec fn spec_prev(f: ExportFormat) -> ExportFormat {
    match f {
        ExportFormat::Json => ExportFormat::Yaml,
        ExportFormat::Csv => ExportFormat::Json,
        ExportFormat::Yaml => ExportFormat::Csv,
    }
}

/// `prev` undoes `next`, and `next` undoes `prev`, for every format.
pub proof fn lemma_format_cycle(f: ExportFormat)
    ensures
        spec_prev(spec_next(f)) == f,
        spec_next(spec_prev(f)) == f,
{
}

/// One entry of the event log.  Timestamps are Unix seconds.
#[derive(Debug, Clone, PartialEq, Eq)]
pub enum PortEvent {
    InitialState { timestamp: i64, ports: Vec<PortInfo> },
    PortOpened { timestamp: i64, port: PortInfo },
    PortClosed { timestamp: i64, port: PortInfo },
}

/// The mathematical value of a [`PortEvent`].
#[verifier::ext_equal]
pub ghost enum EventRecord {
    InitialState { timestamp: int, ports: Seq<PortRecord> },
    PortOpened { timestamp: int, port: PortRecord },
    PortClosed { timestamp: int, port: PortRecord },
}

impl View for PortEvent {
    type V = EventRecord;

    open spec fn view(&self) -> EventRecord {
        match self {
            PortEvent::InitialState { timestamp, ports } => EventRecord::InitialState {
                timestamp: *timestamp as int,
                ports: records_of(ports@),
            },
            PortEvent::PortOpened { timestamp, port } => EventRecord::PortOpened {
                timestamp: *timestamp as int,
                port: port@,
            },
            PortEvent::PortClosed { timestamp, port } => EventRecord::PortClosed {
                timestamp: *timestamp as int,
                port: port@,
            },
        }
    }
}

/// The event views of a sequence of events.
pub open spec fn events_of(s: Seq<PortEvent>) -> Seq<EventRecord> {
    s.map_values(|e: PortEvent| e@)
}

/// The records of `news` that are in neither `olds` nor an earlier position
/// of `news`: each appeared record once, first occurrence first.
pub open spec fn added_records(olds: Seq<PortRecord>, news: Seq<PortRecord>) -> Seq<PortRecord>
    decreases news.len(),
{
    if news.len() == 0 {
        Seq::empty()
    } else {
        let rest = added_records(olds, news.drop_last());
        if olds.contains(news.last()) || news.drop_last().contains(news.last()) {
            rest
        } else {
            rest.push(news.last())
        }
    }
}

/// The appeared records are exactly the set difference, without duplicates,
/// so their count is the cardinality of the difference.
pub proof fn lemma_added_records(olds: Seq<PortRecord>, news: Seq<PortRecord>)
    ensures
        added_records(olds, news).to_set() == news.to_set().difference(olds.to_set()),
        added_records(olds, news).no_duplicates(),
        added_records(olds, news).len() == news.to_set().difference(olds.to_set()).len(),
    decreases news.len(),
{
    broadcast use vstd::set::group_set_axioms, vstd::seq_lib::group_seq_lib_default;

    let added = added_records(olds, news);
    if news.len() == 0 {
        assert(news.to_set() =~= Set::<PortRecord>::empty());
        assert(added.to_set() =~= news.to_set().difference(olds.to_set()));
        added.unique_seq_to_set();
    } else {
        let prefix = news.drop_last();
        let last = news.last();
        lemma_added_records(olds, prefix);
        let rest = added_records(olds, prefix);
        assert(news.to_set() =~= prefix.to_set().insert(last)) by {
            assert forall|x: PortRecord| news.to_set().contains(x) implies prefix.to_set().insert(
                last,
            ).contains(x) by {
                let k = choose|k: int| 0 <= k < news.len() && news[k] == x;
                if k < news.len() - 1 {
                    assert(prefix[k] == x);
                }
            }
            assert forall|x: PortRecord|
                prefix.to_set().insert(last).contains(x) implies news.to_set().contains(x) by {
                if prefix.to_set().contains(x) {
                    let k = choose|k: int| 0 <= k < prefix.len() && prefix[k] == x;
                    assert(news[k] == x);
                } else {
                    assert(news[news.len() - 1] == x);
                }
            }
        }
        if olds.contains(last) || prefix.contains(last) {
            assert(added.to_set() =~= news.to_set().difference(olds.to_set())) by {
                if !olds.contains(last) {
                    assert(prefix.to_set().contains(last));
                }
            }
            added.unique_seq_to_set();
        } else {
            assert(added.to_set() =~= rest.to_set().insert(last)) by {
                assert forall|x: PortRecord| added.to_set().contains(x) implies rest.to_set().insert(
                    last,
                ).contains(x) by {
                    let k = choose|k: int| 0 <= k < added.len() && added[k] == x;
                    if k < added.len() - 1 {
                        assert(rest[k] == x);
                    }
                }
                assert forall|x: PortRecord|
                    rest.to_set().insert(last).contains(x) implies added.to_set().contains(x) by {
                    if rest.to_set().contains(x) {
                        let k = choose|k: int| 0 <= k < rest.len() && rest[k] == x;
                        assert(added[k] == x);
                    } else {
                        assert(added[added.len() - 1] == x);
                    }
                }
            }
            assert(added.to_set() =~= news.to_set().difference(olds.to_set())) by {
                assert(!prefix.to_set().contains(last)) by {
                    if prefix.to_set().contains(last) {
                        let k = choose|k: int| 0 <= k < prefix.len() && prefix[k] == last;
                        assert(prefix.contains(last));
                    }
                }
            }
            assert(!rest.to_set().contains(last));
            assert(added.no_duplicates()) by {
                assert forall|p: int, q: int|
                    0 <= p < q < added.len() implies added[p] != added[q] by {
                    if q < added.len() - 1 {
                        assert(rest[p] == added[p] && rest[q] == added[q]);
                    } else {
                        assert(added[q] == last);
                        assert(rest[p] == added[p]);
                        assert(rest.to_set().contains(rest[p]));
                    }
                }
            }
        }
        added.unique_seq_to_set();
    }
}

/// Nothing is added when every new record already stands in the baseline.
pub proof fn lemma_added_records_subset(olds: Seq<PortRecord>, news: Seq<PortRecord>)
    requires
        forall|k: int| 0 <= k < news.len() ==> olds.contains(#[trigger] news[k]),
    ensures
        added_records(olds, news) == Seq::<PortRecord>::empty(),
    decreases news.len(),
{
    if news.len() > 0 {
        assert(forall|k: int|
            0 <= k < news.drop_last().len() ==> olds.contains(#[trigger] news.drop_last()[k]));
        lemma_added_records_subset(olds, news.drop_last());
        assert(olds.contains(news.last()));
    }
}

/// The mathematical value of a [`Tracker`].
#[verifier::ext_equal]
pub ghost struct TrackerModel {
    pub events: Seq<EventRecord>,
    pub baseline: Seq<PortRecord>,
    pub started_at: Option<int>,
    pub is_active: bool,
    pub export_format: ExportFormat,
}

/// What `start` does: capture the snapshot as baseline, clear the log, and
/// record exactly one `InitialState` event.
pub open spec fn start_spec(t: TrackerModel, ports: Seq<PortRecord>, ts: int) -> TrackerModel {
    TrackerModel {
        events: seq![EventRecord::InitialState { timestamp: ts, ports }],
        baseline: ports,
        started_at: Some(ts),
        is_active: true,
        export_format: t.export_format,
    }
}

/// The `PortOpened` events for the appeared records, in order.
pub open spec fn opened_events(added: Seq<PortRecord>, ts: int) -> Seq<EventRecord> {
    added.map_values(|p: PortRecord| EventRecord::PortOpened { timestamp: ts, port: p })
}

/// The `PortClosed` events for the vanished records, in order.
pub open spec fn closed_events(removed: Seq<PortRecord>, ts: int) -> Seq<EventRecord> {
    removed.map_values(|p: PortRecord| EventRecord::PortClosed { timestamp: ts, port: p })
}

/// What `track_once` does: nothing while inactive; otherwise append one
/// `PortOpened` per appeared record, then one `PortClosed` per vanished
/// record, and replace the baseline with the new snapshot in full.
pub open spec fn track_spec(t: TrackerModel, ports: Seq<PortRecord>, ts: int) -> TrackerModel {
    if !t.is_active {
        t
    } else {
        TrackerModel {
            events: t.events + opened_events(added_records(t.baseline, ports), ts)
                + closed_events(added_records(ports, t.baseline), ts),
            baseline: ports,
            started_at: t.started_at,
            is_active: t.is_active,
            export_format: t.export_format,
        }
    }
}

/// What `stop` does: deactivate and keep everything else.
pub open spec fn stop_spec(t: TrackerModel) -> TrackerModel {
    TrackerModel {
        events: t.events,
        baseline: t.baseline,
        started_at: t.started_at,
        is_active: false,
        export_format: t.export_format,
    }
}

/// Maintains the baseline and the append-only event log.
#[derive(Debug)]
pub struct Tracker {
    pub events: Vec<PortEvent>,
    pub baseline: Vec<PortInfo>,
    pub started_at: Option<i64>,
    pub is_active: bool,
    pub export_format: ExportFormat,
}

impl View for Tracker {
    type V = TrackerModel;

    open spec fn view(&self) -> TrackerModel {
        TrackerModel {
            events: events_of(self.events@),
            baseline: records_of(self.baseline@),
            started_at: match self.started_at {
                Some(t) => Some(t as int),
                None => None,
            },
            is_active: self.is_active,
            export_format: self.export_format,
        }
    }
}

/// Whether some record of `v` equals `p` field for field.
fn holds_record(v: &Vec<PortInfo>, p: &PortInfo) -> (r: bool)
    ensures
        r == records_of(v@).contains(p@),
{
    let mut i: usize = 0;
    while i < v.len()
        invariant
            i <= v@.len(),
            forall|k: int| 0 <= k < i ==> records_of(v@)[k] != p@,
        decreases v@.len() - i,
    {
        if v[i].same_record(p) {
            proof {
                assert(records_of(v@)[i as int] == p@);
            }
            return true;
        }
        i = i + 1;
    }
    proof {
        if records_of(v@).contains(p@) {
            let k = choose|k: int| 0 <= k < records_of(v@).len() && records_of(v@)[k] == p@;
        }
    }
    false
}

/// The records of `news` absent from `olds`, first occurrence first,
/// without duplicates — and the same the other way around.
pub fn diff_ports(olds: &Vec<PortInfo>, news: &Vec<PortInfo>) -> (r: (Vec<PortInfo>, Vec<PortInfo>))
    ensures
        records_of(r.0@) == added_records(records_of(olds@), records_of(news@)),
        records_of(r.1@) == added_records(records_of(news@), records_of(olds@)),
{
    let added = diff_one_way(olds, news);
    let removed = diff_one_way(news, olds);
    (added, removed)
}

/// The records of `news` in neither `olds` nor an earlier position of
/// `news`.
fn diff_one_way(olds: &Vec<PortInfo>, news: &Vec<PortInfo>) -> (r: Vec<PortInfo>)
    ensures
        records_of(r@) == added_records(records_of(olds@), records_of(news@)),
{
    let mut out: Vec<PortInfo> = Vec::new();
    let mut i: usize = 0;
    while i < news.len()
        invariant
            i <= news@.len(),
            records_of(out@) == added_records(records_of(olds@), records_of(news@.take(i as int))),
        decreases news@.len() - i,
    {
        let in_old = holds_record(olds, &news[i]);
        let mut seen_before = false;
        let mut k: usize = 0;
        while k < i
            invariant
                k <= i < news@.len(),
                seen_before == exists|m: int| 0 <= m < k && records_of(news@)[m] == news@[i as int]@,
            decreases i - k,
        {
            if news[k].same_record(&news[i]) {
                proof {
                    assert(records_of(news@)[k as int] == news@[i as int]@);
                }
                seen_before = true;
            }
            k = k + 1;
        }
        proof {
            let prefix = records_of(news@.take(i as int));
            let full = records_of(news@.take(i + 1 as int));
            assert(full.drop_last() =~= prefix);
            assert(full.last() == news@[i as int]@);
            assert(seen_before == prefix.contains(news@[i as int]@)) by {
                if seen_before {
                    let m = choose|m: int|
                        0 <= m < i && records_of(news@)[m] == news@[i as int]@;
                    assert(prefix[m] == news@[i as int]@);
                }
                if prefix.contains(news@[i as int]@) {
                    let m = choose|m: int|
                        0 <= m < prefix.len() && prefix[m] == news@[i as int]@;
                    assert(records_of(news@)[m] == news@[i as int]@);
                }
            }
            assert(in_old == records_of(olds@).contains(full.last()));
        }
        if !in_old && !seen_before {
            out.push(news[i].clone());
            proof {
                assert(records_of(out@) =~= records_of(out@.drop_last()).push(news@[i as int]@));
            }
        }
        proof {
            assert(records_of(out@) =~= added_records(
                records_of(olds@),
                records_of(news@.take(i + 1 as int)),
            ));
        }
        i = i + 1;
    }
    proof {
        assert(news@.take(news@.len() as int) =~= news@);
    }
    out
}

impl Tracker {
    /// A fresh, inactive tracker with an empty log and baseline, exporting
    /// JSON by default.
    pub fn new() -> (t: Self)
        ensures
            t@ == (TrackerModel {
                events: Seq::<EventRecord>::empty(),
                baseline: Seq::<PortRecord>::empty(),
                started_at: None::<int>,
                is_active: false,
                export_format: ExportFormat::Json,
            }),
    {
        let t = Tracker {
            events: Vec::new(),
            baseline: Vec::new(),
            started_at: None,
            is_active: false,
            export_format: ExportFormat::Json,
        };
        proof {
            assert(events_of(t.events@) =~= Seq::<EventRecord>::empty());
            assert(records_of(t.baseline@) =~= Seq::<PortRecord>::empty());
            assert(t@ =~= TrackerModel {
                events: Seq::<EventRecord>::empty(),
                baseline: Seq::<PortRecord>::empty(),
                started_at: None::<int>,
                is_active: false,
                export_format: ExportFormat::Json,
            });
        }
        t
    }

    /// Starts tracking: the snapshot becomes the baseline, the log is
    /// cleared and receives exactly one `InitialState` event.
    pub fn start(&mut self, current_ports: Vec<PortInfo>, timestamp: i64)
        ensures
            final(self)@ == start_spec(old(self)@, records_of(current_ports@), timestamp as int),
    {
        self.started_at = Some(timestamp);
        self.is_active = true;
        self.baseline = crate::model::clone_records(&current_ports);
        let mut events: Vec<PortEvent> = Vec::new();
        events.push(PortEvent::InitialState { timestamp, ports: current_ports });
        self.events = events;
        proof {
            assert(events_of(self.events@) =~= seq![
                EventRecord::InitialState {
                    timestamp: timestamp as int,
                    ports: records_of(current_ports@),
                },
            ]);
            assert(self@ =~= start_spec(old(self)@, records_of(current_ports@), timestamp as int));
        }
    }

    /// Stops tracking; the log and baseline stay as they are.  The caller
    /// is expected to export the accumulated events.
    pub fn stop(&mut self)
        ensures
            final(self)@ == stop_spec(old(self)@),
    {
        self.is_active = false;
        proof {
            assert(self@ =~= stop_spec(old(self)@));
        }
    }

    /// One tracking pass: diffs the snapshot against the baseline, appends
    /// the open events then the close events, and replaces the baseline.
    /// Does nothing while inactive.
    pub fn track_once(&mut self, current_ports: Vec<PortInfo>, timestamp: i64)
        ensures
            final(self)@ == track_spec(old(self)@, records_of(current_ports@), timestamp as int),
    {
        if !self.is_active {
            return;
        }
        let ghost t0 = self@;
        let ghost ts = timestamp as int;
        let (added, removed) = diff_ports(&self.baseline, &current_ports);
        let ghost opened = opened_events(records_of(added@), ts);
        let ghost closed = closed_events(records_of(removed@), ts);
        proof {
            assert(events_of(self.events@) =~= t0.events + opened.take(0int));
        }
        let mut i: usize = 0;
        while i < added.len()
            invariant
                i <= added@.len(),
                ts == timestamp as int,
                opened == opened_events(records_of(added@), ts),
                events_of(self.events@) == t0.events + opened.take(i as int),
                self.baseline == old(self).baseline,
                self.started_at == old(self).started_at,
                self.is_active == old(self).is_active,
                self.export_format == old(self).export_format,
            decreases added@.len() - i,
        {
            let ghost evs0 = self.events@;
            let item = added[i].clone();
            let ghost itemrec = item@;
            let ev = PortEvent::PortOpened { timestamp, port: item };
            proof {
                assert(ev@ == EventRecord::PortOpened { timestamp: ts, port: itemrec });
            }
            let ghost evr = ev@;
            self.events.push(ev);
            proof {
                assert(self.events@ == evs0.push(ev));
                assert(events_of(self.events@) =~= events_of(evs0).push(evr));
                assert(opened[i as int] == EventRecord::PortOpened {
                    timestamp: ts,
                    port: records_of(added@)[i as int],
                });
                assert(records_of(added@)[i as int] == added@[i as int]@);
                assert(opened.take(i + 1 as int) =~= opened.take(i as int).push(
                    opened[i as int],
                ));
                assert(events_of(self.events@) =~= t0.events + opened.take(i + 1 as int));
            }
            i = i + 1;
        }
        proof {
            assert(opened.take(opened.len() as int) =~= opened);
            assert(events_of(self.events@) =~= t0.events + opened + closed.take(0int));
        }
        let mut k: usize = 0;
        while k < removed.len()
            invariant
                k <= removed@.len(),
                ts == timestamp as int,
                closed == closed_events(records_of(removed@), ts),
                events_of(self.events@) == t0.events + opened + closed.take(k as int),
                self.baseline == old(self).baseline,
                self.started_at == old(self).started_at,
                self.is_active == old(self).is_active,
                self.export_format == old(self).export_format,
            decreases removed@.len() - k,
        {
            let ghost evs0 = self.events@;
            let item = removed[k].clone();
            let ghost itemrec = item@;
            let ev = PortEvent::PortClosed { timestamp, port: item };
            proof {
                assert(ev@ == EventRecord::PortClosed { timestamp: ts, port: itemrec });
            }
            let ghost evr = ev@;
            self.events.push(ev);
            proof {
                assert(self.events@ == evs0.push(ev));
                assert(events_of(self.events@) =~= events_of(evs0).push(evr));
                assert(closed[k as int] == EventRecord::PortClosed {
                    timestamp: ts,
                    port: records_of(removed@)[k as int],
                });
                assert(records_of(removed@)[k as int] == removed@[k as int]@);
                assert(closed.take(k + 1 as int) =~= closed.take(k as int).push(
                    closed[k as int],
                ));
                assert(events_of(self.events@) =~= t0.events + opened + closed.take(k + 1 as int));
            }
            k = k + 1;
        }
        proof {
            assert(closed.take(closed.len() as int) =~= closed);
        }
        self.baseline = current_ports;
        proof {
            assert(self@ =~= track_spec(t0, records_of(current_ports@), ts));
        }
    }
}

/// Diff correctness: one tracking pass appends exactly one `PortOpened`
/// per record of the new snapshot absent from the baseline, then exactly
/// one `PortClosed` per baseline record absent from the new snapshot —
/// counted as sets — leaves the earlier log untouched, and replaces the
/// baseline with the new snapshot in full.
pub proof fn lemma_track_once_diff(t: TrackerModel, ports: Seq<PortRecord>, ts: int)
    requires
        t.is_active,
    ensures
        track_spec(t, ports, ts).baseline == ports,
        track_spec(t, ports, ts).events.len() == t.events.len() + ports.to_set().difference(
            t.baseline.to_set(),
        ).len() + t.baseline.to_set().difference(ports.to_set()).len(),
        track_spec(t, ports, ts).events.take(t.events.len() as int) == t.events,
        track_spec(t, ports, ts).events.subrange(
            t.events.len() as int,
            t.events.len() + added_records(t.baseline, ports).len() as int,
        ) == opened_events(added_records(t.baseline, ports), ts),
        track_spec(t, ports, ts).events.skip(
            t.events.len() + added_records(t.baseline, ports).len() as int,
        ) == closed_events(added_records(ports, t.baseline), ts),
        added_records(t.baseline, ports).to_set() == ports.to_set().difference(
            t.baseline.to_set(),
        ),
        added_records(ports, t.baseline).to_set() == t.baseline.to_set().difference(
            ports.to_set(),
        ),
{
    lemma_added_records(t.baseline, ports);
    lemma_added_records(ports, t.baseline);
    let t2 = track_spec(t, ports, ts);
    let opened = opened_events(added_records(t.baseline, ports), ts);
    let closed = closed_events(added_records(ports, t.baseline), ts);
    assert(t2.events.take(t.events.len() as int) =~= t.events);
    assert(t2.events.subrange(t.events.len() as int, t.events.len() + opened.len() as int)
        =~= opened);
    assert(t2.events.skip(t.events.len() + opened.len() as int) =~= closed);
}

/// Idempotence: tracking the same snapshot twice in a row appends no
/// events on the second pass, whatever the timestamps.
pub proof fn lemma_track_once_idempotent(
    t: TrackerModel,
    ports: Seq<PortRecord>,
    ts1: int,
    ts2: int,
)
    ensures
        track_spec(track_spec(t, ports, ts1), ports, ts2).events == track_spec(
            t,
            ports,
            ts1,
        ).events,
{
    if t.is_active {
        let t1 = track_spec(t, ports, ts1);
        assert(t1.baseline == ports);
        assert(forall|k: int| 0 <= k < ports.len() ==> ports.contains(#[trigger] ports[k]));
        lemma_added_records_subset(ports, ports);
        let t2 = track_spec(t1, ports, ts2);
        assert(t2.events =~= t1.events);
    }
}

/// Start/stop round trip: starting on a snapshot and stopping at once
/// leaves an event log of exactly one `InitialState` holding that whole
/// snapshot, ready for export.
pub proof fn lemma_start_stop_roundtrip(t: TrackerModel, ports: Seq<PortRecord>, ts: int)
    ensures
        stop_spec(start_spec(t, ports, ts)).events == seq![
            EventRecord::InitialState { timestamp: ts, ports },
        ],
        !stop_spec(start_spec(t, ports, ts)).is_active,
{
}

} // verus!
