//! The Windows collector's decoder: reads the kernel's socket tables —
//! a little-endian entry count followed by fixed-size rows — out of a raw
//! byte buffer, with every row access bounds-checked against the count
//! before it happens.  Local ports arrive in network byte order and are
//! swapped; UDP rows have no connection state and always count as `Using`.

use vstd::prelude::*;
use crate::model::ProcessPortState;

verus! {

/// One decoded socket-table row.
#[derive(Debug, Clone, Copy, PartialEq, Eq, Structural)]
pub struct NetEntry {
    pub pid: u32,
    pub port: u16,
    pub state: ProcessPortState,
}

/// Where a table's rows keep their fields: the row stride and the byte
/// offsets of the state, port and pid words.  Rows without a state word
/// have no state offset.
#[derive(Debug, Clone, Copy, PartialEq, Eq, Structural)]
pub struct TableLayout {
    pub row_size: u32,
    pub state_offset: Option<u32>,
    pub port_offset: u32,
    pub pid_offset: u32,
}

/// The layout of a TCP-over-IPv4 table row.
pub open spec fn tcp4_layout() -> TableLayout {
    TableLayout { row_size: 24u32, state_offset: Some(0u32), port_offset: 8u32, pid_offset: 20u32 }
}

/// The layout of a TCP-over-IPv6 table row.
pub open spec fn tcp6_layout() -> TableLayout {
    TableLayout {
        row_size: 56u32,
        state_offset: Some(48u32),
        port_offset: 20u32,
        pid_offset: 52u32,
    }
}

/// The layout of a UDP-over-IPv4 table row.
pub open spec fn udp4_layout() -> TableLayout {
    TableLayout { row_size: 12u32, state_offset: None, port_offset: 4u32, pid_offset: 8u32 }
}

/// The layout of a UDP-over-IPv6 table row.
pub open spec fn udp6_layout() -> TableLayout {
    TableLayout { row_size: 28u32, state_offset: None, port_offset: 20u32, pid_offset: 24u32 }
}

/// The little-endian 32-bit value at offset `i`.
pub open spec fn le32_val(b: Seq<u8>, i: int) -> int {
    b[i] + 256 * b[i + 1] + 65536 * b[i + 2] + 16777216 * b[i + 3]
}

/// A port word swapped from network byte order: the low two bytes of the
/// dword, bytes exchanged.
pub open spec fn port_swap(d: int) -> u16 {
    ((d % 256) * 256 + ((d / 256) % 256)) as u16
}

/// The connection state a TCP row's state word denotes: `LISTEN` is state
/// number two; everything else counts as `Using`.
pub open spec fn state_of_word(w: int) -> ProcessPortState {
    if w == 2 {
        ProcessPortState::Hosting
    } else {
        ProcessPortState::Using
    }
}

/// The entry decoded from the row at byte offset `base`.
pub open spec fn entry_of(b: Seq<u8>, base: int, l: TableLayout) -> NetEntry {
    NetEntry {
        pid: le32_val(b, base + l.pid_offset) as u32,
        port: port_swap(le32_val(b, base + l.port_offset)),
        state: match l.state_offset {
            Some(off) => state_of_word(le32_val(b, base + off)),
            None => ProcessPortState::Using,
        },
    }
}

/// The first `count` entries of the table, rows starting right after the
/// four count bytes.
pub open spec fn entries_of(b: Seq<u8>, l: TableLayout, count: int) -> Seq<NetEntry> {
    Seq::new(count as nat, |k: int| entry_of(b, 4 + k * l.row_size, l))
}

/// Whether some entry claims the `(pid, port)` key.
pub open spec fn net_key_in(es: Seq<NetEntry>, pid: u32, port: u16) -> bool {
    exists|m: int| 0 <= m < es.len() && es[m].pid == pid && #[trigger] es[m].port == port
}

/// The entries with every later holder of an already-seen `(pid, port)`
/// key removed: first occurrence wins.
pub open spec fn dedup_net(es: Seq<NetEntry>) -> Seq<NetEntry>
    decreases es.len(),
{
    if es.len() == 0 {
        es
    } else {
        let rest = dedup_net(es.drop_last());
        if net_key_in(es.drop_last(), es.last().pid, es.last().port) {
            rest
        } else {
            rest.push(es.last())
        }
    }
}

/// What decoding a whole table yields: `None` when the buffer cannot even
/// hold the count, or cannot hold `count` rows; otherwise the
/// deduplicated entries.
pub open spec fn decode_table(b: Seq<u8>, l: TableLayout) -> Option<Seq<NetEntry>> {
    if b.len() < 4 {
        None
    } else {
        let n = le32_val(b, 0);
        if b.len() < 4 + n * l.row_size {
            None
        } else {
            Some(dedup_net(entries_of(b, l, n)))
        }
    }
}

/// Every deduplicated entry stands in the original entries.
pub proof fn lemma_dedup_net_elements(es: Seq<NetEntry>)
    ensures
        forall|k: int|
            0 <= k < dedup_net(es).len() ==> es.contains(#[trigger] dedup_net(es)[k]),
    decreases es.len(),
{
    if es.len() > 0 {
        let prefix = es.drop_last();
        lemma_dedup_net_elements(prefix);
        let ded = dedup_net(es);
        assert forall|k: int| 0 <= k < ded.len() implies es.contains(#[trigger] ded[k]) by {
            if net_key_in(prefix, es.last().pid, es.last().port) {
                assert(ded[k] == dedup_net(prefix)[k]);
                let m = choose|m: int| 0 <= m < prefix.len() && prefix[m] == ded[k];
                assert(es[m] == ded[k]);
            } else {
                if k < ded.len() - 1 {
                    assert(ded[k] == dedup_net(prefix)[k]);
                    let m = choose|m: int| 0 <= m < prefix.len() && prefix[m] == ded[k];
                    assert(es[m] == ded[k]);
                } else {
                    assert(ded[k] == es.last());
                    assert(es[es.len() - 1] == es.last());
                }
            }
        }
    }
}

/// Rows of a table without a state word — the UDP tables — all decode to
/// `Using`.
pub proof fn lemma_udp_rows_using(b: Seq<u8>, l: TableLayout)
    requires
        l.state_offset is None,
    ensures
        match decode_table(b, l) {
            Some(es) => forall|k: int|
                0 <= k < es.len() ==> #[trigger] es[k].state == ProcessPortState::Using,
            None => true,
        },
{
    match decode_table(b, l) {
        Some(es) => {
            let n = le32_val(b, 0);
            lemma_dedup_net_elements(entries_of(b, l, n));
            assert forall|k: int|
                0 <= k < es.len() implies #[trigger] es[k].state == ProcessPortState::Using by {
                assert(entries_of(b, l, n).contains(es[k]));
                let m = choose|m: int|
                    0 <= m < entries_of(b, l, n).len() && entries_of(b, l, n)[m] == es[k];
                assert(entries_of(b, l, n)[m].state == ProcessPortState::Using);
            }
        },
        None => {},
    }
}

/// A TCP row decodes to `Hosting` exactly when its state word holds the
/// `LISTEN` state number, two.
pub proof fn lemma_tcp_row_classification(b: Seq<u8>, l: TableLayout, k: int)
    requires
        l.state_offset is Some,
        0 <= k < le32_val(b, 0),
    ensures
        entries_of(b, l, le32_val(b, 0))[k].state == ProcessPortState::Hosting <==> le32_val(
            b,
            4 + k * l.row_size + l.state_offset.unwrap(),
        ) == 2,
{
}

/// Appending one entry adds exactly its key to the keys present.
proof fn lemma_net_key_in_push(es: Seq<NetEntry>, e: NetEntry, pid: u32, port: u16)
    ensures
        net_key_in(es.push(e), pid, port) == (net_key_in(es, pid, port) || (e.pid == pid && e.port
            == port)),
{
    let p = es.push(e);
    if net_key_in(p, pid, port) {
        let m = choose|m: int| 0 <= m < p.len() && p[m].pid == pid && #[trigger] p[m].port == port;
        if m < es.len() {
            assert(es[m].pid == pid && es[m].port == port);
        } else {
            assert(p[m] == e);
        }
    }
    if net_key_in(es, pid, port) {
        let m = choose|m: int|
            0 <= m < es.len() && es[m].pid == pid && #[trigger] es[m].port == port;
        assert(p[m].pid == pid && p[m].port == port);
    }
    if e.pid == pid && e.port == port {
        assert(p[es.len() as int].pid == pid && p[es.len() as int].port == port);
    }
}

/// Deduplication holds a key if and only if the input does.
proof fn lemma_dedup_net_keys(es: Seq<NetEntry>)
    ensures
        forall|pid: u32, port: u16|
            net_key_in(es, pid, port) == #[trigger] net_key_in(dedup_net(es), pid, port),
    decreases es.len(),
{
    if es.len() > 0 {
        let prefix = es.drop_last();
        let last = es.last();
        lemma_dedup_net_keys(prefix);
        let rest = dedup_net(prefix);
        assert(es =~= prefix.push(last));
        assert forall|pid: u32, port: u16|
            net_key_in(es, pid, port) == #[trigger] net_key_in(dedup_net(es), pid, port) by {
            lemma_net_key_in_push(prefix, last, pid, port);
            assert(net_key_in(prefix, pid, port) == net_key_in(rest, pid, port));
            if net_key_in(prefix, last.pid, last.port) {
                assert(dedup_net(es) == rest);
                if last.pid == pid && last.port == port {
                    assert(net_key_in(prefix, pid, port));
                }
            } else {
                assert(dedup_net(es) == rest.push(last));
                lemma_net_key_in_push(rest, last, pid, port);
            }
        }
    }
}

/// The little-endian 32-bit value at offset `i`, executably.
fn read_le32(b: &Vec<u8>, i: usize) -> (r: u32)
    requires
        i + 4 <= b@.len(),
    ensures
        r as int == le32_val(b@, i as int),
{
    let blen = b.len();
    (b[i] as u32) + 256 * (b[i + 1] as u32) + 65536 * (b[i + 2] as u32) + 16777216 * (b[i
        + 3] as u32)
}

/// Whether some entry of `v` claims the key, executably.
fn net_key_in_exec(v: &Vec<NetEntry>, pid: u32, port: u16) -> (r: bool)
    ensures
        r == net_key_in(v@, pid, port),
{
    let mut i: usize = 0;
    while i < v.len()
        invariant
            i <= v@.len(),
            forall|m: int| 0 <= m < i ==> !(v@[m].pid == pid && #[trigger] v@[m].port == port),
        decreases v@.len() - i,
    {
        if v[i].pid == pid && v[i].port == port {
            return true;
        }
        i = i + 1;
    }
    proof {
        if net_key_in(v@, pid, port) {
            let m = choose|m: int|
                0 <= m < v@.len() && v@[m].pid == pid && #[trigger] v@[m].port == port;
        }
    }
    false
}

/// Decodes a whole table under the given layout, exactly as
/// [`decode_table`] describes.
fn decode_entries(b: &Vec<u8>, layout: TableLayout) -> (r: Option<Vec<NetEntry>>)
    requires
        1 <= layout.row_size <= 1024,
        layout.port_offset + 4 <= layout.row_size,
        layout.pid_offset + 4 <= layout.row_size,
        layout.state_offset matches Some(off) ==> off + 4 <= layout.row_size,
    ensures
        match r {
            Some(es) => decode_table(b@, layout) == Some(es@),
            None => decode_table(b@, layout) is None,
        },
{
    let blen = b.len();
    if blen < 4 {
        return None;
    }
    let n = read_le32(b, 0);
    proof {
        assert((n as int) * (layout.row_size as int) <= 0xffffffff * 1024) by (nonlinear_arith)
            requires
                0 <= n as int <= 0xffffffff,
                0 <= layout.row_size as int <= 1024,
        ;
    }
    let need: u64 = 4 + (n as u64) * (layout.row_size as u64);
    if (b.len() as u64) < need {
        proof {
            assert(b@.len() < 4 + le32_val(b@, 0int) * layout.row_size);
        }
        return None;
    }
    proof {
        assert(b@.len() >= 4 + le32_val(b@, 0int) * layout.row_size);
    }
    let ghost all = entries_of(b@, layout, n as int);
    let mut out: Vec<NetEntry> = Vec::new();
    let mut k: usize = 0;
    proof {
        assert(all.take(0int) =~= Seq::<NetEntry>::empty());
        assert(out@ =~= dedup_net(all.take(0int)));
    }
    while k < n as usize
        invariant
            k <= n as usize,
            n as int == le32_val(b@, 0int),
            all == entries_of(b@, layout, n as int),
            blen == b@.len(),
            b@.len() >= 4 + (n as int) * layout.row_size,
            1 <= layout.row_size <= 1024,
            layout.port_offset + 4 <= layout.row_size,
            layout.pid_offset + 4 <= layout.row_size,
            layout.state_offset matches Some(off) ==> off + 4 <= layout.row_size,
            out@ == dedup_net(all.take(k as int)),
        decreases n as usize - k,
    {
        proof {
            assert((k as int) * (layout.row_size as int) <= ((n as int) - 1) * (
            layout.row_size as int)) by (nonlinear_arith)
                requires
                    k as int <= (n as int) - 1,
                    layout.row_size as int >= 1,
            ;
            assert(((n as int) - 1) * (layout.row_size as int) + (layout.row_size as int) == (
            n as int) * (layout.row_size as int)) by (nonlinear_arith);
            assert(4 + (k as int) * (layout.row_size as int) + (layout.row_size as int)
                <= b@.len());
        }
        let base: usize = 4 + k * (layout.row_size as usize);
        let pid = read_le32(b, base + (layout.pid_offset as usize));
        let port_word = read_le32(b, base + (layout.port_offset as usize));
        let port: u16 = (((port_word % 256) * 256) + ((port_word / 256) % 256)) as u16;
        let state: ProcessPortState = match layout.state_offset {
            Some(off) => {
                let w = read_le32(b, base + (off as usize));
                if w == 2 {
                    ProcessPortState::Hosting
                } else {
                    ProcessPortState::Using
                }
            },
            None => ProcessPortState::Using,
        };
        let e = NetEntry { pid, port, state };
        proof {
            assert(e == entry_of(b@, base as int, layout));
            assert(all[k as int] == entry_of(b@, 4 + (k as int) * layout.row_size, layout));
            assert(base as int == 4 + (k as int) * layout.row_size);
            assert(all.take(k + 1 as int).drop_last() =~= all.take(k as int));
            assert(all.take(k + 1 as int).last() == all[k as int]);
            lemma_dedup_net_keys(all.take(k as int));
        }
        if !net_key_in_exec(&out, e.pid, e.port) {
            out.push(e);
            proof {
                assert(!net_key_in(all.take(k as int), e.pid, e.port));
                assert(out@ =~= dedup_net(all.take(k + 1 as int)));
            }
        } else {
            proof {
                assert(net_key_in(all.take(k as int), e.pid, e.port));
                assert(out@ =~= dedup_net(all.take(k + 1 as int)));
            }
        }
        k = k + 1;
    }
    proof {
        assert(all.take(n as int) =~= all);
    }
    Some(out)
}

/// The four protocol/address-family tables a collection pass queries.
#[derive(Debug, Clone, Copy, PartialEq, Eq, Structural)]
pub enum Protocol {
    TcpIpv4,
    TcpIpv6,
    UdpIpv4,
    UdpIpv6,
}

/// The name a protocol is reported under.
pub open spec fn protocol_chars(p: Protocol) -> Seq<char> {
    match p {
        Protocol::TcpIpv4 => "TcpIpv4"@,
        Protocol::TcpIpv6 => "TcpIpv6"@,
        Protocol::UdpIpv4 => "UdpIpv4"@,
        Protocol::UdpIpv6 => "UdpIpv6"@,
    }
}

/// The error reported when one protocol's table cannot be decoded.
pub open spec fn fetch_failed_msg(p: Protocol) -> Seq<char> {
    "Failed to fetch table for protocol: "@ + protocol_chars(p)
}

/// Builds the error for a protocol whose table could not be decoded.
fn fetch_failed_error(p: Protocol) -> (r: String)
    ensures
        r@ == fetch_failed_msg(p),
{
    let mut msg: Vec<char> = Vec::new();
    crate::codec::push_lit(&mut msg, "Failed to fetch table for protocol: ");
    match p {
        Protocol::TcpIpv4 => crate::codec::push_lit(&mut msg, "TcpIpv4"),
        Protocol::TcpIpv6 => crate::codec::push_lit(&mut msg, "TcpIpv6"),
        Protocol::UdpIpv4 => crate::codec::push_lit(&mut msg, "UdpIpv4"),
        Protocol::UdpIpv6 => crate::codec::push_lit(&mut msg, "UdpIpv6"),
    }
    crate::text::string_from_chars(&msg)
}

/// Combines one collection pass's four raw tables into one snapshot: the
/// decoded entries concatenated in the fixed protocol order, or the typed
/// error of the first table that cannot be decoded — a bad table is fatal
/// to the whole pass, never silently skipped.
pub fn combine_port_tables(
    tcp4: &Vec<u8>,
    tcp6: &Vec<u8>,
    udp4: &Vec<u8>,
    udp6: &Vec<u8>,
) -> (r: Result<Vec<NetEntry>, String>)
    ensures
        match decode_table(tcp4@, tcp4_layout()) {
            None => r matches Err(e) && e@ == fetch_failed_msg(Protocol::TcpIpv4),
            Some(a) => match decode_table(tcp6@, tcp6_layout()) {
                None => r matches Err(e) && e@ == fetch_failed_msg(Protocol::TcpIpv6),
                Some(b) => match decode_table(udp4@, udp4_layout()) {
                    None => r matches Err(e) && e@ == fetch_failed_msg(Protocol::UdpIpv4),
                    Some(c) => match decode_table(udp6@, udp6_layout()) {
                        None => r matches Err(e) && e@ == fetch_failed_msg(Protocol::UdpIpv6),
                        Some(d) => r matches Ok(es) && es@ == a + b + c + d,
                    },
                },
            },
        },
{
    let mut all = match parse_tcp_ipv4(tcp4) {
        Some(es) => es,
        None => {
            return Err(fetch_failed_error(Protocol::TcpIpv4));
        },
    };
    let mut b = match parse_tcp_ipv6(tcp6) {
        Some(es) => es,
        None => {
            return Err(fetch_failed_error(Protocol::TcpIpv6));
        },
    };
    let mut c = match parse_udp_ipv4(udp4) {
        Some(es) => es,
        None => {
            return Err(fetch_failed_error(Protocol::UdpIpv4));
        },
    };
    let mut d = match parse_udp_ipv6(udp6) {
        Some(es) => es,
        None => {
            return Err(fetch_failed_error(Protocol::UdpIpv6));
        },
    };
    all.append(&mut b);
    all.append(&mut c);
    all.append(&mut d);
    Ok(all)
}

/// Decodes a TCP-over-IPv4 owner table.
pub fn parse_tcp_ipv4(buffer: &Vec<u8>) -> (r: Option<Vec<NetEntry>>)
    ensures
        match r {
            Some(es) => decode_table(buffer@, tcp4_layout()) == Some(es@),
            None => decode_table(buffer@, tcp4_layout()) is None,
        },
{
    decode_entries(
        buffer,
        TableLayout { row_size: 24, state_offset: Some(0), port_offset: 8, pid_offset: 20 },
    )
}

/// Decodes a TCP-over-IPv6 owner table.
pub fn parse_tcp_ipv6(buffer: &Vec<u8>) -> (r: Option<Vec<NetEntry>>)
    ensures
        match r {
            Some(es) => decode_table(buffer@, tcp6_layout()) == Some(es@),
            None => decode_table(buffer@, tcp6_layout()) is None,
        },
{
    decode_entries(
        buffer,
        TableLayout { row_size: 56, state_offset: Some(48), port_offset: 20, pid_offset: 52 },
    )
}

/// Decodes a UDP-over-IPv4 owner table; every entry is `Using`.
pub fn parse_udp_ipv4(buffer: &Vec<u8>) -> (r: Option<Vec<NetEntry>>)
    ensures
        match r {
            Some(es) => decode_table(buffer@, udp4_layout()) == Some(es@),
            None => decode_table(buffer@, udp4_layout()) is None,
        },
{
    decode_entries(
        buffer,
        TableLayout { row_size: 12, state_offset: None, port_offset: 4, pid_offset: 8 },
    )
}

/// Decodes a UDP-over-IPv6 owner table; every entry is `Using`.
pub fn parse_udp_ipv6(buffer: &Vec<u8>) -> (r: Option<Vec<NetEntry>>)
    ensures
        match r {
            Some(es) => decode_table(buffer@, udp6_layout()) == Some(es@),
            None => decode_table(buffer@, udp6_layout()) is None,
        },
{
    decode_entries(
        buffer,
        TableLayout { row_size: 28, state_offset: None, port_offset: 20, pid_offset: 24 },
    )
}

} // verus!
