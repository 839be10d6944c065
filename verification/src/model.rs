//! The data model shared by the collector, the tracker and the exporters:
//! one observed port/process binding, and the response types of the
//! process-level operations.

use vstd::prelude::*;

verus! {

/// Whether the owning process is listening on the port (`Hosting`) or holds
/// some other kind of connection on it (`Using`).
#[derive(Debug, Clone, Copy, PartialEq, Eq, Hash, Structural)]
pub enum ProcessPortState {
    Using,
    Hosting,
}

/// The mathematical value of a [`PortInfo`]: the same fields, with strings
/// abstracted to character sequences.
#[verifier::ext_equal]
pub ghost struct PortRecord {
    pub id: Seq<char>,
    pub port: u16,
    pub pid: u32,
    pub process_name: Seq<char>,
    pub process_path: Seq<char>,
    pub port_state: ProcessPortState,
}

/// One observed binding of a process to a transport port.
///
/// `id` is a deduplication key derived deterministically from
/// `(pid, port, process_name)`; `process_name` and `process_path` degrade to
/// sentinel strings when per-process introspection fails.
#[derive(Debug, PartialEq, Eq, Hash)]
pub struct PortInfo {
    pub id: String,
    pub port: u16,
    pub pid: u32,
    pub process_name: String,
    pub process_path: String,
    pub port_state: ProcessPortState,
}

impl View for PortInfo {
    type V = PortRecord;

    open spec fn view(&self) -> PortRecord {
        PortRecord {
            id: self.id@,
            port: self.port,
            pid: self.pid,
            process_name: self.process_name@,
            process_path: self.process_path@,
            port_state: self.port_state,
        }
    }
}

/// The record views of a sequence of [`PortInfo`] values.
pub open spec fn records_of(s: Seq<PortInfo>) -> Seq<PortRecord> {
    s.map_values(|p: PortInfo| p@)
}

impl Clone for PortInfo {
    /// A clone carries the same record value.
    fn clone(&self) -> (r: Self)
        ensures
            r@ == self@,
    {
        let r = PortInfo {
            id: self.id.clone(),
            port: self.port,
            pid: self.pid,
            process_name: self.process_name.clone(),
            process_path: self.process_path.clone(),
            port_state: self.port_state,
        };
        proof {
            assert(r@ =~= self@);
        }
        r
    }
}

impl PortInfo {
    /// The five cells a table row shows for this record: port, pid, name,
    /// path, and the state label.
    pub fn ref_array(&self) -> (r: Vec<String>)
        ensures
            r@.len() == 5,
            r@[0]@ == crate::text::dec_of(self.port as nat),
            r@[1]@ == crate::text::dec_of(self.pid as nat),
            r@[2]@ == self.process_name@,
            r@[3]@ == self.process_path@,
            r@[4]@ == crate::codec::state_chars(self.port_state),
    {
        let mut r: Vec<String> = Vec::new();
        r.push(crate::text::u64_string(self.port as u64));
        r.push(crate::text::u64_string(self.pid as u64));
        r.push(self.process_name.clone());
        r.push(self.process_path.clone());
        let mut label: Vec<char> = Vec::new();
        crate::codec::push_state(&mut label, self.port_state);
        r.push(crate::text::string_from_chars(&label));
        r
    }

    /// Field-for-field equality of two records, decided executably.
    pub fn same_record(&self, other: &PortInfo) -> (r: bool)
        ensures
            r == (self@ == other@),
    {
        let r = self.id == other.id && self.port == other.port && self.pid == other.pid
            && self.process_name == other.process_name
            && self.process_path == other.process_path && self.port_state == other.port_state;
        proof {
            if r {
                assert(self@ =~= other@);
            }
        }
        r
    }
}

/// A vector of records with the same record values, element for element.
pub fn clone_records(v: &Vec<PortInfo>) -> (r: Vec<PortInfo>)
    ensures
        records_of(r@) == records_of(v@),
        r@.len() == v@.len(),
{
    let mut r: Vec<PortInfo> = Vec::new();
    let mut i: usize = 0;
    while i < v.len()
        invariant
            i <= v@.len(),
            records_of(r@) == records_of(v@.take(i as int)),
            r@.len() == i,
        decreases v@.len() - i,
    {
        let ghost r0 = r@;
        let c = v[i].clone();
        let ghost crec = c@;
        r.push(c);
        proof {
            assert(records_of(r@) =~= records_of(r0).push(crec));
            assert(records_of(v@.take(i + 1 as int)) =~= records_of(v@.take(i as int)).push(
                v@[i as int]@,
            ));
        }
        i = i + 1;
    }
    proof {
        assert(v@.take(v@.len() as int) =~= v@);
    }
    r
}

/// The outcome of a kill request, in human-readable form.
#[derive(Debug, Clone, PartialEq, Eq)]
pub struct KillProcessResponse {
    pub success: bool,
    pub message: String,
}

/// The mathematical value of a [`ProcessInfo`].
#[verifier::ext_equal]
pub ghost struct ProcessRecord {
    pub pid: u32,
    pub port: u16,
    pub process_name: Seq<char>,
    pub process_path: Seq<char>,
}

/// Identity of a process found using a port.
#[derive(Debug, PartialEq, Eq)]
pub struct ProcessInfo {
    pub pid: u32,
    pub port: u16,
    pub process_name: String,
    pub process_path: String,
}

impl Clone for ProcessInfo {
    /// A clone carries the same record value.
    fn clone(&self) -> (r: Self)
        ensures
            r@ == self@,
    {
        let r = ProcessInfo {
            pid: self.pid,
            port: self.port,
            process_name: self.process_name.clone(),
            process_path: self.process_path.clone(),
        };
        proof {
            assert(r@ =~= self@);
        }
        r
    }
}

impl View for ProcessInfo {
    type V = ProcessRecord;

    open spec fn view(&self) -> ProcessRecord {
        ProcessRecord {
            pid: self.pid,
            port: self.port,
            process_name: self.process_name@,
            process_path: self.process_path@,
        }
    }
}

/// Answer to "who is using this port": either the hosting indication with no
/// peer data, or the identity of the process using the port.
#[derive(Debug, Clone, PartialEq, Eq)]
pub struct ProcessInfoResponse {
    pub port_state: ProcessPortState,
    pub data: Option<ProcessInfo>,
}

} // verus!
