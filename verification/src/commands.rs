//! The operations offered around the collector: fetching the port rows
//! from a listing, building full records out of rows and resolved paths,
//! describing kill outcomes, finding a port's owner, and the monitoring
//! settings.  All input and output is plain values; running commands and
//! reading the process filesystem stay with the caller.

use vstd::prelude::*;
use vstd::string::StringExecFns;
use crate::export::dec_signed;
use crate::ident::{make_record_id, record_id};
use crate::lsof::{
    after_last_colon, contains_listen, lines_from, parse_lsof_output, pid_of, rows_of, spec_rows,
    tokens_from, u16_of, LsofRow, RowRecord,
};
use crate::model::{
    records_of, KillProcessResponse, PortInfo, PortRecord, ProcessInfo, ProcessInfoResponse,
    ProcessPortState,
};
use crate::text::{append_u64, chars_vec, dec_of, string_from_chars};

verus! {

/// The record built from one parsed row and one resolved path.
pub open spec fn built_record(row: RowRecord, path: Seq<char>) -> PortRecord {
    PortRecord {
        id: record_id(row.pid, row.port, row.name),
        port: row.port,
        pid: row.pid,
        process_name: row.name,
        process_path: path,
        port_state: row.state,
    }
}

/// Builds one full record per row, pairing it with the resolved path of
/// its process: no row is dropped, whatever its path resolution did.
pub fn build_port_infos(rows: Vec<LsofRow>, paths: Vec<String>) -> (r: Vec<PortInfo>)
    requires
        rows@.len() == paths@.len(),
    ensures
        r@.len() == rows@.len(),
        forall|k: int|
            0 <= k < r@.len() ==> #[trigger] r@[k]@ == built_record(rows@[k]@, paths@[k]@),
{
    let mut out: Vec<PortInfo> = Vec::new();
    let mut i: usize = 0;
    while i < rows.len()
        invariant
            rows@.len() == paths@.len(),
            i <= rows@.len(),
            out@.len() == i,
            forall|k: int|
                0 <= k < i ==> #[trigger] out@[k]@ == built_record(rows@[k]@, paths@[k]@),
        decreases rows@.len() - i,
    {
        let row = &rows[i];
        let name_chars = chars_vec(row.process_name.as_str());
        let id = make_record_id(row.pid, row.port, &name_chars);
        let p = PortInfo {
            id,
            port: row.port,
            pid: row.pid,
            process_name: row.process_name.clone(),
            process_path: paths[i].clone(),
            port_state: row.state,
        };
        proof {
            assert(p@ =~= built_record(rows@[i as int]@, paths@[i as int]@));
        }
        out.push(p);
        i = i + 1;
    }
    out
}

/// The record built from one decoded table entry and the owning process's
/// resolved name and path.  The id deliberately hashes the pid and port
/// alone: the table collector identifies a binding without its process
/// name, unlike the listing collector.
pub open spec fn net_record(e: crate::nettable::NetEntry, name: Seq<char>, path: Seq<char>) -> PortRecord {
    PortRecord {
        id: record_id(e.pid, e.port, Seq::empty()),
        port: e.port,
        pid: e.pid,
        process_name: name,
        process_path: path,
        port_state: e.state,
    }
}

/// The name and path of a table entry's owner: the resolved pair, or the
/// `Unknown`/`Unknown` substitution when the process could not be
/// queried — the entry itself is never dropped.
pub fn name_or_unknown(info: Option<(String, String)>) -> (r: (String, String))
    ensures
        match info {
            Some((n, p)) => r.0@ == n@ && r.1@ == p@,
            None => r.0@ == "Unknown"@ && r.1@ == "Unknown"@,
        },
{
    match info {
        Some((n, p)) => (n, p),
        None => (String::from_str("Unknown"), String::from_str("Unknown")),
    }
}

/// Builds one full record per decoded table entry, pairing it with its
/// owner's name and path: no entry is dropped, whatever its owner lookup
/// did.
pub fn build_net_infos(entries: Vec<crate::nettable::NetEntry>, names: Vec<(String, String)>) -> (r:
    Vec<PortInfo>)
    requires
        entries@.len() == names@.len(),
    ensures
        r@.len() == entries@.len(),
        forall|k: int|
            0 <= k < r@.len() ==> #[trigger] r@[k]@ == net_record(
                entries@[k],
                names@[k].0@,
                names@[k].1@,
            ),
{
    let mut out: Vec<PortInfo> = Vec::new();
    let mut i: usize = 0;
    while i < entries.len()
        invariant
            entries@.len() == names@.len(),
            i <= entries@.len(),
            out@.len() == i,
            forall|k: int|
                0 <= k < i ==> #[trigger] out@[k]@ == net_record(
                    entries@[k],
                    names@[k].0@,
                    names@[k].1@,
                ),
        decreases entries@.len() - i,
    {
        let e = entries[i];
        let empty_name: Vec<char> = Vec::new();
        let id = make_record_id(e.pid, e.port, &empty_name);
        let p = PortInfo {
            id,
            port: e.port,
            pid: e.pid,
            process_name: names[i].0.clone(),
            process_path: names[i].1.clone(),
            port_state: e.state,
        };
        proof {
            assert(p@ =~= net_record(entries@[i as int], names@[i as int].0@, names@[i as int].1@));
        }
        out.push(p);
        i = i + 1;
    }
    out
}

/// How resolving a process's executable path ended.
#[derive(Debug, Clone, PartialEq, Eq)]
pub enum PathLookup {
    Found(String),
    PermissionDenied,
    NotFound,
    Unknown,
}

/// The path string a lookup outcome yields: the resolved path, or the
/// sentinel naming what went wrong — resolution failures never remove a
/// record, and never leak raw error text.
pub fn path_or_sentinel(outcome: PathLookup) -> (r: String)
    ensures
        r@ == (match outcome {
            PathLookup::Found(p) => p@,
            PathLookup::PermissionDenied => "Permission Denied"@,
            PathLookup::NotFound => "Process not found"@,
            PathLookup::Unknown => "Unknown"@,
        }),
{
    match outcome {
        PathLookup::Found(p) => p,
        PathLookup::PermissionDenied => String::from_str("Permission Denied"),
        PathLookup::NotFound => String::from_str("Process not found"),
        PathLookup::Unknown => String::from_str("Unknown"),
    }
}

/// Fetches the port rows out of a finished listing run: a failed run is a
/// typed error carrying the command's own words; a successful one parses
/// into deduplicated rows, exactly as [`spec_rows`] describes.
pub fn fetch_ports(stdout: &str, status_success: bool, stderr: &str) -> (r: Result<
    Vec<LsofRow>,
    String,
>)
    ensures
        status_success <==> r is Ok,
        match r {
            Ok(rows) => rows_of(rows@) == spec_rows(stdout@),
            Err(e) => e@ == "lsof command failed: "@ + stderr@,
        },
{
    if !status_success {
        let mut msg: Vec<char> = Vec::new();
        crate::codec::push_lit(&mut msg, "lsof command failed: ");
        crate::codec::push_lit(&mut msg, stderr);
        return Err(string_from_chars(&msg));
    }
    Ok(parse_lsof_output(stdout))
}

/// How running the kill command ended, as plain values.
#[derive(Debug, Clone, PartialEq, Eq)]
pub enum KillOutcome {
    /// The command ran: whether it succeeded, its exit code, and its
    /// trimmed error output.
    Completed { success: bool, exit_code: i64, stderr_trimmed: String },
    /// The command could not be run at all.
    LaunchFailed { error: String },
}

/// The message reported for a successful kill.
pub open spec fn kill_success_msg(pid: u32) -> Seq<char> {
    "Successfully killed process with PID "@ + dec_of(pid as nat)
}

/// The message reported for a kill the command refused.
pub open spec fn kill_failed_msg(pid: u32, code: int, stderr: Seq<char>) -> Seq<char> {
    "Failed to kill process "@ + dec_of(pid as nat) + " (Exit code: "@ + dec_signed(code) + "): "@
        + stderr
}

/// The message reported when the kill command could not be run.
pub open spec fn kill_launch_msg(error: Seq<char>) -> Seq<char> {
    "Failed to execute kill command: "@ + error
}

/// Describes a kill request's outcome in human-readable form: success
/// exactly when the command ran and succeeded, with the exact message for
/// each outcome.
pub fn kill_process(pid: u32, outcome: KillOutcome) -> (r: KillProcessResponse)
    ensures
        r.success <==> (outcome matches KillOutcome::Completed { success: true, .. }),
        match outcome {
            KillOutcome::Completed { success, exit_code, stderr_trimmed } => r.message@ == (
            if success {
                kill_success_msg(pid)
            } else {
                kill_failed_msg(pid, exit_code as int, stderr_trimmed@)
            }),
            KillOutcome::LaunchFailed { error } => r.message@ == kill_launch_msg(error@),
        },
{
    match outcome {
        KillOutcome::Completed { success, exit_code, stderr_trimmed } => {
            if success {
                let mut msg: Vec<char> = Vec::new();
                crate::codec::push_lit(&mut msg, "Successfully killed process with PID ");
                append_u64(&mut msg, pid as u64);
                KillProcessResponse { success: true, message: string_from_chars(&msg) }
            } else {
                let mut msg: Vec<char> = Vec::new();
                crate::codec::push_lit(&mut msg, "Failed to kill process ");
                append_u64(&mut msg, pid as u64);
                crate::codec::push_lit(&mut msg, " (Exit code: ");
                crate::export::append_i64(&mut msg, exit_code);
                crate::codec::push_lit(&mut msg, "): ");
                crate::codec::push_lit(&mut msg, stderr_trimmed.as_str());
                proof {
                    assert(msg@ =~= kill_failed_msg(pid, exit_code as int, stderr_trimmed@));
                }
                KillProcessResponse { success: false, message: string_from_chars(&msg) }
            }
        },
        KillOutcome::LaunchFailed { error } => {
            let mut msg: Vec<char> = Vec::new();
            crate::codec::push_lit(&mut msg, "Failed to execute kill command: ");
            crate::codec::push_lit(&mut msg, error.as_str());
            KillProcessResponse { success: false, message: string_from_chars(&msg) }
        },
    }
}

/// The pid a line claims as a listener on `port`: the line must have at
/// least ten columns, a numeric pid, a state column holding `LISTEN`, and
/// an address column whose port equals `port` exactly.
pub open spec fn line_owner(line: Seq<char>, port: u16) -> Option<u32> {
    let parts = tokens_from(line, 0);
    if parts.len() < 10 {
        None
    } else {
        match pid_of(parts[1]) {
            None => None,
            Some(pid) => if !contains_listen(parts[9]) {
                None
            } else {
                match u16_of(after_last_colon(parts[8])) {
                    None => None,
                    Some(p) => if p == port {
                        Some(pid)
                    } else {
                        None
                    },
                }
            },
        }
    }
}

/// The first line's listener pid, scanning top to bottom.
pub open spec fn find_owner(ls: Seq<Seq<char>>, port: u16) -> Option<u32>
    decreases ls.len(),
{
    if ls.len() == 0 {
        None
    } else {
        match line_owner(ls[0], port) {
            Some(pid) => Some(pid),
            None => find_owner(ls.drop_first(), port),
        }
    }
}

/// Who owns a port, as the lookup reports it.
#[derive(Debug, Clone, Copy, PartialEq, Eq, Structural)]
pub enum PortOwner {
    /// The asking process itself is the listener.
    SelfListener,
    /// Another process is the listener.
    OtherProcess { pid: u32 },
}

/// The error message when no listener is found.
pub open spec fn no_owner_msg(port: u16) -> Seq<char> {
    "No processes found listening on port "@ + dec_of(port as nat)
}

/// Reads one line's listener claim, exactly as [`line_owner`] describes.
fn parse_line_owner(line: &Vec<char>, port: u16) -> (r: Option<u32>)
    ensures
        r == line_owner(line@, port),
{
    let parts = crate::lsof::tokenize(line);
    if parts.len() < 10 {
        return None;
    }
    let pid64 = match crate::lsof::parse_pid_token(&parts[1]) {
        Some(v) => v,
        None => {
            proof {
                assert(crate::lsof::toks_of(parts@)[1] == parts@[1]@);
            }
            return None;
        },
    };
    if !crate::lsof::listen_token(&parts[9]) {
        proof {
            assert(crate::lsof::toks_of(parts@)[9] == parts@[9]@);
        }
        return None;
    }
    let p = match crate::lsof::parse_u16_token(&parts[8]) {
        Some(v) => v,
        None => {
            proof {
                assert(crate::lsof::toks_of(parts@)[8] == parts@[8]@);
            }
            return None;
        },
    };
    proof {
        let sp = tokens_from(line@, 0);
        assert(sp[1] == parts@[1]@);
        assert(sp[8] == parts@[8]@);
        assert(sp[9] == parts@[9]@);
    }
    if p == port {
        Some(pid64)
    } else {
        None
    }
}

/// Finds who listens on `port` in a listing: the asking process itself,
/// another process's pid, or a typed error naming the port when no line
/// claims it.  Exactly the first claiming line decides.
pub fn get_processes_using_port(output: &str, port: u16, item_pid: u32) -> (r: Result<
    PortOwner,
    String,
>)
    ensures
        match find_owner(lines_from(output@, 0), port) {
            Some(pid) => r == (if pid == item_pid {
                Ok::<PortOwner, String>(PortOwner::SelfListener)
            } else {
                Ok::<PortOwner, String>(PortOwner::OtherProcess { pid })
            }),
            None => r is Err && (r matches Err(e) ==> e@ == no_owner_msg(port)),
        },
{
    let cs = chars_vec(output);
    let lines = crate::lsof::split_lines(&cs);
    let ghost ls = crate::lsof::toks_of(lines@);
    let mut i: usize = 0;
    proof {
        assert(ls.skip(0int) =~= ls);
    }
    while i < lines.len()
        invariant
            i <= lines@.len(),
            ls == crate::lsof::toks_of(lines@),
            ls.len() == lines@.len(),
            find_owner(lines_from(output@, 0), port) == find_owner(ls.skip(i as int), port),
            cs@ == output@,
            ls == lines_from(output@, 0),
        decreases lines@.len() - i,
    {
        if let Some(pid) = parse_line_owner(&lines[i], port) {
            proof {
                assert(ls.skip(i as int)[0] == ls[i as int]);
                assert(ls[i as int] == lines@[i as int]@);
                assert(find_owner(ls.skip(i as int), port) == Some(pid));
            }
            if pid == item_pid {
                return Ok(PortOwner::SelfListener);
            } else {
                return Ok(PortOwner::OtherProcess { pid });
            }
        }
        proof {
            assert(ls.skip(i as int)[0] == lines@[i as int]@);
            assert(ls.skip(i as int).drop_first() =~= ls.skip(i + 1 as int));
            assert(find_owner(ls.skip(i as int), port) == find_owner(ls.skip(i + 1 as int), port));
        }
        i = i + 1;
    }
    proof {
        assert(ls.skip(i as int) =~= Seq::<Seq<char>>::empty());
    }
    let mut msg: Vec<char> = Vec::new();
    crate::codec::push_lit(&mut msg, "No processes found listening on port ");
    append_u64(&mut msg, port as u64);
    Err(string_from_chars(&msg))
}

/// The pids that claim to listen on `port`, one per claiming line, top to
/// bottom.
pub open spec fn claims_of(ls: Seq<Seq<char>>, port: u16) -> Seq<u32>
    decreases ls.len(),
{
    if ls.len() == 0 {
        Seq::empty()
    } else {
        (match line_owner(ls[0], port) {
            Some(pid) => seq![pid],
            None => Seq::empty(),
        }) + claims_of(ls.drop_first(), port)
    }
}

/// The first claim, when there is one, is what [`find_owner`] reports.
pub proof fn lemma_find_owner_first(ls: Seq<Seq<char>>, port: u16)
    ensures
        find_owner(ls, port) == (if claims_of(ls, port).len() == 0 {
            None
        } else {
            Some(claims_of(ls, port)[0])
        }),
    decreases ls.len(),
{
    if ls.len() > 0 {
        lemma_find_owner_first(ls.drop_first(), port);
    }
}

/// Every pid that claims to listen on `port`, in line order, so a caller
/// can resolve each claimant in turn and fall back to the next when one
/// cannot be identified.
pub fn listener_claims(output: &str, port: u16) -> (r: Vec<u32>)
    ensures
        r@ == claims_of(lines_from(output@, 0), port),
{
    let cs = chars_vec(output);
    let lines = crate::lsof::split_lines(&cs);
    let ghost ls = crate::lsof::toks_of(lines@);
    let mut out: Vec<u32> = Vec::new();
    let mut i: usize = 0;
    proof {
        assert(out@ + claims_of(ls.skip(0int), port) =~= claims_of(ls, port)) by {
            assert(ls.skip(0int) =~= ls);
        }
    }
    while i < lines.len()
        invariant
            i <= lines@.len(),
            ls == crate::lsof::toks_of(lines@),
            ls.len() == lines@.len(),
            ls == lines_from(output@, 0),
            claims_of(ls, port) == out@ + claims_of(ls.skip(i as int), port),
        decreases lines@.len() - i,
    {
        let ghost out0 = out@;
        proof {
            assert(ls.skip(i as int)[0] == lines@[i as int]@);
            assert(ls.skip(i as int).drop_first() =~= ls.skip(i + 1 as int));
        }
        if let Some(pid) = parse_line_owner(&lines[i], port) {
            out.push(pid);
            proof {
                assert(out0 + (seq![pid] + claims_of(ls.skip(i + 1 as int), port)) =~= out@
                    + claims_of(ls.skip(i + 1 as int), port));
            }
        } else {
            proof {
                assert(out0 + (Seq::<u32>::empty() + claims_of(ls.skip(i + 1 as int), port))
                    =~= out@ + claims_of(ls.skip(i + 1 as int), port));
            }
        }
        i = i + 1;
    }
    proof {
        assert(ls.skip(i as int) =~= Seq::<Seq<char>>::empty());
        assert(out@ + Seq::<u32>::empty() =~= out@);
    }
    out
}

/// Turns an owner lookup and the resolved identity of the other process
/// into the response handed to callers: the hosting indication carries no
/// peer data; another process's identity is reported as using the port.
/// `None` when the other process's identity could not be resolved.
pub fn owner_response(owner: PortOwner, info: Option<ProcessInfo>) -> (r: Option<
    ProcessInfoResponse,
>)
    ensures
        match owner {
            PortOwner::SelfListener => r == Some(
                ProcessInfoResponse {
                    port_state: ProcessPortState::Hosting,
                    data: None::<ProcessInfo>,
                },
            ),
            PortOwner::OtherProcess { pid } => match info {
                Some(inf) => r == Some(
                    ProcessInfoResponse {
                        port_state: ProcessPortState::Using,
                        data: Some(inf),
                    },
                ),
                None => r is None,
            },
        },
{
    match owner {
        PortOwner::SelfListener => Some(
            ProcessInfoResponse { port_state: ProcessPortState::Hosting, data: None },
        ),
        PortOwner::OtherProcess { pid: _ } => match info {
            Some(inf) => Some(
                ProcessInfoResponse { port_state: ProcessPortState::Using, data: Some(inf) },
            ),
            None => None,
        },
    }
}

/// The monitoring settings: whether the background poller runs, and the
/// seconds between its passes.
#[derive(Debug, Clone, Copy, PartialEq, Eq, Structural)]
pub struct MonitorState {
    pub is_monitoring: bool,
    pub interval_secs: u64,
}

impl Default for MonitorState {
    /// Monitoring starts off, polling every two seconds once started.
    fn default() -> (r: Self)
        ensures
            r == (MonitorState { is_monitoring: false, interval_secs: 2u64 }),
    {
        MonitorState { is_monitoring: false, interval_secs: 2 }
    }
}

impl MonitorState {
    /// Turns monitoring on: an error exactly when it is already running,
    /// and then nothing changes.
    pub fn start_monitoring(&mut self) -> (r: Result<(), String>)
        ensures
            r is Ok <==> !old(self).is_monitoring,
            old(self).is_monitoring ==> *final(self) == *old(self),
            !old(self).is_monitoring ==> *final(self) == (MonitorState {
                is_monitoring: true,
                interval_secs: old(self).interval_secs,
            }),
            r matches Err(e) ==> e@ == "Monitoring is already running"@,
    {
        if self.is_monitoring {
            return Err(String::from_str("Monitoring is already running"));
        }
        self.is_monitoring = true;
        Ok(())
    }

    /// Turns monitoring off: an error exactly when it is not running, and
    /// then nothing changes.
    pub fn stop_monitoring(&mut self) -> (r: Result<(), String>)
        ensures
            r is Ok <==> old(self).is_monitoring,
            !old(self).is_monitoring ==> *final(self) == *old(self),
            old(self).is_monitoring ==> *final(self) == (MonitorState {
                is_monitoring: false,
                interval_secs: old(self).interval_secs,
            }),
            r matches Err(e) ==> e@ == "Monitoring is not running"@,
    {
        if !self.is_monitoring {
            return Err(String::from_str("Monitoring is not running"));
        }
        self.is_monitoring = false;
        Ok(())
    }

    /// Sets the polling interval: accepted exactly for one through sixty
    /// seconds, rejected with an error otherwise, and then nothing
    /// changes.
    pub fn update_interval(&mut self, new_interval: u64) -> (r: Result<(), String>)
        ensures
            r is Ok <==> (1 <= new_interval <= 60),
            (1 <= new_interval <= 60) ==> *final(self) == (MonitorState {
                is_monitoring: old(self).is_monitoring,
                interval_secs: new_interval,
            }),
            !(1 <= new_interval <= 60) ==> *final(self) == *old(self),
            r matches Err(e) ==> e@ == "Interval must be between 1 and 60 seconds"@,
    {
        if new_interval < 1 || new_interval > 60 {
            return Err(String::from_str("Interval must be between 1 and 60 seconds"));
        }
        self.interval_secs = new_interval;
        Ok(())
    }
}

} // verus!
