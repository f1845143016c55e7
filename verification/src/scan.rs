//! The port scanner: planning platform enumeration queries and parsing
//! their text output into snapshots.
//!
//! The enumeration tools themselves are invoked by the embedding program;
//! this module decides how the requested port set is queried (one query for
//! everything, or fixed-size chunks) and turns the tool output into records.
//! Each output line is tokenized by whitespace; lines with fewer than the
//! expected field count, or with a field that fails to parse as the expected
//! integer type, are skipped silently.

use vstd::prelude::*;

use crate::text;
use crate::types::{ProcessInfo, ProcessModel, Snapshot};

verus! {

/// How many ports one chunked enumeration query may name.
pub const MAX_PORTS_PER_QUERY: usize = 100;

/// Above this many requested ports, one query lists everything and the
/// results are filtered afterwards.
pub const LARGE_RANGE_THRESHOLD: usize = 200;

/// How a requested port set is to be enumerated.
#[derive(Debug)]
pub enum ScanPlan {
    /// The request was empty: answer with an empty snapshot, without
    /// invoking the platform tool.
    NoScan,
    /// The request was large: issue one query for all listening ports and
    /// filter the results against the request.
    QueryAll,
    /// The request was small: issue one query per chunk of ports.
    Chunked(Vec<Vec<u16>>),
}

/// The requested ports cut into chunks of at most `MAX_PORTS_PER_QUERY`,
/// in order.
pub open spec fn spec_chunks(s: Seq<u16>) -> Seq<Seq<u16>>
    decreases s.len(),
{
    if s.len() == 0 {
        seq![]
    } else if s.len() <= MAX_PORTS_PER_QUERY {
        seq![s]
    } else {
        seq![s.take(MAX_PORTS_PER_QUERY as int)] + spec_chunks(s.skip(MAX_PORTS_PER_QUERY as int))
    }
}

/// Decides how a requested port set is enumerated: not at all when empty,
/// with one unfiltered query when large, in fixed-size chunks otherwise.
pub fn plan_scan(ports: &Vec<u16>) -> (r: ScanPlan)
    ensures
        ports@.len() == 0 ==> r is NoScan,
        ports@.len() > LARGE_RANGE_THRESHOLD ==> r is QueryAll,
        0 < ports@.len() <= LARGE_RANGE_THRESHOLD ==> r is Chunked && r->Chunked_0.deep_view()
            == spec_chunks(ports@),
{
    if ports.len() == 0 {
        return ScanPlan::NoScan;
    }
    if ports.len() > LARGE_RANGE_THRESHOLD {
        return ScanPlan::QueryAll;
    }
    let mut chunks: Vec<Vec<u16>> = Vec::new();
    let mut i: usize = 0;
    proof {
        assert(ports@.skip(0) =~= ports@);
        assert(chunks.deep_view() + spec_chunks(ports@) =~~= spec_chunks(ports@));
    }
    while i < ports.len()
        invariant
            0 <= i <= ports@.len(),
            spec_chunks(ports@) == chunks.deep_view() + spec_chunks(ports@.skip(i as int)),
        decreases ports.len() - i,
    {
        let end: usize = if ports.len() - i > MAX_PORTS_PER_QUERY {
            i + MAX_PORTS_PER_QUERY
        } else {
            ports.len()
        };
        let mut chunk: Vec<u16> = Vec::new();
        let mut j: usize = i;
        while j < end
            invariant
                i <= j <= end,
                end <= ports@.len(),
                chunk@ =~= ports@.subrange(i as int, j as int),
            decreases end - j,
        {
            chunk.push(ports[j]);
            j = j + 1;
        }
        proof {
            let rest = ports@.skip(i as int);
            if rest.len() <= MAX_PORTS_PER_QUERY {
                assert(chunk@ =~= rest);
                assert(spec_chunks(rest) == seq![rest]);
                assert(ports@.skip(end as int) =~= Seq::<u16>::empty());
                assert(spec_chunks(ports@.skip(end as int)) == Seq::<Seq<u16>>::empty());
            } else {
                assert(chunk@ =~= rest.take(MAX_PORTS_PER_QUERY as int));
                assert(ports@.skip(end as int) =~= rest.skip(MAX_PORTS_PER_QUERY as int));
            }
            assert(spec_chunks(rest) == seq![chunk@] + spec_chunks(ports@.skip(end as int)));
        }
        let ghost pre = chunks.deep_view();
        let ghost chunk_view = chunk@;
        chunks.push(chunk);
        proof {
            assert(chunks.deep_view() =~~= pre.push(chunk_view));
            assert(pre + (seq![chunk_view] + spec_chunks(ports@.skip(end as int)))
                =~= pre.push(chunk_view) + spec_chunks(ports@.skip(end as int)));
        }
        i = end;
    }
    assert(spec_chunks(ports@.skip(i as int)) =~= Seq::<Seq<u16>>::empty());
    assert(chunks.deep_view() =~~= chunks.deep_view() + Seq::<Seq<u16>>::empty());
    ScanPlan::Chunked(chunks)
}

/// Whether `v` holds `x`.
pub fn vec_contains_u16(v: &Vec<u16>, x: u16) -> (r: bool)
    ensures
        r == v@.contains(x),
{
    let mut i: usize = 0;
    while i < v.len()
        invariant
            0 <= i <= v.len(),
            forall|k: int| 0 <= k < i ==> v@[k] != x,
        decreases v.len() - i,
    {
        if v[i] == x {
            return true;
        }
        i = i + 1;
    }
    false
}

/// Whether `v` holds `x`.
pub fn vec_contains_i32(v: &Vec<i32>, x: i32) -> (r: bool)
    ensures
        r == v@.contains(x),
{
    let mut i: usize = 0;
    while i < v.len()
        invariant
            0 <= i <= v.len(),
            forall|k: int| 0 <= k < i ==> v@[k] != x,
        decreases v.len() - i,
    {
        if v[i] == x {
            return true;
        }
        i = i + 1;
    }
    false
}

/// The pid, port and process name read from one line of the Unix listing
/// tool: name in the first field, pid in the second, port after the last
/// `':'` of the ninth. A line with fewer fields, or whose pid or port does
/// not parse, yields nothing.
pub open spec fn lsof_line_entry(line: Seq<char>) -> Option<(i32, u16, Seq<char>)> {
    let fs = text::spec_fields(line);
    if fs.len() < 9 {
        None
    } else {
        match text::parse_i32_spec(fs[1]) {
            Some(pid) => match text::parse_u16_spec(text::after_last(fs[8], ':')) {
                Some(port) => Some((pid, port, fs[0])),
                None => None,
            },
            None => None,
        }
    }
}

/// Whether an enumerated process passes the request and ignore filters: its
/// port is requested (an empty request admits every port), its port is not
/// ignored, and its name is not ignored.
pub open spec fn entry_accepted(
    port: u16,
    name: Seq<char>,
    requested: Seq<u16>,
    ignore_ports: Seq<u16>,
    ignore_names: Seq<Seq<char>>,
) -> bool {
    (requested.len() == 0 || requested.contains(port)) && !ignore_ports.contains(port)
        && !ignore_names.contains(name)
}

/// The model of the record built for an enumerated process: name and
/// command from the listed name, the group derived from it, and no further
/// context.
pub open spec fn scanned_record(pid: i32, port: u16, name: Seq<char>) -> ProcessModel {
    ProcessModel {
        pid: pid,
        port: port,
        command: name,
        name: name,
        container_id: None,
        container_name: None,
        command_line: None,
        working_directory: None,
        process_group: crate::types::spec_process_group(
            text::lower_of(name),
            text::lower_of(name),
        ),
        project_name: None,
        cpu_usage: None,
        memory_usage: None,
        memory_percentage: None,
    }
}

/// One step of the Unix parse: the snapshot after reading `line`, with the
/// first record per port winning.
pub open spec fn lsof_step(
    snap: Seq<ProcessModel>,
    line: Seq<char>,
    requested: Seq<u16>,
    ignore_ports: Seq<u16>,
    ignore_names: Seq<Seq<char>>,
) -> Seq<ProcessModel> {
    match lsof_line_entry(line) {
        Some((pid, port, name)) => if entry_accepted(
            port,
            name,
            requested,
            ignore_ports,
            ignore_names,
        ) && !crate::types::models_have_port(snap, port) {
            snap.push(scanned_record(pid, port, name))
        } else {
            snap
        },
        None => snap,
    }
}

/// The snapshot models after reading the lines from index `i` on.
pub open spec fn lsof_fold(
    snap: Seq<ProcessModel>,
    lines: Seq<Seq<char>>,
    i: int,
    requested: Seq<u16>,
    ignore_ports: Seq<u16>,
    ignore_names: Seq<Seq<char>>,
) -> Seq<ProcessModel>
    decreases lines.len() - i,
{
    if i < 0 || i >= lines.len() {
        snap
    } else {
        lsof_fold(
            lsof_step(snap, lines[i], requested, ignore_ports, ignore_names),
            lines,
            i + 1,
            requested,
            ignore_ports,
            ignore_names,
        )
    }
}

proof fn lemma_models_have_port(s: Seq<ProcessInfo>, p: u16)
    ensures
        crate::types::models_have_port(crate::types::models_of(s), p) == crate::types::seq_has_port(
            s,
            p,
        ),
{
    let m = crate::types::models_of(s);
    if crate::types::seq_has_port(s, p) {
        let k = choose|k: int| 0 <= k < s.len() && s[k].port == p;
        assert(m[k].port == p);
    }
    if crate::types::models_have_port(m, p) {
        let k = choose|k: int| 0 <= k < m.len() && m[k].port == p;
        assert(s[k].port == p);
    }
}

/// Reads one listing line into the snapshot: tokenize, parse pid and port,
/// filter, and keep the first record per port. Lines that do not fit the
/// expected shape are skipped silently.
fn consume_lsof_line(
    line: &str,
    requested: &Vec<u16>,
    ignore_ports: &Vec<u16>,
    ignore_names: &Vec<String>,
    processes: &mut Snapshot,
)
    requires
        old(processes).wf(),
    ensures
        final(processes).wf(),
        crate::types::models_of(final(processes)@) == lsof_step(
            crate::types::models_of(old(processes)@),
            line@,
            requested@,
            ignore_ports@,
            ignore_names.deep_view(),
        ),
{
    let ghost pre = crate::types::models_of(processes@);
    let fields = text::split_fields(line);
    if fields.len() < 9 {
        return ;
    }
    proof {
        assert(fields.deep_view()[1] == fields@[1]@);
        assert(fields.deep_view()[8] == fields@[8]@);
        assert(fields.deep_view()[0] == fields@[0]@);
    }
    let pid = match text::parse_i32(fields[1].as_str()) {
        Some(pid) => pid,
        None => {
            return ;
        },
    };
    let port_str = text::suffix_after_last(fields[8].as_str(), ':');
    let port = match text::parse_u16(port_str.as_str()) {
        Some(port) => port,
        None => {
            return ;
        },
    };
    if requested.len() > 0 && !vec_contains_u16(requested, port) {
        return ;
    }
    if vec_contains_u16(ignore_ports, port) {
        return ;
    }
    if text::vec_contains_str(ignore_names, fields[0].as_str()) {
        return ;
    }
    if processes.contains_port(port) {
        proof {
            lemma_models_have_port(processes@, port);
        }
        return ;
    }
    let name = fields[0].clone();
    let mut rec = ProcessInfo {
        pid: pid,
        port: port,
        command: name.clone(),
        name: name,
        container_id: None,
        container_name: None,
        command_line: None,
        working_directory: None,
        process_group: None,
        project_name: None,
        cpu_usage: None,
        memory_usage: None,
        memory_percentage: None,
    };
    rec.process_group = rec.determine_process_group();
    rec.project_name = rec.extract_project_name();
    proof {
        lemma_models_have_port(processes@, port);
        assert(rec.model() == scanned_record(pid, port, fields@[0]@));
    }
    processes.insert_first(rec);
    proof {
        assert(crate::types::models_of(processes@) =~= pre.push(
            scanned_record(pid, port, fields@[0]@),
        ));
    }
}

/// Parses the Unix listing tool's output into the snapshot, skipping the
/// header line: each later line contributes one record when it carries at
/// least nine fields, its pid and port parse, and the filters admit it; the
/// first record observed for a port wins.
pub fn parse_lsof_output_filtered(
    stdout: &str,
    ports_filter: &Vec<u16>,
    ignore_ports: &Vec<u16>,
    ignore_processes: &Vec<String>,
    processes: &mut Snapshot,
)
    requires
        old(processes).wf(),
    ensures
        final(processes).wf(),
        crate::types::models_of(final(processes)@) == lsof_fold(
            crate::types::models_of(old(processes)@),
            text::spec_lines(stdout@),
            1,
            ports_filter@,
            ignore_ports@,
            ignore_processes.deep_view(),
        ),
{
    let ghost init = crate::types::models_of(processes@);
    let ghost lines_view = text::spec_lines(stdout@);
    let lines = text::split_lines(stdout);
    let mut i: usize = 1;
    while i < lines.len()
        invariant
            1 <= i <= lines@.len() || (lines@.len() == 0 && i == 1),
            processes.wf(),
            lines.deep_view() == lines_view,
            lsof_fold(init, lines_view, 1, ports_filter@, ignore_ports@,
                ignore_processes.deep_view(),
            ) == lsof_fold(
                crate::types::models_of(processes@),
                lines_view,
                i as int,
                ports_filter@,
                ignore_ports@,
                ignore_processes.deep_view(),
            ),
        decreases lines.len() - i,
    {
        proof {
            assert(lines.deep_view()[i as int] == lines@[i as int]@);
        }
        consume_lsof_line(
            lines[i].as_str(),
            ports_filter,
            ignore_ports,
            ignore_processes,
            processes,
        );
        i = i + 1;
    }
}

/// One resolved pid-to-name binding, as the platform name lookup reports
/// it.
#[derive(Debug)]
pub struct PidName {
    pub pid: i32,
    pub name: String,
}

impl Clone for PidName {
    fn clone(&self) -> (r: Self)
        ensures
            r == *self,
    {
        PidName { pid: self.pid, name: self.name.clone() }
    }
}

/// The name resolved for `pid`: the first binding that matches, or
/// `Unknown` where none does.
pub open spec fn name_for(table: Seq<PidName>, pid: i32) -> Seq<char>
    decreases table.len(),
{
    if table.len() == 0 {
        "Unknown"@
    } else if table[0].pid == pid {
        table[0].name@
    } else {
        name_for(table.skip(1), pid)
    }
}

/// Looks a pid up in a resolved-name table.
pub fn lookup_name(table: &Vec<PidName>, pid: i32) -> (r: String)
    ensures
        r@ == name_for(table@, pid),
{
    let mut i: usize = 0;
    proof {
        assert(table@.skip(0) =~= table@);
    }
    while i < table.len()
        invariant
            0 <= i <= table@.len(),
            name_for(table@, pid) == name_for(table@.skip(i as int), pid),
        decreases table.len() - i,
    {
        proof {
            assert(table@.skip(i as int)[0] == table@[i as int]);
            assert(table@.skip(i as int).skip(1) =~= table@.skip(i + 1));
        }
        if table[i].pid == pid {
            return table[i].name.clone();
        }
        i = i + 1;
    }
    proof {
        assert(table@.skip(i as int) =~= Seq::<PidName>::empty());
    }
    "Unknown".to_owned()
}

/// The port and pid read from one line of the Windows listing tool: only
/// lines mentioning `LISTENING` count, the port comes after the last `':'`
/// of the second field, the pid from the fifth.
pub open spec fn netstat_line_entry(line: Seq<char>) -> Option<(u16, i32)> {
    if !text::contains_seq(line, "LISTENING"@) {
        None
    } else {
        let fs = text::spec_fields(line);
        if fs.len() < 5 {
            None
        } else {
            match text::parse_u16_spec(text::after_last(fs[1], ':')) {
                Some(port) => match text::parse_i32_spec(fs[4]) {
                    Some(pid) => Some((port, pid)),
                    None => None,
                },
                None => None,
            }
        }
    }
}

/// One step of the Windows parse: the snapshot after reading `line`, the
/// process name taken from the resolved-name table.
pub open spec fn netstat_step(
    snap: Seq<ProcessModel>,
    line: Seq<char>,
    requested: Seq<u16>,
    ignore_ports: Seq<u16>,
    ignore_names: Seq<Seq<char>>,
    names: Seq<PidName>,
) -> Seq<ProcessModel> {
    match netstat_line_entry(line) {
        Some((port, pid)) => {
            let name = name_for(names, pid);
            if entry_accepted(port, name, requested, ignore_ports, ignore_names)
                && !crate::types::models_have_port(snap, port) {
                snap.push(scanned_record(pid, port, name))
            } else {
                snap
            }
        },
        None => snap,
    }
}

/// The snapshot models after reading the Windows listing lines from index
/// `i` on.
pub open spec fn netstat_fold(
    snap: Seq<ProcessModel>,
    lines: Seq<Seq<char>>,
    i: int,
    requested: Seq<u16>,
    ignore_ports: Seq<u16>,
    ignore_names: Seq<Seq<char>>,
    names: Seq<PidName>,
) -> Seq<ProcessModel>
    decreases lines.len() - i,
{
    if i < 0 || i >= lines.len() {
        snap
    } else {
        netstat_fold(
            netstat_step(snap, lines[i], requested, ignore_ports, ignore_names, names),
            lines,
            i + 1,
            requested,
            ignore_ports,
            ignore_names,
            names,
        )
    }
}

fn consume_netstat_line(
    line: &str,
    requested: &Vec<u16>,
    ignore_ports: &Vec<u16>,
    ignore_names: &Vec<String>,
    names: &Vec<PidName>,
    processes: &mut Snapshot,
)
    requires
        old(processes).wf(),
    ensures
        final(processes).wf(),
        crate::types::models_of(final(processes)@) == netstat_step(
            crate::types::models_of(old(processes)@),
            line@,
            requested@,
            ignore_ports@,
            ignore_names.deep_view(),
            names@,
        ),
{
    let ghost pre = crate::types::models_of(processes@);
    if !text::contains(line, "LISTENING") {
        return ;
    }
    let fields = text::split_fields(line);
    if fields.len() < 5 {
        return ;
    }
    proof {
        assert(fields.deep_view()[1] == fields@[1]@);
        assert(fields.deep_view()[4] == fields@[4]@);
    }
    let port_str = text::suffix_after_last(fields[1].as_str(), ':');
    let port = match text::parse_u16(port_str.as_str()) {
        Some(port) => port,
        None => {
            return ;
        },
    };
    let pid = match text::parse_i32(fields[4].as_str()) {
        Some(pid) => pid,
        None => {
            return ;
        },
    };
    let name = lookup_name(names, pid);
    if requested.len() > 0 && !vec_contains_u16(requested, port) {
        return ;
    }
    if vec_contains_u16(ignore_ports, port) {
        return ;
    }
    if text::vec_contains_str(ignore_names, name.as_str()) {
        return ;
    }
    if processes.contains_port(port) {
        proof {
            lemma_models_have_port(processes@, port);
        }
        return ;
    }
    let mut rec = ProcessInfo {
        pid: pid,
        port: port,
        command: name.clone(),
        name: name,
        container_id: None,
        container_name: None,
        command_line: None,
        working_directory: None,
        process_group: None,
        project_name: None,
        cpu_usage: None,
        memory_usage: None,
        memory_percentage: None,
    };
    rec.process_group = rec.determine_process_group();
    rec.project_name = rec.extract_project_name();
    proof {
        lemma_models_have_port(processes@, port);
        assert(rec.model() == scanned_record(pid, port, name_for(names@, pid)));
    }
    processes.insert_first(rec);
    proof {
        assert(crate::types::models_of(processes@) =~= pre.push(
            scanned_record(pid, port, name_for(names@, pid)),
        ));
    }
}

/// Parses the Windows listing tool's output into the snapshot: each
/// `LISTENING` line contributes one record when it carries at least five
/// fields, its port and pid parse, and the filters admit the port and the
/// resolved name; the first record observed for a port wins.
pub fn parse_netstat_output(
    stdout: &str,
    ports_filter: &Vec<u16>,
    ignore_ports: &Vec<u16>,
    ignore_processes: &Vec<String>,
    names: &Vec<PidName>,
    processes: &mut Snapshot,
)
    requires
        old(processes).wf(),
    ensures
        final(processes).wf(),
        crate::types::models_of(final(processes)@) == netstat_fold(
            crate::types::models_of(old(processes)@),
            text::spec_lines(stdout@),
            0,
            ports_filter@,
            ignore_ports@,
            ignore_processes.deep_view(),
            names@,
        ),
{
    let ghost init = crate::types::models_of(processes@);
    let ghost lines_view = text::spec_lines(stdout@);
    let lines = text::split_lines(stdout);
    let mut i: usize = 0;
    while i < lines.len()
        invariant
            0 <= i <= lines@.len(),
            processes.wf(),
            lines.deep_view() == lines_view,
            netstat_fold(init, lines_view, 0, ports_filter@, ignore_ports@,
                ignore_processes.deep_view(), names@,
            ) == netstat_fold(
                crate::types::models_of(processes@),
                lines_view,
                i as int,
                ports_filter@,
                ignore_ports@,
                ignore_processes.deep_view(),
                names@,
            ),
        decreases lines.len() - i,
    {
        proof {
            assert(lines.deep_view()[i as int] == lines@[i as int]@);
        }
        consume_netstat_line(
            lines[i].as_str(),
            ports_filter,
            ignore_ports,
            ignore_processes,
            names,
            processes,
        );
        i = i + 1;
    }
}

/// The pids the Windows listing mentions on `LISTENING` lines, in line
/// order, before any filtering: the pids whose names the embedding program
/// must resolve.
pub open spec fn netstat_pids_from(lines: Seq<Seq<char>>, i: int) -> Seq<i32>
    decreases lines.len() - i,
{
    if i < 0 || i >= lines.len() {
        seq![]
    } else {
        (match netstat_line_entry(lines[i]) {
            Some((port, pid)) => seq![pid],
            None => seq![],
        }) + netstat_pids_from(lines, i + 1)
    }
}

/// Lists every pid the Windows listing mentions, in line order.
pub fn netstat_candidate_pids(stdout: &str) -> (r: Vec<i32>)
    ensures
        r@ == netstat_pids_from(text::spec_lines(stdout@), 0),
{
    let ghost lines_view = text::spec_lines(stdout@);
    let lines = text::split_lines(stdout);
    let mut out: Vec<i32> = Vec::new();
    let mut i: usize = 0;
    while i < lines.len()
        invariant
            0 <= i <= lines@.len(),
            lines.deep_view() == lines_view,
            netstat_pids_from(lines_view, 0) == out@ + netstat_pids_from(lines_view, i as int),
        decreases lines.len() - i,
    {
        proof {
            assert(lines.deep_view()[i as int] == lines@[i as int]@);
        }
        let line = lines[i].as_str();
        if text::contains(line, "LISTENING") {
            let fields = text::split_fields(line);
            if fields.len() >= 5 {
                proof {
                    assert(fields.deep_view()[1] == fields@[1]@);
                    assert(fields.deep_view()[4] == fields@[4]@);
                }
                let port_str = text::suffix_after_last(fields[1].as_str(), ':');
                if let Some(_port) = text::parse_u16(port_str.as_str()) {
                    if let Some(pid) = text::parse_i32(fields[4].as_str()) {
                        out.push(pid);
                    }
                }
            }
        }
        proof {
            assert(out@ + netstat_pids_from(lines_view, i + 1) =~= netstat_pids_from(
                lines_view,
                0,
            ));
        }
        i = i + 1;
    }
    proof {
        assert(netstat_pids_from(lines_view, i as int) =~= Seq::<i32>::empty());
        assert(out@ =~= out@ + Seq::<i32>::empty());
    }
    out
}

/// One step of pid extraction from a Unix listing line: an accepted entry
/// adds its pid once.
pub open spec fn lsof_pid_step(
    pids: Seq<i32>,
    line: Seq<char>,
    requested: Seq<u16>,
    ignore_ports: Seq<u16>,
    ignore_names: Seq<Seq<char>>,
) -> Seq<i32> {
    match lsof_line_entry(line) {
        Some((pid, port, name)) => if entry_accepted(
            port,
            name,
            requested,
            ignore_ports,
            ignore_names,
        ) && !pids.contains(pid) {
            pids.push(pid)
        } else {
            pids
        },
        None => pids,
    }
}

/// The pids to kill after reading the Unix listing lines from `i` on.
pub open spec fn lsof_pid_fold(
    pids: Seq<i32>,
    lines: Seq<Seq<char>>,
    i: int,
    requested: Seq<u16>,
    ignore_ports: Seq<u16>,
    ignore_names: Seq<Seq<char>>,
) -> Seq<i32>
    decreases lines.len() - i,
{
    if i < 0 || i >= lines.len() {
        pids
    } else {
        lsof_pid_fold(
            lsof_pid_step(pids, lines[i], requested, ignore_ports, ignore_names),
            lines,
            i + 1,
            requested,
            ignore_ports,
            ignore_names,
        )
    }
}

fn extract_lsof_pid_line(
    line: &str,
    requested: &Vec<u16>,
    ignore_ports: &Vec<u16>,
    ignore_names: &Vec<String>,
    pids_to_kill: &mut Vec<i32>,
)
    ensures
        final(pids_to_kill)@ == lsof_pid_step(
            old(pids_to_kill)@,
            line@,
            requested@,
            ignore_ports@,
            ignore_names.deep_view(),
        ),
{
    let fields = text::split_fields(line);
    if fields.len() < 9 {
        return ;
    }
    proof {
        assert(fields.deep_view()[1] == fields@[1]@);
        assert(fields.deep_view()[8] == fields@[8]@);
        assert(fields.deep_view()[0] == fields@[0]@);
    }
    let pid = match text::parse_i32(fields[1].as_str()) {
        Some(pid) => pid,
        None => {
            return ;
        },
    };
    let port_str = text::suffix_after_last(fields[8].as_str(), ':');
    let port = match text::parse_u16(port_str.as_str()) {
        Some(port) => port,
        None => {
            return ;
        },
    };
    if requested.len() > 0 && !vec_contains_u16(requested, port) {
        return ;
    }
    if vec_contains_u16(ignore_ports, port) {
        return ;
    }
    if text::vec_contains_str(ignore_names, fields[0].as_str()) {
        return ;
    }
    if !vec_contains_i32(pids_to_kill, pid) {
        pids_to_kill.push(pid);
    }
}

/// Collects the pids to kill from the Unix listing tool's output, skipping
/// the header line: each accepted entry contributes its pid once, in first
/// appearance order.
pub fn extract_pids_from_lsof_output(
    stdout: &str,
    ports_filter: &Vec<u16>,
    ignore_ports: &Vec<u16>,
    ignore_processes: &Vec<String>,
    pids_to_kill: &mut Vec<i32>,
)
    ensures
        final(pids_to_kill)@ == lsof_pid_fold(
            old(pids_to_kill)@,
            text::spec_lines(stdout@),
            1,
            ports_filter@,
            ignore_ports@,
            ignore_processes.deep_view(),
        ),
{
    let ghost init = pids_to_kill@;
    let ghost lines_view = text::spec_lines(stdout@);
    let lines = text::split_lines(stdout);
    let mut i: usize = 1;
    while i < lines.len()
        invariant
            1 <= i <= lines@.len() || (lines@.len() == 0 && i == 1),
            lines.deep_view() == lines_view,
            lsof_pid_fold(init, lines_view, 1, ports_filter@, ignore_ports@,
                ignore_processes.deep_view(),
            ) == lsof_pid_fold(
                pids_to_kill@,
                lines_view,
                i as int,
                ports_filter@,
                ignore_ports@,
                ignore_processes.deep_view(),
            ),
        decreases lines.len() - i,
    {
        proof {
            assert(lines.deep_view()[i as int] == lines@[i as int]@);
        }
        extract_lsof_pid_line(
            lines[i].as_str(),
            ports_filter,
            ignore_ports,
            ignore_processes,
            pids_to_kill,
        );
        i = i + 1;
    }
}

/// One step of pid extraction from a Windows listing line.
pub open spec fn netstat_pid_step(
    pids: Seq<i32>,
    line: Seq<char>,
    requested: Seq<u16>,
    ignore_ports: Seq<u16>,
    ignore_names: Seq<Seq<char>>,
    names: Seq<PidName>,
) -> Seq<i32> {
    match netstat_line_entry(line) {
        Some((port, pid)) => if entry_accepted(
            port,
            name_for(names, pid),
            requested,
            ignore_ports,
            ignore_names,
        ) && !pids.contains(pid) {
            pids.push(pid)
        } else {
            pids
        },
        None => pids,
    }
}

/// The pids to kill after reading the Windows listing lines from `i` on.
pub open spec fn netstat_pid_fold(
    pids: Seq<i32>,
    lines: Seq<Seq<char>>,
    i: int,
    requested: Seq<u16>,
    ignore_ports: Seq<u16>,
    ignore_names: Seq<Seq<char>>,
    names: Seq<PidName>,
) -> Seq<i32>
    decreases lines.len() - i,
{
    if i < 0 || i >= lines.len() {
        pids
    } else {
        netstat_pid_fold(
            netstat_pid_step(pids, lines[i], requested, ignore_ports, ignore_names, names),
            lines,
            i + 1,
            requested,
            ignore_ports,
            ignore_names,
            names,
        )
    }
}

fn extract_netstat_pid_line(
    line: &str,
    requested: &Vec<u16>,
    ignore_ports: &Vec<u16>,
    ignore_names: &Vec<String>,
    names: &Vec<PidName>,
    pids_to_kill: &mut Vec<i32>,
)
    ensures
        final(pids_to_kill)@ == netstat_pid_step(
            old(pids_to_kill)@,
            line@,
            requested@,
            ignore_ports@,
            ignore_names.deep_view(),
            names@,
        ),
{
    if !text::contains(line, "LISTENING") {
        return ;
    }
    let fields = text::split_fields(line);
    if fields.len() < 5 {
        return ;
    }
    proof {
        assert(fields.deep_view()[1] == fields@[1]@);
        assert(fields.deep_view()[4] == fields@[4]@);
    }
    let port_str = text::suffix_after_last(fields[1].as_str(), ':');
    let port = match text::parse_u16(port_str.as_str()) {
        Some(port) => port,
        None => {
            return ;
        },
    };
    let pid = match text::parse_i32(fields[4].as_str()) {
        Some(pid) => pid,
        None => {
            return ;
        },
    };
    let name = lookup_name(names, pid);
    if requested.len() > 0 && !vec_contains_u16(requested, port) {
        return ;
    }
    if vec_contains_u16(ignore_ports, port) {
        return ;
    }
    if text::vec_contains_str(ignore_names, name.as_str()) {
        return ;
    }
    if !vec_contains_i32(pids_to_kill, pid) {
        pids_to_kill.push(pid);
    }
}

/// Collects the pids to kill from the Windows listing tool's output: each
/// accepted `LISTENING` entry contributes its pid once, in first appearance
/// order.
pub fn extract_pids_from_netstat_output(
    stdout: &str,
    ports_filter: &Vec<u16>,
    ignore_ports: &Vec<u16>,
    ignore_processes: &Vec<String>,
    names: &Vec<PidName>,
    pids_to_kill: &mut Vec<i32>,
)
    ensures
        final(pids_to_kill)@ == netstat_pid_fold(
            old(pids_to_kill)@,
            text::spec_lines(stdout@),
            0,
            ports_filter@,
            ignore_ports@,
            ignore_processes.deep_view(),
            names@,
        ),
{
    let ghost init = pids_to_kill@;
    let ghost lines_view = text::spec_lines(stdout@);
    let lines = text::split_lines(stdout);
    let mut i: usize = 0;
    while i < lines.len()
        invariant
            0 <= i <= lines@.len(),
            lines.deep_view() == lines_view,
            netstat_pid_fold(init, lines_view, 0, ports_filter@, ignore_ports@,
                ignore_processes.deep_view(), names@,
            ) == netstat_pid_fold(
                pids_to_kill@,
                lines_view,
                i as int,
                ports_filter@,
                ignore_ports@,
                ignore_processes.deep_view(),
                names@,
            ),
        decreases lines.len() - i,
    {
        proof {
            assert(lines.deep_view()[i as int] == lines@[i as int]@);
        }
        extract_netstat_pid_line(
            lines[i].as_str(),
            ports_filter,
            ignore_ports,
            ignore_processes,
            names,
            pids_to_kill,
        );
        i = i + 1;
    }
}

/// The process name read from the name lookup tool's output: the first
/// line's text before the first comma, stripped of quotes; nothing when the
/// output has no line.
pub open spec fn spec_tasklist_name(stdout: Seq<char>) -> Option<Seq<char>> {
    let lines = text::spec_lines(stdout);
    if lines.len() == 0 {
        None
    } else {
        let line = lines[0];
        Some(text::strip_matches_spec(line.take(text::char_pos_from(line, ',', 0)), '"'))
    }
}

/// Parses the name lookup tool's output.
pub fn parse_tasklist_name(stdout: &str) -> (r: Option<String>)
    ensures
        r.deep_view() == spec_tasklist_name(stdout@),
{
    let lines = text::split_lines(stdout);
    if lines.len() == 0 {
        return None;
    }
    proof {
        assert(lines.deep_view()[0] == lines@[0]@);
    }
    let line = lines[0].as_str();
    let upto: usize = match text::find_char(line, ',') {
        Some(p) => p,
        None => line.unicode_len(),
    };
    let head = line.substring_char(0, upto).to_owned();
    proof {
        assert(head@ =~= lines@[0]@.take(text::char_pos_from(lines@[0]@, ',', 0)));
    }
    Some(text::strip_matches(head.as_str(), '"'))
}

/// Every record that a scan of requested ports admits is bound to one of
/// the requested ports: starting from records that all satisfy this, the
/// parse fold preserves it, because a non-empty request filters every line.
pub proof fn lemma_scan_ports_requested(
    snap: Seq<ProcessModel>,
    lines: Seq<Seq<char>>,
    i: int,
    requested: Seq<u16>,
    ignore_ports: Seq<u16>,
    ignore_names: Seq<Seq<char>>,
)
    requires
        requested.len() > 0,
        forall|k: int| 0 <= k < snap.len() ==> requested.contains(#[trigger] snap[k].port),
    ensures
        forall|k: int|
            0 <= k < lsof_fold(snap, lines, i, requested, ignore_ports, ignore_names).len()
                ==> requested.contains(
                #[trigger] lsof_fold(snap, lines, i, requested, ignore_ports, ignore_names)[k].port,
            ),
    decreases lines.len() - i,
{
    if 0 <= i < lines.len() {
        let stepped = lsof_step(snap, lines[i], requested, ignore_ports, ignore_names);
        assert(forall|k: int|
            0 <= k < stepped.len() ==> requested.contains(#[trigger] stepped[k].port));
        lemma_scan_ports_requested(stepped, lines, i + 1, requested, ignore_ports, ignore_names);
    }
}

/// The Windows parse keeps the same promise: starting from records whose
/// ports are all requested, every record the fold adds is bound to a
/// requested port.
pub proof fn lemma_netstat_ports_requested(
    snap: Seq<ProcessModel>,
    lines: Seq<Seq<char>>,
    i: int,
    requested: Seq<u16>,
    ignore_ports: Seq<u16>,
    ignore_names: Seq<Seq<char>>,
    names: Seq<PidName>,
)
    requires
        requested.len() > 0,
        forall|k: int| 0 <= k < snap.len() ==> requested.contains(#[trigger] snap[k].port),
    ensures
        forall|k: int|
            0 <= k < netstat_fold(snap, lines, i, requested, ignore_ports, ignore_names,
                names,
            ).len() ==> requested.contains(
                #[trigger] netstat_fold(
                    snap,
                    lines,
                    i,
                    requested,
                    ignore_ports,
                    ignore_names,
                    names,
                )[k].port,
            ),
    decreases lines.len() - i,
{
    if 0 <= i < lines.len() {
        let stepped = netstat_step(snap, lines[i], requested, ignore_ports, ignore_names, names);
        assert(forall|k: int|
            0 <= k < stepped.len() ==> requested.contains(#[trigger] stepped[k].port));
        lemma_netstat_ports_requested(
            stepped,
            lines,
            i + 1,
            requested,
            ignore_ports,
            ignore_names,
            names,
        );
    }
}

} // verus!
