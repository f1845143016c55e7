//! The data model: process records, snapshots, and status summaries.
//!
//! A `ProcessInfo` identifies one process bound to one port. Its derived
//! fields (group and project labels) are computed deterministically from the
//! raw fields and never mutated afterwards. A `Snapshot` is a point-in-time
//! mapping from port to record in which each port appears at most once; when
//! a scan reports duplicates for a port, the first record observed wins.

use vstd::prelude::*;

use crate::text;

verus! {

/// One OS process bound to one port.
///
/// Resource usage is carried as whole percent and byte counts so that the
/// record holds plain values only.
#[derive(Debug, PartialEq)]
pub struct ProcessInfo {
    pub pid: i32,
    pub port: u16,
    pub command: String,
    pub name: String,
    pub container_id: Option<String>,
    pub container_name: Option<String>,
    pub command_line: Option<String>,
    pub working_directory: Option<String>,
    pub process_group: Option<String>,
    pub project_name: Option<String>,
    pub cpu_usage: Option<u64>,
    pub memory_usage: Option<u64>,
    pub memory_percentage: Option<u64>,
}

impl Clone for ProcessInfo {
    fn clone(&self) -> (r: Self)
        ensures
            r == *self,
    {
        ProcessInfo {
            pid: self.pid,
            port: self.port,
            command: self.command.clone(),
            name: self.name.clone(),
            container_id: clone_opt_string(&self.container_id),
            container_name: clone_opt_string(&self.container_name),
            command_line: clone_opt_string(&self.command_line),
            working_directory: clone_opt_string(&self.working_directory),
            process_group: clone_opt_string(&self.process_group),
            project_name: clone_opt_string(&self.project_name),
            cpu_usage: self.cpu_usage,
            memory_usage: self.memory_usage,
            memory_percentage: self.memory_percentage,
        }
    }
}

fn clone_opt_string(s: &Option<String>) -> (r: Option<String>)
    ensures
        r == *s,
{
    match s {
        Some(v) => Some(v.clone()),
        None => None,
    }
}

/// The group label derived from the lowercased name `n` and command `c`:
/// the first matching runtime or toolchain, in a fixed order.
pub open spec fn spec_process_group(n: Seq<char>, c: Seq<char>) -> Option<Seq<char>> {
    if text::contains_seq(n, "node"@) || text::contains_seq(c, "node"@) {
        Some("Node.js"@)
    } else if text::contains_seq(n, "python"@) || text::contains_seq(c, "python"@) {
        Some("Python"@)
    } else if text::contains_seq(n, "java"@) || text::contains_seq(c, "java"@) {
        Some("Java"@)
    } else if n == "go"@ || n == "golang"@ || text::starts_with_seq(c, "go "@)
        || text::contains_seq(c, " go "@) {
        Some("Go"@)
    } else if text::contains_seq(n, "rust"@) || text::contains_seq(c, "cargo"@) {
        Some("Rust"@)
    } else if text::contains_seq(n, "php"@) || text::contains_seq(c, "php"@) {
        Some("PHP"@)
    } else if text::contains_seq(n, "ruby"@) || text::contains_seq(c, "ruby"@) {
        Some("Ruby"@)
    } else if text::contains_seq(n, "docker"@) || text::contains_seq(c, "docker"@) {
        Some("Docker"@)
    } else if text::contains_seq(n, "nginx"@) || text::contains_seq(c, "apache"@) {
        Some("Web Server"@)
    } else if text::contains_seq(n, "postgres"@) || text::contains_seq(n, "mysql"@)
        || text::contains_seq(n, "redis"@) {
        Some("Database"@)
    } else {
        None
    }
}

/// Whether a path component looks like a project directory name.
pub open spec fn is_project_like(p: Seq<char>) -> bool {
    text::contains_seq(p, "project"@) || text::contains_seq(p, "app"@) || text::contains_seq(
        p,
        "service"@,
    ) || text::contains_seq(p, "api"@) || text::contains_seq(p, "frontend"@)
        || text::contains_seq(p, "backend"@) || text::contains_seq(p, "client"@)
        || text::contains_seq(p, "server"@)
}

/// Scans path components from the end for one that looks like a project
/// name, skipping `~`, `home` and `Users`.
pub open spec fn project_scan(comps: Seq<Seq<char>>, i: int) -> Option<Seq<char>>
    decreases i + 1,
{
    if i < 0 || i >= comps.len() {
        None
    } else if comps[i] != "~"@ && comps[i] != "home"@ && comps[i] != "Users"@ && is_project_like(
        comps[i],
    ) {
        Some(comps[i])
    } else {
        project_scan(comps, i - 1)
    }
}

/// The project label derived from a working directory: its last path
/// component, or failing that the nearest component that looks like a
/// project directory.
pub open spec fn spec_project_name(wd: Seq<char>) -> Option<Seq<char>> {
    let comps = text::path_components(wd);
    if comps.len() > 0 && comps.last() != "~"@ {
        Some(comps.last())
    } else {
        project_scan(comps, comps.len() - 1)
    }
}

/// The base of a display name before extension stripping: the text after
/// the last path separator of either family, preferring `'/'`.
pub open spec fn spec_short_base(name: Seq<char>) -> Seq<char> {
    if text::has_char(name, '/') {
        text::after_last(name, '/')
    } else if text::has_char(name, '\\') {
        text::after_last(name, '\\')
    } else {
        name
    }
}

/// The short display name: the final path component with trailing `.exe`,
/// `.dll` and `.so` extensions removed, in that order.
pub open spec fn spec_short_name(name: Seq<char>) -> Seq<char> {
    text::strip_all_suffix(
        text::strip_all_suffix(text::strip_all_suffix(spec_short_base(name), ".exe"@), ".dll"@),
        ".so"@,
    )
}

impl ProcessInfo {
    /// Determines the process group from the command and name; the text is
    /// folded to lower case first.
    pub fn determine_process_group(&self) -> (r: Option<String>)
        ensures
            r.deep_view() == spec_process_group(
                text::lower_of(self.name@),
                text::lower_of(self.command@),
            ),
    {
        let n = text::to_lowercase(self.name.as_str());
        let c = text::to_lowercase(self.command.as_str());
        if text::contains(n.as_str(), "node") || text::contains(c.as_str(), "node") {
            Some("Node.js".to_owned())
        } else if text::contains(n.as_str(), "python") || text::contains(c.as_str(), "python") {
            Some("Python".to_owned())
        } else if text::contains(n.as_str(), "java") || text::contains(c.as_str(), "java") {
            Some("Java".to_owned())
        } else if text::str_eq(n.as_str(), "go") || text::str_eq(n.as_str(), "golang")
            || text::starts_with(c.as_str(), "go ") || text::contains(c.as_str(), " go ") {
            Some("Go".to_owned())
        } else if text::contains(n.as_str(), "rust") || text::contains(c.as_str(), "cargo") {
            Some("Rust".to_owned())
        } else if text::contains(n.as_str(), "php") || text::contains(c.as_str(), "php") {
            Some("PHP".to_owned())
        } else if text::contains(n.as_str(), "ruby") || text::contains(c.as_str(), "ruby") {
            Some("Ruby".to_owned())
        } else if text::contains(n.as_str(), "docker") || text::contains(c.as_str(), "docker") {
            Some("Docker".to_owned())
        } else if text::contains(n.as_str(), "nginx") || text::contains(c.as_str(), "apache") {
            Some("Web Server".to_owned())
        } else if text::contains(n.as_str(), "postgres") || text::contains(n.as_str(), "mysql")
            || text::contains(n.as_str(), "redis") {
            Some("Database".to_owned())
        } else {
            None
        }
    }

    /// Extracts the project name from the working directory, where one is
    /// recorded.
    pub fn extract_project_name(&self) -> (r: Option<String>)
        ensures
            r.deep_view() == (match self.working_directory {
                Some(wd) => spec_project_name(wd@),
                None => None,
            }),
    {
        let wd = match &self.working_directory {
            Some(wd) => wd,
            None => {
                return None;
            },
        };
        let comps = text::split_path_components(wd.as_str());
        if comps.len() > 0 && !text::str_eq(comps[comps.len() - 1].as_str(), "~") {
            let r = comps[comps.len() - 1].clone();
            return Some(r);
        }
        let mut i: usize = comps.len();
        while i > 0
            invariant
                0 <= i <= comps.len(),
                self.working_directory == Some(*wd),
                comps.deep_view() == text::path_components(wd@),
                !(comps.deep_view().len() > 0 && comps.deep_view().last() != "~"@),
                project_scan(comps.deep_view(), comps.deep_view().len() - 1) == project_scan(
                    comps.deep_view(),
                    i - 1,
                ),
            decreases i,
        {
            let p = comps[i - 1].as_str();
            proof {
                assert(comps.deep_view()[i - 1] == comps@[i - 1]@);
            }
            if !text::str_eq(p, "~") && !text::str_eq(p, "home") && !text::str_eq(p, "Users") {
                if text::contains(p, "project") || text::contains(p, "app") || text::contains(
                    p,
                    "service",
                ) || text::contains(p, "api") || text::contains(p, "frontend") || text::contains(
                    p,
                    "backend",
                ) || text::contains(p, "client") || text::contains(p, "server") {
                    let r = comps[i - 1].clone();
                    return Some(r);
                }
            }
            i = i - 1;
        }
        None
    }

    /// The full project path context: the working directory, where one is
    /// recorded.
    pub fn get_project_context(&self) -> (r: Option<String>)
        ensures
            r == self.working_directory,
    {
        clone_opt_string(&self.working_directory)
    }

    /// A human-readable project description: the project name with its path
    /// context, either alone, or a fixed fallback.
    pub fn get_project_description(&self) -> (r: String)
        ensures
            r@ == spec_project_description(*self),
    {
        match (&self.project_name, &self.working_directory) {
            (Some(p), Some(c)) => {
                let mut out = p.clone();
                out.append(" (");
                out.append(c.as_str());
                out.append(")");
                out
            },
            (Some(p), None) => p.clone(),
            (None, Some(c)) => c.clone(),
            (None, None) => "Unknown Project".to_owned(),
        }
    }

    /// A descriptive display name: the process name with project, group and
    /// port context.
    pub fn get_display_name(&self) -> (r: String)
        ensures
            r@ == spec_display_name(*self),
    {
        let mut out = self.name.clone();
        if let Some(p) = &self.project_name {
            out.append(" [");
            out.append(p.as_str());
            out.append("]");
        }
        if let Some(g) = &self.process_group {
            out.append(" (");
            out.append(g.as_str());
            out.append(")");
        }
        out.append(" :");
        crate::push_decimal(&mut out, self.port as u64);
        out
    }

    /// A short, clean process name: the final path component, stripped of
    /// common executable extensions.
    pub fn get_short_name(&self) -> (r: String)
        ensures
            r@ == spec_short_name(self.name@),
    {
        let base: String = if text::contains_char(self.name.as_str(), '/') {
            text::suffix_after_last(self.name.as_str(), '/')
        } else if text::contains_char(self.name.as_str(), '\\') {
            text::suffix_after_last(self.name.as_str(), '\\')
        } else {
            self.name.clone()
        };
        proof {
            reveal_strlit(".exe");
            reveal_strlit(".dll");
            reveal_strlit(".so");
        }
        let a = text::trim_end_matches(base.as_str(), ".exe");
        let b = text::trim_end_matches(a.as_str(), ".dll");
        text::trim_end_matches(b.as_str(), ".so")
    }

    /// A detailed description: short name and port, then command line,
    /// working directory and container context where recorded.
    pub fn get_detailed_description(&self) -> (r: String)
        ensures
            r@ == spec_detailed_description(*self),
    {
        let mut out = self.get_short_name();
        out.append(" on port ");
        crate::push_decimal(&mut out, self.port as u64);
        if let Some(cl) = &self.command_line {
            if !text::str_eq(cl.as_str(), self.name.as_str()) && cl.as_str().unicode_len() > 0 {
                out.append(" (");
                out.append(cl.as_str());
                out.append(")");
            }
        }
        if let Some(wd) = &self.working_directory {
            out.append(" in ");
            out.append(wd.as_str());
        }
        if self.container_id.is_some() {
            if let Some(cn) = &self.container_name {
                out.append(" [Docker: ");
                out.append(cn.as_str());
                out.append("]");
            }
        }
        out
    }
}

/// The text of `get_project_description`.
pub open spec fn spec_project_description(p: ProcessInfo) -> Seq<char> {
    match (p.project_name, p.working_directory) {
        (Some(pr), Some(c)) => pr@ + " ("@ + c@ + ")"@,
        (Some(pr), None) => pr@,
        (None, Some(c)) => c@,
        (None, None) => "Unknown Project"@,
    }
}

/// The text of `get_display_name`: name, optional project and group tags,
/// then the port.
pub open spec fn spec_display_name(p: ProcessInfo) -> Seq<char> {
    p.name@ + (match p.project_name {
        Some(pr) => " ["@ + pr@ + "]"@,
        None => Seq::<char>::empty(),
    }) + (match p.process_group {
        Some(g) => " ("@ + g@ + ")"@,
        None => Seq::<char>::empty(),
    }) + " :"@ + crate::dec_digits(p.port as nat)
}

/// The text of `get_detailed_description`.
pub open spec fn spec_detailed_description(p: ProcessInfo) -> Seq<char> {
    spec_short_name(p.name@) + " on port "@ + crate::dec_digits(p.port as nat) + (
    match p.command_line {
        Some(cl) => if cl@ != p.name@ && cl@.len() > 0 {
            " ("@ + cl@ + ")"@
        } else {
            Seq::<char>::empty()
        },
        None => Seq::<char>::empty(),
    }) + (match p.working_directory {
        Some(wd) => " in "@ + wd@,
        None => Seq::<char>::empty(),
    }) + (if p.container_id is Some && p.container_name is Some {
        " [Docker: "@ + p.container_name->Some_0@ + "]"@
    } else {
        Seq::<char>::empty()
    })
}

/// The mathematical model of a record: the same fields with text as
/// character sequences.
pub ghost struct ProcessModel {
    pub pid: i32,
    pub port: u16,
    pub command: Seq<char>,
    pub name: Seq<char>,
    pub container_id: Option<Seq<char>>,
    pub container_name: Option<Seq<char>>,
    pub command_line: Option<Seq<char>>,
    pub working_directory: Option<Seq<char>>,
    pub process_group: Option<Seq<char>>,
    pub project_name: Option<Seq<char>>,
    pub cpu_usage: Option<u64>,
    pub memory_usage: Option<u64>,
    pub memory_percentage: Option<u64>,
}

impl ProcessInfo {
    /// The record's mathematical model.
    pub open spec fn model(&self) -> ProcessModel {
        ProcessModel {
            pid: self.pid,
            port: self.port,
            command: self.command@,
            name: self.name@,
            container_id: self.container_id.deep_view(),
            container_name: self.container_name.deep_view(),
            command_line: self.command_line.deep_view(),
            working_directory: self.working_directory.deep_view(),
            process_group: self.process_group.deep_view(),
            project_name: self.project_name.deep_view(),
            cpu_usage: self.cpu_usage,
            memory_usage: self.memory_usage,
            memory_percentage: self.memory_percentage,
        }
    }
}

/// The models of a record sequence.
pub open spec fn models_of(s: Seq<ProcessInfo>) -> Seq<ProcessModel> {
    s.map_values(|r: ProcessInfo| r.model())
}

/// Whether some model in `s` is bound to `p`.
pub open spec fn models_have_port(s: Seq<ProcessModel>, p: u16) -> bool {
    exists|k: int| 0 <= k < s.len() && s[k].port == p
}

/// Well-formedness of a snapshot's record sequence: each port appears at
/// most once.
pub open spec fn snapshot_wf(s: Seq<ProcessInfo>) -> bool {
    forall|i: int, j: int| 0 <= i < j < s.len() ==> s[i].port != s[j].port
}

/// Whether some record in `s` is bound to `p`.
pub open spec fn seq_has_port(s: Seq<ProcessInfo>, p: u16) -> bool {
    exists|k: int| 0 <= k < s.len() && s[k].port == p
}

/// Index of the first record bound to `p`, or the length of `s`.
pub open spec fn port_index(s: Seq<ProcessInfo>, p: u16) -> int
    decreases s.len(),
{
    if s.len() == 0 {
        0
    } else if s[0].port == p {
        0
    } else {
        1 + port_index(s.skip(1), p)
    }
}

/// The record sequence with later duplicates of a port dropped: the first
/// record observed for a port wins.
pub open spec fn dedup_first(s: Seq<ProcessInfo>) -> Seq<ProcessInfo>
    decreases s.len(),
{
    if s.len() == 0 {
        s
    } else if seq_has_port(s.drop_last(), s.last().port) {
        dedup_first(s.drop_last())
    } else {
        dedup_first(s.drop_last()).push(s.last())
    }
}

proof fn lemma_dedup_first_ports(s: Seq<ProcessInfo>, p: u16)
    ensures
        seq_has_port(dedup_first(s), p) == seq_has_port(s, p),
    decreases s.len(),
{
    if s.len() > 0 {
        let pre = s.drop_last();
        lemma_dedup_first_ports(pre, p);
        assert(seq_has_port(s, p) == (seq_has_port(pre, p) || s.last().port == p)) by {
            if seq_has_port(pre, p) {
                let k = choose|k: int| 0 <= k < pre.len() && pre[k].port == p;
                assert(s[k].port == p);
            }
            if s.last().port == p {
                assert(s[s.len() - 1].port == p);
            }
            if seq_has_port(s, p) {
                let k = choose|k: int| 0 <= k < s.len() && s[k].port == p;
                if k < s.len() - 1 {
                    assert(pre[k].port == p);
                }
            }
        }
        if seq_has_port(pre, s.last().port) {
            assert(dedup_first(s) == dedup_first(pre));
            if s.last().port == p {
                assert(seq_has_port(pre, p));
            }
        } else {
            let d = dedup_first(pre);
            assert(dedup_first(s) == d.push(s.last()));
            assert(seq_has_port(d.push(s.last()), p) == (seq_has_port(d, p) || s.last().port
                == p)) by {
                if seq_has_port(d, p) {
                    let k = choose|k: int| 0 <= k < d.len() && d[k].port == p;
                    assert(d.push(s.last())[k].port == p);
                }
                if s.last().port == p {
                    assert(d.push(s.last())[d.len() as int].port == p);
                }
                if seq_has_port(d.push(s.last()), p) {
                    let k = choose|k: int|
                        0 <= k < d.push(s.last()).len() && d.push(s.last())[k].port == p;
                    if k < d.len() {
                        assert(d[k].port == p);
                    }
                }
            }
        }
    }
}

/// An immutable point-in-time mapping from port to owning-process record.
///
/// Invariant: each port key appears at most once; when the underlying scan
/// reports duplicates for a port, the first record observed wins.
#[derive(Debug)]
pub struct Snapshot {
    records: Vec<ProcessInfo>,
}

impl View for Snapshot {
    type V = Seq<ProcessInfo>;

    closed spec fn view(&self) -> Seq<ProcessInfo> {
        self.records@
    }
}

impl Clone for Snapshot {
    fn clone(&self) -> (r: Self)
        ensures
            r@ == self@,
    {
        let mut out: Vec<ProcessInfo> = Vec::new();
        let mut i: usize = 0;
        while i < self.records.len()
            invariant
                0 <= i <= self.records.len(),
                out@ =~= self.records@.take(i as int),
            decreases self.records.len() - i,
        {
            out.push(self.records[i].clone());
            i = i + 1;
        }
        assert(out@ =~= self.records@);
        Snapshot { records: out }
    }
}

impl Snapshot {
    /// Each port key appears at most once.
    pub open spec fn wf(&self) -> bool {
        snapshot_wf(self@)
    }

    /// Whether the snapshot holds a record for `p`.
    pub open spec fn spec_has_port(&self, p: u16) -> bool {
        seq_has_port(self@, p)
    }

    /// An empty snapshot.
    pub fn new() -> (r: Snapshot)
        ensures
            r@ =~= Seq::<ProcessInfo>::empty(),
            r.wf(),
    {
        Snapshot { records: Vec::new() }
    }

    /// Adds a record unless its port is already present: the first record
    /// observed for a port wins.
    pub fn insert_first(&mut self, rec: ProcessInfo)
        requires
            old(self).wf(),
        ensures
            final(self).wf(),
            old(self).spec_has_port(rec.port) ==> final(self)@ == old(self)@,
            !old(self).spec_has_port(rec.port) ==> final(self)@ == old(self)@.push(rec),
    {
        if !self.contains_port(rec.port) {
            self.records.push(rec);
        }
    }

    /// How many records the snapshot holds.
    pub fn len(&self) -> (r: usize)
        ensures
            r == self@.len(),
    {
        self.records.len()
    }

    /// Whether the snapshot holds no record.
    pub fn is_empty(&self) -> (r: bool)
        ensures
            r == (self@.len() == 0),
    {
        self.records.len() == 0
    }

    /// The records, in the order they were observed.
    pub fn records(&self) -> (r: &Vec<ProcessInfo>)
        ensures
            r@ == self@,
    {
        &self.records
    }

    /// Whether a record for `p` is present.
    pub fn contains_port(&self, p: u16) -> (r: bool)
        ensures
            r == self.spec_has_port(p),
    {
        let mut i: usize = 0;
        while i < self.records.len()
            invariant
                0 <= i <= self.records.len(),
                forall|k: int| 0 <= k < i ==> self.records@[k].port != p,
            decreases self.records.len() - i,
        {
            if self.records[i].port == p {
                return true;
            }
            i = i + 1;
        }
        false
    }

    /// The record bound to `p`, where one is present.
    pub fn get(&self, p: u16) -> (r: Option<&ProcessInfo>)
        ensures
            match r {
                Some(x) => self.spec_has_port(p) && port_index(self@, p) < self@.len() && *x
                    == self@[port_index(self@, p)],
                None => !self.spec_has_port(p),
            },
    {
        let mut i: usize = 0;
        while i < self.records.len()
            invariant
                0 <= i <= self.records.len(),
                forall|k: int| 0 <= k < i ==> self.records@[k].port != p,
            decreases self.records.len() - i,
        {
            if self.records[i].port == p {
                proof {
                    lemma_port_index_first(self@, p, i as int);
                }
                return Some(&self.records[i]);
            }
            i = i + 1;
        }
        None
    }

    /// Builds a snapshot from records in observation order; the first record
    /// for each port wins.
    pub fn from_records(recs: Vec<ProcessInfo>) -> (r: Snapshot)
        ensures
            r.wf(),
            r@ == dedup_first(recs@),
    {
        let mut snap = Snapshot::new();
        let mut i: usize = 0;
        while i < recs.len()
            invariant
                0 <= i <= recs.len(),
                snap.wf(),
                snap@ == dedup_first(recs@.take(i as int)),
            decreases recs.len() - i,
        {
            proof {
                lemma_dedup_first_ports(recs@.take(i as int), recs@[i as int].port);
                assert(recs@.take(i + 1).drop_last() =~= recs@.take(i as int));
            }
            snap.insert_first(recs[i].clone());
            i = i + 1;
        }
        assert(recs@.take(recs@.len() as int) =~= recs@);
        snap
    }

    /// Builds a snapshot from records already known to carry distinct
    /// ports.
    pub fn from_distinct_records(recs: Vec<ProcessInfo>) -> (r: Snapshot)
        requires
            snapshot_wf(recs@),
        ensures
            r.wf(),
            r@ == recs@,
    {
        Snapshot { records: recs }
    }

    /// The port keys, in observation order.
    pub fn ports(&self) -> (r: Vec<u16>)
        ensures
            r@ == self@.map_values(|x: ProcessInfo| x.port),
    {
        let mut out: Vec<u16> = Vec::new();
        let mut i: usize = 0;
        while i < self.records.len()
            invariant
                0 <= i <= self.records.len(),
                out@ =~= self.records@.take(i as int).map_values(|x: ProcessInfo| x.port),
            decreases self.records.len() - i,
        {
            out.push(self.records[i].port);
            proof {
                assert(self.records@.take(i + 1).map_values(|x: ProcessInfo| x.port) =~= self
                    .records@.take(i as int).map_values(|x: ProcessInfo| x.port).push(
                    self.records@[i as int].port,
                ));
            }
            i = i + 1;
        }
        assert(self.records@.take(self.records@.len() as int) =~= self.records@);
        out
    }
}

proof fn lemma_port_index_first(s: Seq<ProcessInfo>, p: u16, i: int)
    requires
        0 <= i < s.len(),
        s[i].port == p,
        forall|k: int| 0 <= k < i ==> s[k].port != p,
    ensures
        port_index(s, p) == i,
    decreases i,
{
    if i > 0 {
        assert(forall|k: int| 0 <= k < i - 1 ==> s.skip(1)[k].port != p);
        lemma_port_index_first(s.skip(1), p, i - 1);
    }
}

/// One published update: a snapshot together with its record count.
#[derive(Debug)]
pub struct ProcessUpdate {
    pub processes: Snapshot,
    pub count: usize,
}

impl Clone for ProcessUpdate {
    fn clone(&self) -> (r: Self)
        ensures
            r.processes@ == self.processes@,
            r.count == self.count,
    {
        ProcessUpdate { processes: self.processes.clone(), count: self.count }
    }
}

impl ProcessUpdate {
    /// Wraps a snapshot, recording its count.
    pub fn new(processes: Snapshot) -> (r: ProcessUpdate)
        ensures
            r.processes@ == processes@,
            r.count == processes@.len(),
    {
        let count = processes.len();
        ProcessUpdate { processes, count }
    }

    /// An update that carries no processes.
    pub fn empty() -> (r: ProcessUpdate)
        ensures
            r.processes@ =~= Seq::<ProcessInfo>::empty(),
            r.count == 0,
    {
        ProcessUpdate { processes: Snapshot::new(), count: 0 }
    }
}

/// Whether a record reports more than half a core of CPU use.
pub open spec fn is_high_cpu(r: ProcessInfo) -> bool {
    r.cpu_usage is Some && r.cpu_usage->0 > 50
}

/// Whether a record reports more than a tenth of memory in use.
pub open spec fn is_high_memory(r: ProcessInfo) -> bool {
    r.memory_percentage is Some && r.memory_percentage->0 > 10
}

/// Whether a record runs inside a container.
pub open spec fn is_container(r: ProcessInfo) -> bool {
    r.container_id is Some
}

/// How many records of `s` satisfy `f`.
pub open spec fn count_matching(s: Seq<ProcessInfo>, f: spec_fn(ProcessInfo) -> bool) -> nat
    decreases s.len(),
{
    if s.len() == 0 {
        0
    } else {
        count_matching(s.drop_last(), f) + (if f(s.last()) {
            1nat
        } else {
            0nat
        })
    }
}

proof fn lemma_count_matching_bound(s: Seq<ProcessInfo>, f: spec_fn(ProcessInfo) -> bool)
    ensures
        count_matching(s, f) <= s.len(),
    decreases s.len(),
{
    if s.len() > 0 {
        lemma_count_matching_bound(s.drop_last(), f);
    }
}

/// The distinct group labels of `s`, each in the order first observed.
pub open spec fn distinct_groups(s: Seq<ProcessInfo>) -> Seq<Seq<char>>
    decreases s.len(),
{
    if s.len() == 0 {
        seq![]
    } else {
        let pre = distinct_groups(s.drop_last());
        match s.last().process_group {
            Some(g) => if pre.contains(g@) {
                pre
            } else {
                pre.push(g@)
            },
            None => pre,
        }
    }
}

/// The status text: the count, then flags for high CPU, high memory and
/// container use where any is present.
pub open spec fn spec_status_text(count: nat, hc: nat, hm: nat, dc: nat) -> Seq<char> {
    crate::dec_digits(count) + (if hc > 0 {
        " "@ + seq!['\u{1F525}'] + crate::dec_digits(hc)
    } else {
        Seq::<char>::empty()
    }) + (if hm > 0 {
        " "@ + seq!['\u{1F4BE}'] + crate::dec_digits(hm)
    } else {
        Seq::<char>::empty()
    }) + (if dc > 0 {
        " "@ + seq!['\u{1F433}'] + crate::dec_digits(dc)
    } else {
        Seq::<char>::empty()
    })
}

/// The detailed tooltip: the count, then groups and resource notes where
/// any is present.
pub open spec fn spec_status_tooltip(
    count: nat,
    groups: Seq<Seq<char>>,
    hc: nat,
    hm: nat,
    dc: nat,
) -> Seq<char> {
    crate::dec_digits(count) + " development process(es) running"@ + (if groups.len() > 0 {
        " | Groups: "@ + text::join_with(groups, ", "@)
    } else {
        Seq::<char>::empty()
    }) + (if hc > 0 {
        " | "@ + crate::dec_digits(hc) + " high CPU processes"@
    } else {
        Seq::<char>::empty()
    }) + (if hm > 0 {
        " | "@ + crate::dec_digits(hm) + " high memory processes"@
    } else {
        Seq::<char>::empty()
    }) + (if dc > 0 {
        " | "@ + crate::dec_digits(dc) + " Docker containers"@
    } else {
        Seq::<char>::empty()
    })
}

/// The tooltip used when only a count is known.
pub open spec fn spec_count_tooltip(count: nat) -> Seq<char> {
    if count == 0 {
        "No development processes running"@
    } else {
        crate::dec_digits(count) + " development process(es) running"@
    }
}

/// The text and tooltip that summarize a snapshot for a status display.
#[derive(Debug)]
pub struct StatusBarInfo {
    pub text: String,
    pub tooltip: String,
}

impl Clone for StatusBarInfo {
    fn clone(&self) -> (r: Self)
        ensures
            r.text@ == self.text@,
            r.tooltip@ == self.tooltip@,
    {
        StatusBarInfo { text: self.text.clone(), tooltip: self.tooltip.clone() }
    }
}

impl StatusBarInfo {
    /// Summarizes a bare process count.
    pub fn from_process_count(count: usize) -> (r: StatusBarInfo)
        ensures
            r.text@ == crate::dec_digits(count as nat),
            r.tooltip@ == spec_count_tooltip(count as nat),
    {
        let text = crate::decimal_string(count as u64);
        let tooltip = if count == 0 {
            "No development processes running".to_owned()
        } else {
            let mut t = crate::decimal_string(count as u64);
            t.append(" development process(es) running");
            t
        };
        StatusBarInfo { text, tooltip }
    }

    /// Summarizes a snapshot, flagging high CPU use, high memory use,
    /// containers, and the groups present.
    pub fn from_processes_with_status(processes: &Snapshot) -> (r: StatusBarInfo)
        ensures
            processes@.len() == 0 ==> r.text@ == "0"@ && r.tooltip@
                == "No development processes running"@,
            processes@.len() > 0 ==> r.text@ == spec_status_text(
                processes@.len(),
                count_matching(processes@, |x: ProcessInfo| is_high_cpu(x)),
                count_matching(processes@, |x: ProcessInfo| is_high_memory(x)),
                count_matching(processes@, |x: ProcessInfo| is_container(x)),
            ) && r.tooltip@ == spec_status_tooltip(
                processes@.len(),
                distinct_groups(processes@),
                count_matching(processes@, |x: ProcessInfo| is_high_cpu(x)),
                count_matching(processes@, |x: ProcessInfo| is_high_memory(x)),
                count_matching(processes@, |x: ProcessInfo| is_container(x)),
            ),
    {
        let recs = processes.records();
        let count = recs.len();
        if count == 0 {
            proof {
                reveal_strlit("0");
            }
            let r = StatusBarInfo {
                text: "0".to_owned(),
                tooltip: "No development processes running".to_owned(),
            };
            assert(r.text@ =~= "0"@);
            return r;
        }
        let (hc, hm, dc, groups) = summarize_records(recs);
        let txt = build_status_text(count, hc, hm, dc);
        let tip = build_status_tooltip(count, &groups, hc, hm, dc);
        StatusBarInfo { text: txt, tooltip: tip }
    }
}

fn summarize_records(recs: &Vec<ProcessInfo>) -> (r: (usize, usize, usize, Vec<String>))
    ensures
        r.0 == count_matching(recs@, |x: ProcessInfo| is_high_cpu(x)),
        r.1 == count_matching(recs@, |x: ProcessInfo| is_high_memory(x)),
        r.2 == count_matching(recs@, |x: ProcessInfo| is_container(x)),
        r.3.deep_view() == distinct_groups(recs@),
{
    let count = recs.len();
    let mut hc: usize = 0;
    let mut hm: usize = 0;
    let mut dc: usize = 0;
    let mut groups: Vec<String> = Vec::new();
    let mut i: usize = 0;
    while i < count
        invariant
            0 <= i <= count,
            count == recs@.len(),
            hc == count_matching(recs@.take(i as int), |x: ProcessInfo| is_high_cpu(x)),
            hm == count_matching(recs@.take(i as int), |x: ProcessInfo| is_high_memory(x)),
            dc == count_matching(recs@.take(i as int), |x: ProcessInfo| is_container(x)),
            groups.deep_view() == distinct_groups(recs@.take(i as int)),
        decreases count - i,
    {
        proof {
            assert(recs@.take(i + 1).drop_last() =~= recs@.take(i as int));
            assert(recs@.take(i + 1).last() == recs@[i as int]);
            lemma_count_matching_bound(recs@.take(i as int), |x: ProcessInfo| is_high_cpu(x));
            lemma_count_matching_bound(recs@.take(i as int), |x: ProcessInfo| is_high_memory(x));
            lemma_count_matching_bound(recs@.take(i as int), |x: ProcessInfo| is_container(x));
        }
        let rec = &recs[i];
        match rec.cpu_usage {
            Some(c) => if c > 50 {
                hc = hc + 1;
            } else {
            },
            None => {},
        }
        match rec.memory_percentage {
            Some(m) => if m > 10 {
                hm = hm + 1;
            } else {
            },
            None => {},
        }
        if rec.container_id.is_some() {
            dc = dc + 1;
        }
        match &rec.process_group {
            Some(g) => {
                if !text::vec_contains_str(&groups, g.as_str()) {
                    groups.push(g.clone());
                    proof {
                        assert(groups.deep_view() =~= groups.deep_view().drop_last().push(g@));
                    }
                }
            },
            None => {},
        }
        i = i + 1;
    }
    proof {
        assert(recs@.take(count as int) =~= recs@);
    }
    (hc, hm, dc, groups)
}

#[verifier::rlimit(100)]
fn build_status_text(count: usize, hc: usize, hm: usize, dc: usize) -> (r: String)
    ensures
        r@ == spec_status_text(count as nat, hc as nat, hm as nat, dc as nat),
{
    let mut txt = crate::decimal_string(count as u64);
    proof {
        reveal_strlit(" ");
        reveal_strlit("\u{1F525}");
        reveal_strlit("\u{1F4BE}");
        reveal_strlit("\u{1F433}");
    }
    if hc > 0 {
        txt.append(" ");
        txt.append("\u{1F525}");
        crate::push_decimal(&mut txt, hc as u64);
    }
    if hm > 0 {
        txt.append(" ");
        txt.append("\u{1F4BE}");
        crate::push_decimal(&mut txt, hm as u64);
    }
    if dc > 0 {
        txt.append(" ");
        txt.append("\u{1F433}");
        crate::push_decimal(&mut txt, dc as u64);
    }
    txt
}

#[verifier::rlimit(100)]
fn build_status_tooltip(
    count: usize,
    groups: &Vec<String>,
    hc: usize,
    hm: usize,
    dc: usize,
) -> (r: String)
    ensures
        r@ == spec_status_tooltip(
            count as nat,
            groups.deep_view(),
            hc as nat,
            hm as nat,
            dc as nat,
        ),
{
    let mut tip = crate::decimal_string(count as u64);
    tip.append(" development process(es) running");
    if groups.len() > 0 {
        tip.append(" | Groups: ");
        let joined = text::join_strings(groups, ", ");
        tip.append(joined.as_str());
    }
    if hc > 0 {
        tip.append(" | ");
        crate::push_decimal(&mut tip, hc as u64);
        tip.append(" high CPU processes");
    }
    if hm > 0 {
        tip.append(" | ");
        crate::push_decimal(&mut tip, hm as u64);
        tip.append(" high memory processes");
    }
    if dc > 0 {
        tip.append(" | ");
        crate::push_decimal(&mut tip, dc as u64);
        tip.append(" Docker containers");
    }
    tip
}

} // verus!
