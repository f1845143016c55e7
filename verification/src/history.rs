//! The kill history: a bounded record of terminated processes and the
//! rule suggestions drawn from it.
//!
//! Timestamps are plain seconds since the epoch; the embedding program
//! reads the clock and persists the entries.

use vstd::prelude::*;
use vstd::slice::slice_subrange;

use crate::text;
use crate::types::ProcessInfo;

verus! {

/// One terminated process, as remembered.
#[derive(Debug)]
pub struct ProcessHistoryEntry {
    pub pid: i32,
    pub port: u16,
    pub process_name: String,
    pub process_group: Option<String>,
    pub project_name: Option<String>,
    /// When the process was killed, in seconds since the epoch.
    pub killed_at: u64,
    /// Who asked for the kill: `user`, `bulk` or `auto`.
    pub killed_by: String,
    pub command_line: Option<String>,
    pub working_directory: Option<String>,
}

/// The model of a history entry.
pub ghost struct HistoryEntryModel {
    pub pid: i32,
    pub port: u16,
    pub process_name: Seq<char>,
    pub process_group: Option<Seq<char>>,
    pub project_name: Option<Seq<char>>,
    pub killed_at: u64,
    pub killed_by: Seq<char>,
    pub command_line: Option<Seq<char>>,
    pub working_directory: Option<Seq<char>>,
}

impl ProcessHistoryEntry {
    /// The entry's model.
    pub open spec fn model(&self) -> HistoryEntryModel {
        HistoryEntryModel {
            pid: self.pid,
            port: self.port,
            process_name: self.process_name@,
            process_group: self.process_group.deep_view(),
            project_name: self.project_name.deep_view(),
            killed_at: self.killed_at,
            killed_by: self.killed_by@,
            command_line: self.command_line.deep_view(),
            working_directory: self.working_directory.deep_view(),
        }
    }

    /// Remembers a record at the moment it was killed; the embedding
    /// program reads the clock.
    pub fn new(process_info: &ProcessInfo, killed_by: String, killed_at: u64) -> (r:
        ProcessHistoryEntry)
        ensures
            r.model() == (HistoryEntryModel {
                pid: process_info.pid,
                port: process_info.port,
                process_name: process_info.name@,
                process_group: process_info.process_group.deep_view(),
                project_name: process_info.project_name.deep_view(),
                killed_at: killed_at,
                killed_by: killed_by@,
                command_line: process_info.command_line.deep_view(),
                working_directory: process_info.working_directory.deep_view(),
            }),
    {
        ProcessHistoryEntry {
            pid: process_info.pid,
            port: process_info.port,
            process_name: process_info.name.clone(),
            process_group: clone_opt(&process_info.process_group),
            project_name: clone_opt(&process_info.project_name),
            killed_at,
            killed_by,
            command_line: clone_opt(&process_info.command_line),
            working_directory: clone_opt(&process_info.working_directory),
        }
    }

    /// A display name: the group with the project, either alone, or the
    /// process name.
    pub fn get_display_name(&self) -> (r: String)
        ensures
            r@ == spec_history_display_name(self.model()),
    {
        match (&self.process_group, &self.project_name) {
            (Some(g), Some(p)) => {
                let mut out = g.clone();
                out.append(" (");
                out.append(p.as_str());
                out.append(")");
                out
            },
            (Some(g), None) => g.clone(),
            (None, Some(p)) => {
                let mut out = self.process_name.clone();
                out.append(" (");
                out.append(p.as_str());
                out.append(")");
                out
            },
            (None, None) => self.process_name.clone(),
        }
    }
}

/// The text of a history entry's display name.
pub open spec fn spec_history_display_name(e: HistoryEntryModel) -> Seq<char> {
    match (e.process_group, e.project_name) {
        (Some(g), Some(p)) => g + " ("@ + p + ")"@,
        (Some(g), None) => g,
        (None, Some(p)) => e.process_name + " ("@ + p + ")"@,
        (None, None) => e.process_name,
    }
}

fn clone_opt(s: &Option<String>) -> (r: Option<String>)
    ensures
        r == *s,
{
    match s {
        Some(v) => Some(v.clone()),
        None => None,
    }
}

/// The models of an entry sequence.
pub open spec fn history_models(s: Seq<ProcessHistoryEntry>) -> Seq<HistoryEntryModel> {
    s.map_values(|e: ProcessHistoryEntry| e.model())
}

/// A bounded, first-in-first-out record of kills.
#[derive(Debug)]
pub struct ProcessHistory {
    entries: Vec<ProcessHistoryEntry>,
    max_entries: usize,
}

impl ProcessHistory {
    /// The remembered entries, oldest first.
    pub closed spec fn spec_entries(&self) -> Seq<ProcessHistoryEntry> {
        self.entries@
    }

    /// How many entries are kept at most.
    pub closed spec fn spec_max_entries(&self) -> nat {
        self.max_entries as nat
    }

    /// No more than the bound is remembered.
    pub open spec fn wf(&self) -> bool {
        self.spec_entries().len() <= self.spec_max_entries() || self.spec_max_entries() == 0
    }

    /// An empty history keeping at most `max_entries` entries.
    pub fn new(max_entries: usize) -> (r: ProcessHistory)
        ensures
            r.wf(),
            r.spec_entries() == Seq::<ProcessHistoryEntry>::empty(),
            r.spec_max_entries() == max_entries,
    {
        let r = ProcessHistory { entries: Vec::new(), max_entries };
        proof {
            assert(r.spec_entries() =~= Seq::<ProcessHistoryEntry>::empty());
        }
        r
    }

    /// Remembers one more kill; when the bound is exceeded the oldest
    /// entry is dropped.
    pub fn add_entry(&mut self, entry: ProcessHistoryEntry)
        ensures
            final(self).spec_max_entries() == old(self).spec_max_entries(),
            final(self).spec_entries() == (if old(self).spec_entries().len() + 1 > old(
                self,
            ).spec_max_entries() {
                old(self).spec_entries().push(entry).skip(1)
            } else {
                old(self).spec_entries().push(entry)
            }),
    {
        self.entries.push(entry);
        if self.entries.len() > self.max_entries {
            let _ = self.entries.remove(0);
            proof {
                assert(self.entries@ =~= old(self).spec_entries().push(entry).skip(1));
            }
        }
    }

    /// Forgets everything.
    pub fn clear(&mut self)
        ensures
            final(self).spec_entries() == Seq::<ProcessHistoryEntry>::empty(),
            final(self).spec_max_entries() == old(self).spec_max_entries(),
    {
        self.entries.clear();
        proof {
            assert(self.entries@ =~= Seq::<ProcessHistoryEntry>::empty());
        }
    }

    /// How many kills are remembered.
    pub fn len(&self) -> (r: usize)
        ensures
            r == self.spec_entries().len(),
    {
        self.entries.len()
    }

    /// Whether nothing is remembered.
    pub fn is_empty(&self) -> (r: bool)
        ensures
            r == (self.spec_entries().len() == 0),
    {
        self.entries.len() == 0
    }

    /// The most recent `limit` entries, oldest of them first.
    pub fn get_recent_entries(&self, limit: usize) -> (r: &[ProcessHistoryEntry])
        ensures
            r@ == (if self.spec_entries().len() > limit {
                self.spec_entries().skip(self.spec_entries().len() - limit)
            } else {
                self.spec_entries()
            }),
    {
        let start: usize = if self.entries.len() > limit {
            self.entries.len() - limit
        } else {
            0
        };
        let r = slice_range(self.entries.as_slice(), start, self.entries.len());
        proof {
            if self.spec_entries().len() > limit {
                assert(r@ =~= self.spec_entries().skip(self.spec_entries().len() - limit));
            } else {
                assert(r@ =~= self.spec_entries());
            }
        }
        r
    }

    /// The entries whose group is `group`, in order.
    pub fn get_entries_by_group(&self, group: &str) -> (r: Vec<&ProcessHistoryEntry>)
        ensures
            ({
                let expected = filter_by_group(self.spec_entries(), group@);
                r@.len() == expected.len() && forall|k: int|
                    0 <= k < expected.len() ==> *(#[trigger] r@[k]) == expected[k]
            }),
    {
        let mut out: Vec<&ProcessHistoryEntry> = Vec::new();
        let mut i: usize = 0;
        while i < self.entries.len()
            invariant
                0 <= i <= self.entries@.len(),
                ({
                    let expected = filter_by_group(self.entries@.take(i as int), group@);
                    out@.len() == expected.len() && forall|k: int|
                        0 <= k < expected.len() ==> *(#[trigger] out@[k]) == expected[k]
                }),
            decreases self.entries@.len() - i,
        {
            proof {
                assert(self.entries@.take(i + 1).drop_last() =~= self.entries@.take(i as int));
                assert(self.entries@.take(i + 1).last() == self.entries@[i as int]);
            }
            let keep: bool = match &self.entries[i].process_group {
                Some(g) => text::str_eq(g.as_str(), group),
                None => false,
            };
            if keep {
                out.push(&self.entries[i]);
            }
            i = i + 1;
        }
        proof {
            assert(self.entries@.take(self.entries@.len() as int) =~= self.entries@);
        }
        out
    }

    /// The entries whose project is `project`, in order.
    pub fn get_entries_by_project(&self, project: &str) -> (r: Vec<&ProcessHistoryEntry>)
        ensures
            ({
                let expected = filter_by_project(self.spec_entries(), project@);
                r@.len() == expected.len() && forall|k: int|
                    0 <= k < expected.len() ==> *(#[trigger] r@[k]) == expected[k]
            }),
    {
        let mut out: Vec<&ProcessHistoryEntry> = Vec::new();
        let mut i: usize = 0;
        while i < self.entries.len()
            invariant
                0 <= i <= self.entries@.len(),
                ({
                    let expected = filter_by_project(self.entries@.take(i as int), project@);
                    out@.len() == expected.len() && forall|k: int|
                        0 <= k < expected.len() ==> *(#[trigger] out@[k]) == expected[k]
                }),
            decreases self.entries@.len() - i,
        {
            proof {
                assert(self.entries@.take(i + 1).drop_last() =~= self.entries@.take(i as int));
                assert(self.entries@.take(i + 1).last() == self.entries@[i as int]);
            }
            let keep: bool = match &self.entries[i].project_name {
                Some(p) => text::str_eq(p.as_str(), project),
                None => false,
            };
            if keep {
                out.push(&self.entries[i]);
            }
            i = i + 1;
        }
        proof {
            assert(self.entries@.take(self.entries@.len() as int) =~= self.entries@);
        }
        out
    }

    /// The remembered entries, for the embedding program to persist.
    pub fn entries(&self) -> (r: &Vec<ProcessHistoryEntry>)
        ensures
            r@ == self.spec_entries(),
    {
        &self.entries
    }

    /// A history restored from persisted entries.
    pub fn from_entries(entries: Vec<ProcessHistoryEntry>, max_entries: usize) -> (r:
        ProcessHistory)
        ensures
            r.spec_entries() == entries@,
            r.spec_max_entries() == max_entries,
    {
        ProcessHistory { entries, max_entries }
    }
}

/// The entries of `s` whose group is `group`, in order.
pub open spec fn filter_by_group(s: Seq<ProcessHistoryEntry>, group: Seq<char>) -> Seq<
    ProcessHistoryEntry,
>
    decreases s.len(),
{
    if s.len() == 0 {
        s
    } else {
        let pre = filter_by_group(s.drop_last(), group);
        if s.last().model().process_group == Some(group) {
            pre.push(s.last())
        } else {
            pre
        }
    }
}

/// The entries of `s` whose project is `project`, in order.
pub open spec fn filter_by_project(s: Seq<ProcessHistoryEntry>, project: Seq<char>) -> Seq<
    ProcessHistoryEntry,
>
    decreases s.len(),
{
    if s.len() == 0 {
        s
    } else {
        let pre = filter_by_project(s.drop_last(), project);
        if s.last().model().project_name == Some(project) {
            pre.push(s.last())
        } else {
            pre
        }
    }
}

/// A process that has been killed repeatedly: one process name and port,
/// with how often and when.
#[derive(Debug)]
pub struct FrequentOffender {
    pub process_name: String,
    pub port: u16,
    pub kill_count: usize,
    /// The earliest kill, in seconds since the epoch.
    pub first_killed: u64,
    /// The latest kill, in seconds since the epoch.
    pub last_killed: u64,
    pub process_group: Option<String>,
    pub project_name: Option<String>,
}

/// Whether an entry is about the process `name` on `port`.
pub open spec fn entry_matches_key(e: HistoryEntryModel, name: Seq<char>, port: u16) -> bool {
    e.process_name == name && e.port == port
}

/// How many entries of `s` carry this key.
pub open spec fn count_key(s: Seq<HistoryEntryModel>, name: Seq<char>, port: u16) -> nat
    decreases s.len(),
{
    if s.len() == 0 {
        0
    } else {
        count_key(s.drop_last(), name, port) + (if entry_matches_key(s.last(), name, port) {
            1nat
        } else {
            0nat
        })
    }
}

/// The earliest kill time of this key, or the largest time when the key
/// never occurs.
pub open spec fn first_killed_at(s: Seq<HistoryEntryModel>, name: Seq<char>, port: u16) -> u64
    decreases s.len(),
{
    if s.len() == 0 {
        u64::MAX as u64
    } else {
        let pre = first_killed_at(s.drop_last(), name, port);
        if entry_matches_key(s.last(), name, port) && s.last().killed_at < pre {
            s.last().killed_at
        } else {
            pre
        }
    }
}

/// The latest kill time of this key, or zero when the key never occurs.
pub open spec fn last_killed_at(s: Seq<HistoryEntryModel>, name: Seq<char>, port: u16) -> u64
    decreases s.len(),
{
    if s.len() == 0 {
        0
    } else {
        let pre = last_killed_at(s.drop_last(), name, port);
        if entry_matches_key(s.last(), name, port) && s.last().killed_at > pre {
            s.last().killed_at
        } else {
            pre
        }
    }
}

/// The index of the first entry carrying this key, or the length of `s`.
pub open spec fn first_key_index(s: Seq<HistoryEntryModel>, name: Seq<char>, port: u16) -> int
    decreases s.len(),
{
    if s.len() == 0 {
        0
    } else if entry_matches_key(s[0], name, port) {
        0
    } else {
        1 + first_key_index(s.skip(1), name, port)
    }
}

/// Whether some offender in `r` carries this key.
pub open spec fn offenders_have_key(s: Seq<FrequentOffender>, name: Seq<char>, port: u16) -> bool {
    exists|k: int|
        0 <= k < s.len() && (#[trigger] s[k]).process_name@ == name && s[k].port == port
}

fn key_stats(entries: &Vec<ProcessHistoryEntry>, name: &str, port: u16) -> (r: (
    usize,
    u64,
    u64,
    usize,
))
    ensures
        r.0 == count_key(history_models(entries@), name@, port),
        r.1 == first_killed_at(history_models(entries@), name@, port),
        r.2 == last_killed_at(history_models(entries@), name@, port),
        r.3 == first_key_index(history_models(entries@), name@, port),
        r.0 <= entries@.len(),
        r.3 <= entries@.len(),
{
    let ghost ms = history_models(entries@);
    let mut count: usize = 0;
    let mut first: u64 = u64::MAX;
    let mut last: u64 = 0;
    let mut first_idx: usize = entries.len();
    let mut i: usize = 0;
    proof {
        lemma_first_key_index_bounds(ms, name@, port);
    }
    while i < entries.len()
        invariant
            0 <= i <= entries@.len(),
            ms == history_models(entries@),
            count == count_key(ms.take(i as int), name@, port),
            count <= i,
            first == first_killed_at(ms.take(i as int), name@, port),
            last == last_killed_at(ms.take(i as int), name@, port),
            first_idx == (if first_key_index(ms, name@, port) < i {
                first_key_index(ms, name@, port)
            } else {
                entries@.len() as int
            }),
        decreases entries@.len() - i,
    {
        proof {
            assert(ms.take(i + 1).drop_last() =~= ms.take(i as int));
            assert(ms.take(i + 1).last() == ms[i as int]);
            assert(ms[i as int] == entries@[i as int].model());
        }
        proof {
            lemma_first_key_index_bounds(ms, name@, port);
        }
        let e = &entries[i];
        if text::str_eq(e.process_name.as_str(), name) && e.port == port {
            count = count + 1;
            if e.killed_at < first {
                first = e.killed_at;
            }
            if e.killed_at > last {
                last = e.killed_at;
            }
            if first_idx == entries.len() {
                first_idx = i;
            }
        }
        i = i + 1;
    }
    proof {
        assert(ms.take(ms.len() as int) =~= ms);
        if first_idx == entries@.len() {
            lemma_first_key_index_bounds(ms, name@, port);
        }
    }
    (count, first, last, first_idx)
}

proof fn lemma_first_key_index_bounds(s: Seq<HistoryEntryModel>, name: Seq<char>, port: u16)
    ensures
        0 <= first_key_index(s, name, port) <= s.len(),
        first_key_index(s, name, port) < s.len() ==> entry_matches_key(
            s[first_key_index(s, name, port)],
            name,
            port,
        ),
        forall|k: int| 0 <= k < first_key_index(s, name, port) ==> !entry_matches_key(
            #[trigger] s[k],
            name,
            port,
        ),
    decreases s.len(),
{
    if s.len() > 0 && !entry_matches_key(s[0], name, port) {
        lemma_first_key_index_bounds(s.skip(1), name, port);
        assert forall|k: int| 0 <= k < first_key_index(s, name, port) implies !entry_matches_key(
            #[trigger] s[k],
            name,
            port,
        ) by {
            if k >= 1 {
                assert(!entry_matches_key(s.skip(1)[k - 1], name, port));
            }
        }
    }
}

/// Whether `o` correctly reports the key it carries: the exact kill
/// count, the earliest and latest kill times, and the group and project of
/// the first entry observed for the key.
pub open spec fn offender_ok(ms: Seq<HistoryEntryModel>, min_kills: int, o: FrequentOffender) -> bool {
    let name = o.process_name@;
    let port = o.port;
    &&& count_key(ms, name, port) == o.kill_count
    &&& o.kill_count >= min_kills
    &&& o.first_killed == first_killed_at(ms, name, port)
    &&& o.last_killed == last_killed_at(ms, name, port)
    &&& first_key_index(ms, name, port) < ms.len()
    &&& o.process_group.deep_view() == ms[first_key_index(ms, name, port)].process_group
    &&& o.project_name.deep_view() == ms[first_key_index(ms, name, port)].project_name
}

fn offenders_contain_key(s: &Vec<FrequentOffender>, name: &str, port: u16) -> (r: bool)
    ensures
        r == offenders_have_key(s@, name@, port),
{
    let mut k: usize = 0;
    while k < s.len()
        invariant
            0 <= k <= s@.len(),
            forall|j: int|
                0 <= j < k ==> !((#[trigger] s@[j]).process_name@ == name@ && s@[j].port == port),
        decreases s@.len() - k,
    {
        if text::str_eq(s[k].process_name.as_str(), name) && s[k].port == port {
            return true;
        }
        k = k + 1;
    }
    false
}

proof fn lemma_count_key_positive(
    ms: Seq<HistoryEntryModel>,
    name: Seq<char>,
    port: u16,
    i: int,
)
    requires
        0 <= i < ms.len(),
        entry_matches_key(ms[i], name, port),
    ensures
        count_key(ms, name, port) >= 1,
    decreases ms.len(),
{
    if ms.len() > 0 {
        if i == ms.len() - 1 {
        } else {
            lemma_count_key_positive(ms.drop_last(), name, port, i);
        }
    }
}

/// What a frequent-offender report promises: each reported offender is
/// correct and qualifies, no key is reported twice, every key killed at
/// least `min_kills` times is reported, and the most frequent come first.
pub open spec fn offenders_report_ok(
    ms: Seq<HistoryEntryModel>,
    min_kills: int,
    r: Seq<FrequentOffender>,
) -> bool {
    &&& (forall|k: int| 0 <= k < r.len() ==> offender_ok(ms, min_kills, #[trigger] r[k]))
    &&& (forall|i: int, j: int|
        0 <= i < j < r.len() ==> !((#[trigger] r[i]).process_name@ == (
        #[trigger] r[j]).process_name@ && r[i].port == r[j].port))
    &&& (forall|j: int|
        0 <= j < ms.len() && count_key(ms, (#[trigger] ms[j]).process_name, ms[j].port)
            >= min_kills ==> offenders_have_key(r, ms[j].process_name, ms[j].port))
    &&& (forall|i: int, j: int|
        0 <= i < j < r.len() ==> (#[trigger] r[i]).kill_count >= (#[trigger] r[j]).kill_count)
}

impl ProcessHistory {
    /// The processes killed at least `min_kills` times, keyed by name and
    /// port: each qualifying key exactly once, with its count and times,
    /// most frequently killed first.
    pub fn get_frequent_offenders(&self, min_kills: usize) -> (r: Vec<FrequentOffender>)
        ensures
            offenders_report_ok(history_models(self.spec_entries()), min_kills as int, r@),
    {
        let ghost ms = history_models(self.entries@);
        let mut out: Vec<FrequentOffender> = Vec::new();
        let mut i: usize = 0;
        while i < self.entries.len()
            invariant
                0 <= i <= self.entries@.len(),
                ms == history_models(self.entries@),
                forall|k: int|
                    0 <= k < out@.len() ==> offender_ok(ms, min_kills as int, #[trigger] out@[k]),
                forall|a: int, b: int|
                    0 <= a < b < out@.len() ==> !((#[trigger] out@[a]).process_name@ == (
                    #[trigger] out@[b]).process_name@ && out@[a].port == out@[b].port),
                forall|j: int|
                    0 <= j < i && count_key(ms, (#[trigger] ms[j]).process_name, ms[j].port)
                        >= min_kills ==> offenders_have_key(
                        out@,
                        ms[j].process_name,
                        ms[j].port,
                    ),
                forall|a: int, b: int|
                    0 <= a < b < out@.len() ==> (#[trigger] out@[a]).kill_count >= (
                    #[trigger] out@[b]).kill_count,
            decreases self.entries@.len() - i,
        {
            proof {
                assert(ms[i as int] == self.entries@[i as int].model());
            }
            let e = &self.entries[i];
            if !offenders_contain_key(&out, e.process_name.as_str(), e.port) {
                let (count, first, last, fidx) = key_stats(
                    &self.entries,
                    e.process_name.as_str(),
                    e.port,
                );
                if count >= min_kills {
                    proof {
                        lemma_count_key_positive(ms, e.process_name@, e.port, i as int);
                        lemma_first_key_index_bounds(ms, e.process_name@, e.port);
                        if first_key_index(ms, e.process_name@, e.port) == ms.len() {
                            assert(!entry_matches_key(ms[i as int], e.process_name@, e.port));
                        }
                    }
                    let fe = &self.entries[fidx];
                    proof {
                        assert(ms[fidx as int] == self.entries@[fidx as int].model());
                    }
                    let off = FrequentOffender {
                        process_name: e.process_name.clone(),
                        port: e.port,
                        kill_count: count,
                        first_killed: first,
                        last_killed: last,
                        process_group: clone_opt(&fe.process_group),
                        project_name: clone_opt(&fe.project_name),
                    };
                    proof {
                        assert(offender_ok(ms, min_kills as int, off));
                    }
                    let mut p: usize = 0;
                    while p < out.len() && out[p].kill_count >= count
                        invariant
                            0 <= p <= out@.len(),
                            forall|k: int|
                                0 <= k < p ==> (#[trigger] out@[k]).kill_count >= count,
                        decreases out@.len() - p,
                    {
                        p = p + 1;
                    }
                    let ghost pre = out@;
                    let ghost off_val = off;
                    out.insert(p, off);
                    proof {
                        assert(out@ =~= pre.take(p as int) + seq![off_val] + pre.skip(p as int));
                        let fin = out@;
                        let pl = p as int;
                        assert forall|k: int|
                            0 <= k < fin.len() implies offender_ok(
                            ms,
                            min_kills as int,
                            #[trigger] fin[k],
                        ) by {
                            if k < pl {
                                assert(fin[k] == pre[k]);
                            } else if k > pl {
                                assert(fin[k] == pre[k - 1]);
                            }
                        }
                        assert forall|a: int, b: int| 0 <= a < b < fin.len() implies !((
                        #[trigger] fin[a]).process_name@ == (#[trigger] fin[b]).process_name@
                            && fin[a].port == fin[b].port) by {
                            let aa = if a < pl {
                                a
                            } else {
                                a - 1
                            };
                            let bb = if b < pl {
                                b
                            } else {
                                b - 1
                            };
                            if a == pl || b == pl {
                                // the new key was absent before the insert
                                let other = if a == pl {
                                    b - 1
                                } else {
                                    aa
                                };
                                if fin[a].process_name@ == fin[b].process_name@ && fin[a].port
                                    == fin[b].port {
                                    assert(pre[other].process_name@ == off_val.process_name@
                                        && pre[other].port == off_val.port);
                                    assert(offenders_have_key(
                                        pre,
                                        off_val.process_name@,
                                        off_val.port,
                                    ));
                                }
                            } else {
                                assert(fin[a] == pre[aa] && fin[b] == pre[bb]);
                            }
                        }
                        assert forall|a: int, b: int| 0 <= a < b < fin.len() implies (
                        #[trigger] fin[a]).kill_count >= (#[trigger] fin[b]).kill_count by {
                            if b < pl {
                                assert(fin[a] == pre[a] && fin[b] == pre[b]);
                            } else if a > pl {
                                assert(fin[a] == pre[a - 1] && fin[b] == pre[b - 1]);
                            } else if a < pl && b == pl {
                                assert(fin[a] == pre[a]);
                            } else if b > pl {
                                // a <= pl: everything after the insertion
                                // point held less than the new count
                                assert(fin[b] == pre[b - 1]);
                                assert(pre[pl].kill_count < count);
                                if b - 1 > pl {
                                    assert(pre[b - 1].kill_count <= pre[pl].kill_count);
                                }
                                if a < pl {
                                    assert(fin[a] == pre[a]);
                                }
                            }
                        }
                        assert forall|j: int|
                            0 <= j < i + 1 && count_key(
                                ms,
                                (#[trigger] ms[j]).process_name,
                                ms[j].port,
                            ) >= min_kills implies offenders_have_key(
                            fin,
                            ms[j].process_name,
                            ms[j].port,
                        ) by {
                            if j < i && offenders_have_key(pre, ms[j].process_name, ms[j].port) {
                                let k = choose|k: int|
                                    0 <= k < pre.len() && (#[trigger] pre[k]).process_name@
                                        == ms[j].process_name && pre[k].port == ms[j].port;
                                if k < pl {
                                    assert(fin[k] == pre[k]);
                                } else {
                                    assert(fin[k + 1] == pre[k]);
                                }
                            }
                            if j == i {
                                assert(fin[pl] == off_val);
                            }
                        }
                    }
                } else {
                    proof {
                        assert(count_key(ms, ms[i as int].process_name, ms[i as int].port)
                            < min_kills);
                    }
                }
            } else {
                proof {
                    assert(offenders_have_key(out@, ms[i as int].process_name, ms[i as int].port));
                }
            }
            i = i + 1;
        }
        out
    }
}

/// Strictly ascending ports: sorted with no duplicate.
pub open spec fn ports_sorted_distinct(s: Seq<u16>) -> bool {
    forall|i: int, j: int| 0 <= i < j < s.len() ==> s[i] < s[j]
}

/// Strictly ascending names: sorted with no duplicate.
pub open spec fn names_sorted_distinct(s: Seq<Seq<char>>) -> bool {
    forall|i: int, j: int| 0 <= i < j < s.len() ==> text::str_lt(#[trigger] s[i], #[trigger] s[j])
}

fn insert_unique_port(v: &mut Vec<u16>, x: u16)
    requires
        ports_sorted_distinct(old(v)@),
    ensures
        ports_sorted_distinct(final(v)@),
        forall|y: u16| final(v)@.contains(y) <==> old(v)@.contains(y) || y == x,
{
    let ghost pre = v@;
    let mut p: usize = 0;
    while p < v.len() && v[p] < x
        invariant
            0 <= p <= v@.len(),
            v@ == pre,
            forall|k: int| 0 <= k < p ==> pre[k] < x,
        decreases v@.len() - p,
    {
        p = p + 1;
    }
    if p < v.len() && v[p] == x {
        proof {
            assert(pre.contains(x));
        }
        return ;
    }
    v.insert(p, x);
    proof {
        assert(v@ =~= pre.take(p as int) + seq![x] + pre.skip(p as int));
        let fin = v@;
        let pl = p as int;
        assert forall|i: int, j: int| 0 <= i < j < fin.len() implies fin[i] < fin[j] by {
            if j < pl {
                assert(fin[i] == pre[i] && fin[j] == pre[j]);
            } else if i > pl {
                assert(fin[i] == pre[i - 1] && fin[j] == pre[j - 1]);
            } else if i < pl && j == pl {
                assert(fin[i] == pre[i]);
            } else if i == pl {
                assert(fin[j] == pre[j - 1]);
                assert(pre[pl] != x && pre[pl] >= x);
                if j - 1 > pl {
                    assert(pre[pl] < pre[j - 1]);
                }
            } else {
                assert(fin[i] == pre[i] && fin[j] == pre[j - 1]);
                assert(pre[pl] != x && pre[pl] >= x);
                if j - 1 > pl {
                    assert(pre[pl] < pre[j - 1]);
                }
            }
        }
        assert forall|y: u16| fin.contains(y) <==> pre.contains(y) || y == x by {
            if fin.contains(y) {
                let k = choose|k: int| 0 <= k < fin.len() && fin[k] == y;
                if k < pl {
                    assert(pre[k] == y);
                } else if k > pl {
                    assert(pre[k - 1] == y);
                }
            }
            if pre.contains(y) {
                let k = choose|k: int| 0 <= k < pre.len() && pre[k] == y;
                if k < pl {
                    assert(fin[k] == y);
                } else {
                    assert(fin[k + 1] == y);
                }
            }
            if y == x {
                assert(fin[pl] == y);
            }
        }
    }
}

fn insert_unique_name(v: &mut Vec<String>, x: &str)
    requires
        names_sorted_distinct(old(v).deep_view()),
    ensures
        names_sorted_distinct(final(v).deep_view()),
        forall|y: Seq<char>|
            final(v).deep_view().contains(y) <==> old(v).deep_view().contains(y) || y == x@,
{
    let ghost pre = v.deep_view();
    let mut p: usize = 0;
    while p < v.len() && text::str_lt_exec(v[p].as_str(), x)
        invariant
            0 <= p <= v@.len(),
            v.deep_view() == pre,
            forall|k: int| 0 <= k < p ==> text::str_lt(#[trigger] pre[k], x@),
        decreases v@.len() - p,
    {
        proof {
            assert(pre[p as int] == v@[p as int]@);
        }
        p = p + 1;
    }
    proof {
        if (p as int) < pre.len() {
            assert(pre[p as int] == v@[p as int]@);
        }
    }
    if p < v.len() && text::str_eq(v[p].as_str(), x) {
        proof {
            assert(pre.contains(x@));
        }
        return ;
    }
    v.insert(p, x.to_owned());
    proof {
        assert(v.deep_view() =~~= pre.take(p as int) + seq![x@] + pre.skip(p as int));
        let fin = v.deep_view();
        let pl = p as int;
        assert forall|i: int, j: int| 0 <= i < j < fin.len() implies text::str_lt(
            #[trigger] fin[i],
            #[trigger] fin[j],
        ) by {
            if j < pl {
                assert(fin[i] == pre[i] && fin[j] == pre[j]);
            } else if i > pl {
                assert(fin[i] == pre[i - 1] && fin[j] == pre[j - 1]);
            } else if i < pl && j == pl {
                assert(fin[i] == pre[i]);
            } else if i == pl {
                assert(fin[j] == pre[j - 1]);
                text::lemma_str_lt_trichotomy(pre[pl], x@);
                if j - 1 > pl {
                    assert(text::str_lt(pre[pl], pre[j - 1]));
                    text::lemma_str_lt_transitive(x@, pre[pl], pre[j - 1]);
                } else {
                    assert(text::str_lt(x@, pre[pl]));
                }
            } else {
                assert(fin[i] == pre[i] && fin[j] == pre[j - 1]);
                text::lemma_str_lt_trichotomy(pre[pl], x@);
                if j - 1 > pl {
                    assert(text::str_lt(pre[pl], pre[j - 1]));
                    text::lemma_str_lt_transitive(x@, pre[pl], pre[j - 1]);
                    text::lemma_str_lt_transitive(fin[i], x@, pre[j - 1]);
                } else {
                    assert(text::str_lt(x@, pre[pl]));
                    text::lemma_str_lt_transitive(fin[i], x@, pre[pl]);
                }
            }
        }
        assert forall|y: Seq<char>| fin.contains(y) <==> pre.contains(y) || y == x@ by {
            if fin.contains(y) {
                let k = choose|k: int| 0 <= k < fin.len() && fin[k] == y;
                if k < pl {
                    assert(pre[k] == y);
                } else if k > pl {
                    assert(pre[k - 1] == y);
                }
            }
            if pre.contains(y) {
                let k = choose|k: int| 0 <= k < pre.len() && pre[k] == y;
                if k < pl {
                    assert(fin[k] == y);
                } else {
                    assert(fin[k + 1] == y);
                }
            }
            if y == x@ {
                assert(fin[pl] == y);
            }
        }
    }
}

/// Rule suggestions drawn from the history: the ports, names and groups
/// of the frequent offenders, each list sorted with duplicates removed.
#[derive(Debug)]
pub struct IgnoreSuggestions {
    pub suggested_ports: Vec<u16>,
    pub suggested_processes: Vec<String>,
    pub suggested_groups: Vec<String>,
    pub frequent_offenders: Vec<FrequentOffender>,
}

impl ProcessHistory {
    /// Suggests ignore rules: the ports, process names and groups of every
    /// process killed at least `min_kills` times, sorted and without
    /// duplicates, together with the offender report itself.
    pub fn get_ignore_suggestions(&self, min_kills: usize) -> (r: IgnoreSuggestions)
        ensures
            offenders_report_ok(
                history_models(self.spec_entries()),
                min_kills as int,
                r.frequent_offenders@,
            ),
            ports_sorted_distinct(r.suggested_ports@),
            forall|y: u16|
                r.suggested_ports@.contains(y) <==> exists|k: int|
                    0 <= k < r.frequent_offenders@.len() && (
                    #[trigger] r.frequent_offenders@[k]).port == y,
            names_sorted_distinct(r.suggested_processes.deep_view()),
            forall|y: Seq<char>|
                r.suggested_processes.deep_view().contains(y) <==> exists|k: int|
                    0 <= k < r.frequent_offenders@.len() && (
                    #[trigger] r.frequent_offenders@[k]).process_name@ == y,
            names_sorted_distinct(r.suggested_groups.deep_view()),
            forall|y: Seq<char>|
                r.suggested_groups.deep_view().contains(y) <==> exists|k: int|
                    0 <= k < r.frequent_offenders@.len() && (
                    #[trigger] r.frequent_offenders@[k]).process_group.deep_view() == Some(y),
    {
        let offenders = self.get_frequent_offenders(min_kills);
        let mut suggested_ports: Vec<u16> = Vec::new();
        let mut suggested_processes: Vec<String> = Vec::new();
        let mut suggested_groups: Vec<String> = Vec::new();
        let mut i: usize = 0;
        while i < offenders.len()
            invariant
                0 <= i <= offenders@.len(),
                ports_sorted_distinct(suggested_ports@),
                forall|y: u16|
                    suggested_ports@.contains(y) <==> exists|k: int|
                        0 <= k < i && (#[trigger] offenders@[k]).port == y,
                names_sorted_distinct(suggested_processes.deep_view()),
                forall|y: Seq<char>|
                    suggested_processes.deep_view().contains(y) <==> exists|k: int|
                        0 <= k < i && (#[trigger] offenders@[k]).process_name@ == y,
                names_sorted_distinct(suggested_groups.deep_view()),
                forall|y: Seq<char>|
                    suggested_groups.deep_view().contains(y) <==> exists|k: int|
                        0 <= k < i && (#[trigger] offenders@[k]).process_group.deep_view()
                            == Some(y),
            decreases offenders@.len() - i,
        {
            let off = &offenders[i];
            insert_unique_port(&mut suggested_ports, off.port);
            insert_unique_name(&mut suggested_processes, off.process_name.as_str());
            if let Some(g) = &off.process_group {
                insert_unique_name(&mut suggested_groups, g.as_str());
                proof {
                    assert(offenders@[i as int].process_group.deep_view() == Some(g@));
                }
            }
            proof {
                assert forall|y: u16|
                    suggested_ports@.contains(y) <==> exists|k: int|
                        0 <= k < i + 1 && (#[trigger] offenders@[k]).port == y by {
                    if suggested_ports@.contains(y) {}
                    if exists|k: int| 0 <= k < i + 1 && (#[trigger] offenders@[k]).port == y {
                        let k = choose|k: int|
                            0 <= k < i + 1 && (#[trigger] offenders@[k]).port == y;
                    }
                }
                assert forall|y: Seq<char>|
                    suggested_processes.deep_view().contains(y) <==> exists|k: int|
                        0 <= k < i + 1 && (#[trigger] offenders@[k]).process_name@ == y by {
                    if suggested_processes.deep_view().contains(y) {}
                    if exists|k: int|
                        0 <= k < i + 1 && (#[trigger] offenders@[k]).process_name@ == y {
                        let k = choose|k: int|
                            0 <= k < i + 1 && (#[trigger] offenders@[k]).process_name@ == y;
                    }
                }
                assert forall|y: Seq<char>|
                    suggested_groups.deep_view().contains(y) <==> exists|k: int|
                        0 <= k < i + 1 && (#[trigger] offenders@[k]).process_group.deep_view()
                            == Some(y) by {
                    if suggested_groups.deep_view().contains(y) {}
                    if exists|k: int|
                        0 <= k < i + 1 && (#[trigger] offenders@[k]).process_group.deep_view()
                            == Some(y) {
                        let k = choose|k: int|
                            0 <= k < i + 1 && (
                            #[trigger] offenders@[k]).process_group.deep_view() == Some(y);
                    }
                }
            }
            i = i + 1;
        }
        IgnoreSuggestions {
            suggested_ports,
            suggested_processes,
            suggested_groups,
            frequent_offenders: offenders,
        }
    }
}

/// A day of the week.
#[derive(Debug, Clone, Copy, PartialEq, Eq, Structural)]
pub enum Weekday {
    Monday,
    Tuesday,
    Wednesday,
    Thursday,
    Friday,
    Saturday,
    Sunday,
}

/// The hour of day, 0 to 23, of an epoch timestamp.
pub open spec fn hour_of(ts: u64) -> int {
    ((ts / 3600) % 24) as int
}

/// The weekday index, 0 for Monday through 6 for Sunday, of an epoch
/// timestamp; the epoch began on a Thursday.
pub open spec fn weekday_index_of(ts: u64) -> int {
    ((ts / 86400 + 3) % 7) as int
}

/// The weekday of index `d`.
pub open spec fn weekday_of_index(d: int) -> Weekday {
    if d == 0 {
        Weekday::Monday
    } else if d == 1 {
        Weekday::Tuesday
    } else if d == 2 {
        Weekday::Wednesday
    } else if d == 3 {
        Weekday::Thursday
    } else if d == 4 {
        Weekday::Friday
    } else if d == 5 {
        Weekday::Saturday
    } else {
        Weekday::Sunday
    }
}

/// How many entries of `s` were killed in hour `h`.
pub open spec fn count_in_hour(s: Seq<HistoryEntryModel>, h: int) -> nat
    decreases s.len(),
{
    if s.len() == 0 {
        0
    } else {
        count_in_hour(s.drop_last(), h) + (if hour_of(s.last().killed_at) == h {
            1nat
        } else {
            0nat
        })
    }
}

/// How many entries of `s` were killed on weekday index `d`.
pub open spec fn count_on_day(s: Seq<HistoryEntryModel>, d: int) -> nat
    decreases s.len(),
{
    if s.len() == 0 {
        0
    } else {
        count_on_day(s.drop_last(), d) + (if weekday_index_of(s.last().killed_at) == d {
            1nat
        } else {
            0nat
        })
    }
}

/// When kills happen: the total, the distribution over hours and
/// weekdays, and the peaks.
#[derive(Debug)]
pub struct TimePatterns {
    pub total_kills: usize,
    /// The first hour, 0 to 23, with the most kills; nothing when the
    /// history is empty.
    pub peak_hour: Option<u8>,
    /// The first weekday, Monday first, with the most kills; nothing when
    /// the history is empty.
    pub peak_day: Option<Weekday>,
    /// Kills per hour of day, indexed 0 to 23.
    pub hour_distribution: Vec<usize>,
    /// Kills per weekday, indexed Monday first.
    pub day_distribution: Vec<usize>,
}

fn argmax_first(counts: &Vec<usize>) -> (r: usize)
    requires
        counts@.len() > 0,
    ensures
        0 <= r < counts@.len(),
        forall|k: int| 0 <= k < counts@.len() ==> counts@[k] <= counts@[r as int],
        forall|k: int| 0 <= k < r ==> counts@[k] < counts@[r as int],
{
    let mut best: usize = 0;
    let mut i: usize = 1;
    while i < counts.len()
        invariant
            0 <= best < i <= counts@.len(),
            forall|k: int| 0 <= k < i ==> counts@[k] <= counts@[best as int],
            forall|k: int| 0 <= k < best ==> counts@[k] < counts@[best as int],
        decreases counts@.len() - i,
    {
        if counts[i] > counts[best] {
            best = i;
        }
        i = i + 1;
    }
    best
}

impl ProcessHistory {
    /// When processes are most commonly killed: the distribution of kills
    /// over hours and weekdays, with the first peak of each, or no peak at
    /// all for an empty history.
    pub fn get_time_patterns(&self) -> (r: TimePatterns)
        ensures
            ({
                let ms = history_models(self.spec_entries());
                &&& r.total_kills == ms.len()
                &&& r.hour_distribution@.len() == 24
                &&& (forall|h: int|
                    0 <= h < 24 ==> (#[trigger] r.hour_distribution@[h]) == count_in_hour(ms, h))
                &&& r.day_distribution@.len() == 7
                &&& (forall|d: int|
                    0 <= d < 7 ==> (#[trigger] r.day_distribution@[d]) == count_on_day(ms, d))
                &&& (r.peak_hour is None <==> ms.len() == 0)
                &&& (r.peak_day is None <==> ms.len() == 0)
                &&& (match r.peak_hour {
                    Some(h) => 0 <= h < 24 && (forall|k: int|
                        0 <= k < 24 ==> count_in_hour(ms, k) <= count_in_hour(ms, h as int)) && (
                    forall|k: int| 0 <= k < h ==> count_in_hour(ms, k) < count_in_hour(ms, h as int)),
                    None => true,
                })
                &&& (match r.peak_day {
                    Some(day) => exists|d: int|
                        0 <= d < 7 && day == weekday_of_index(d) && (forall|k: int|
                            0 <= k < 7 ==> count_on_day(ms, k) <= count_on_day(ms, d)) && (
                        forall|k: int| 0 <= k < d ==> count_on_day(ms, k) < count_on_day(ms, d)),
                    None => true,
                })
            }),
    {
        let ghost ms = history_models(self.entries@);
        let mut hours: Vec<usize> = Vec::new();
        let mut k: usize = 0;
        while k < 24
            invariant
                0 <= k <= 24,
                hours@.len() == k,
                forall|h: int| 0 <= h < k ==> (#[trigger] hours@[h]) == 0,
            decreases 24 - k,
        {
            hours.push(0);
            k = k + 1;
        }
        let mut days: Vec<usize> = Vec::new();
        let mut k: usize = 0;
        while k < 7
            invariant
                0 <= k <= 7,
                days@.len() == k,
                forall|d: int| 0 <= d < k ==> (#[trigger] days@[d]) == 0,
            decreases 7 - k,
        {
            days.push(0);
            k = k + 1;
        }
        let mut i: usize = 0;
        while i < self.entries.len()
            invariant
                0 <= i <= self.entries@.len(),
                ms == history_models(self.entries@),
                hours@.len() == 24,
                days@.len() == 7,
                forall|h: int|
                    0 <= h < 24 ==> (#[trigger] hours@[h]) == count_in_hour(ms.take(i as int), h),
                forall|d: int|
                    0 <= d < 7 ==> (#[trigger] days@[d]) == count_on_day(ms.take(i as int), d),
            decreases self.entries@.len() - i,
        {
            proof {
                assert(ms.take(i + 1).drop_last() =~= ms.take(i as int));
                assert(ms.take(i + 1).last() == ms[i as int]);
                assert(ms[i as int] == self.entries@[i as int].model());
                lemma_count_in_hour_bound(ms.take(i as int));
                lemma_count_on_day_bound(ms.take(i as int));
            }
            let ts = self.entries[i].killed_at;
            let hour: usize = ((ts / 3600) % 24) as usize;
            let day: usize = ((ts / 86400 + 3) % 7) as usize;
            let hc = hours[hour];
            hours.set(hour, hc + 1);
            let dc = days[day];
            days.set(day, dc + 1);
            i = i + 1;
        }
        proof {
            assert(ms.take(ms.len() as int) =~= ms);
        }
        let total = self.entries.len();
        let (peak_hour, peak_day) = if total == 0 {
            (None, None)
        } else {
            let bh = argmax_first(&hours);
            let bd = argmax_first(&days);
            let day = match bd {
                0 => Weekday::Monday,
                1 => Weekday::Tuesday,
                2 => Weekday::Wednesday,
                3 => Weekday::Thursday,
                4 => Weekday::Friday,
                5 => Weekday::Saturday,
                _ => Weekday::Sunday,
            };
            proof {
                assert(day == weekday_of_index(bd as int));
                assert forall|k: int| 0 <= k < 24 implies count_in_hour(ms, k) <= count_in_hour(
                    ms,
                    bh as int,
                ) by {
                    assert(hours@[k] == count_in_hour(ms, k));
                    assert(hours@[bh as int] == count_in_hour(ms, bh as int));
                    assert(hours@[k] <= hours@[bh as int]);
                }
                assert forall|k: int| 0 <= k < bh implies count_in_hour(ms, k) < count_in_hour(
                    ms,
                    bh as int,
                ) by {
                    assert(hours@[k] == count_in_hour(ms, k));
                    assert(hours@[bh as int] == count_in_hour(ms, bh as int));
                    assert(hours@[k] < hours@[bh as int]);
                }
                assert forall|k: int| 0 <= k < 7 implies count_on_day(ms, k) <= count_on_day(
                    ms,
                    bd as int,
                ) by {
                    assert(days@[k] == count_on_day(ms, k));
                    assert(days@[bd as int] == count_on_day(ms, bd as int));
                    assert(days@[k] <= days@[bd as int]);
                }
                assert forall|k: int| 0 <= k < bd implies count_on_day(ms, k) < count_on_day(
                    ms,
                    bd as int,
                ) by {
                    assert(days@[k] == count_on_day(ms, k));
                    assert(days@[bd as int] == count_on_day(ms, bd as int));
                    assert(days@[k] < days@[bd as int]);
                }
                assert(0 <= bd < 7 && day == weekday_of_index(bd as int) && (forall|k: int|
                    0 <= k < 7 ==> count_on_day(ms, k) <= count_on_day(ms, bd as int)) && (
                forall|k: int| 0 <= k < bd ==> count_on_day(ms, k) < count_on_day(ms, bd as int)));
            }
            (Some(bh as u8), Some(day))
        };
        TimePatterns {
            total_kills: total,
            peak_hour,
            peak_day,
            hour_distribution: hours,
            day_distribution: days,
        }
    }
}

proof fn lemma_count_in_hour_bound(s: Seq<HistoryEntryModel>)
    ensures
        forall|h: int| #[trigger] count_in_hour(s, h) <= s.len(),
    decreases s.len(),
{
    if s.len() > 0 {
        lemma_count_in_hour_bound(s.drop_last());
        assert forall|h: int| #[trigger] count_in_hour(s, h) <= s.len() by {
            assert(count_in_hour(s.drop_last(), h) <= s.drop_last().len());
        }
    }
}

proof fn lemma_count_on_day_bound(s: Seq<HistoryEntryModel>)
    ensures
        forall|d: int| #[trigger] count_on_day(s, d) <= s.len(),
    decreases s.len(),
{
    if s.len() > 0 {
        lemma_count_on_day_bound(s.drop_last());
        assert forall|d: int| #[trigger] count_on_day(s, d) <= s.len() by {
            assert(count_on_day(s.drop_last(), d) <= s.drop_last().len());
        }
    }
}

fn slice_range<'a>(s: &'a [ProcessHistoryEntry], from: usize, to: usize) -> (r: &'a [
    ProcessHistoryEntry])
    requires
        from <= to <= s@.len(),
    ensures
        r@ == s@.subrange(from as int, to as int),
{
    slice_subrange(s, from, to)
}

} // verus!
