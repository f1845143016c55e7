//! The monitor loop's decisions: scan scheduling, refresh debouncing,
//! pre-publish validation, and the teardown-before-rebuild ordering.
//!
//! One cooperative scheduler owns these decisions; the embedding program
//! runs the loop, performs the platform work, and feeds the observations
//! back. The scheduler never blocks on a kill: kill requests run on a
//! separate worker guarded by the at-most-one-in-flight flag.

use vstd::prelude::*;

use crate::types::{snapshot_wf, ProcessInfo, Snapshot};

verus! {

/// How often the scheduler scans, in milliseconds.
pub const SCAN_INTERVAL_MS: u64 = 5000;

/// The least time between two published view refreshes, in milliseconds;
/// deliberately longer than the scan interval.
pub const PUBLISH_MIN_INTERVAL_MS: u64 = 10000;

/// How long after a user interaction the view is left untouched, in
/// milliseconds.
pub const INTERACTION_COOLDOWN_MS: u64 = 2000;

/// How long the scheduler waits between detaching the old view and
/// attaching the new one, in milliseconds. The ordering contract — full
/// detach before rebuild — is what matters; the delay is a floor, not a
/// guarantee.
pub const TEARDOWN_SETTLE_MS: u64 = 50;

/// Milliseconds elapsed from `earlier` to `now`, zero when the clock moved
/// backwards.
pub open spec fn elapsed_ms(now: u64, earlier: u64) -> nat {
    if now >= earlier {
        (now - earlier) as nat
    } else {
        0
    }
}

/// What the scheduler remembers between ticks.
#[derive(Debug, Clone, Copy, PartialEq, Eq, Structural)]
pub struct MonitorState {
    /// The count published last.
    pub last_process_count: usize,
    /// When the view was last published, in milliseconds.
    pub last_publish_ms: u64,
    /// When the user last interacted with the view, in milliseconds.
    pub last_interaction_ms: u64,
}

/// Whether a scan is due: the scan interval has elapsed since the last
/// check.
pub fn scan_due(now_ms: u64, last_check_ms: u64) -> (r: bool)
    ensures
        r == (elapsed_ms(now_ms, last_check_ms) >= SCAN_INTERVAL_MS),
{
    now_ms >= last_check_ms && now_ms - last_check_ms >= SCAN_INTERVAL_MS
}

/// The debounce: an updated view is republished only when the visible
/// count actually changed, the minimum interval has elapsed since the last
/// publish, no kill is in flight, and no interaction fell within the
/// cooldown window. Each condition failing alone suppresses the refresh.
pub fn should_republish(
    state: &MonitorState,
    now_ms: u64,
    new_count: usize,
    kill_in_flight: bool,
) -> (r: bool)
    ensures
        r == (new_count != state.last_process_count && elapsed_ms(now_ms, state.last_publish_ms)
            >= PUBLISH_MIN_INTERVAL_MS && !kill_in_flight && elapsed_ms(
            now_ms,
            state.last_interaction_ms,
        ) >= INTERACTION_COOLDOWN_MS),
{
    let count_changed = new_count != state.last_process_count;
    let enough_time = now_ms >= state.last_publish_ms && now_ms - state.last_publish_ms
        >= PUBLISH_MIN_INTERVAL_MS;
    let no_recent_interaction = now_ms >= state.last_interaction_ms && now_ms
        - state.last_interaction_ms >= INTERACTION_COOLDOWN_MS;
    count_changed && enough_time && !kill_in_flight && no_recent_interaction
}

/// Records a publish: the published count and time are remembered.
pub fn record_publish(state: &mut MonitorState, now_ms: u64, published_count: usize)
    ensures
        final(state).last_process_count == published_count,
        final(state).last_publish_ms == now_ms,
        final(state).last_interaction_ms == old(state).last_interaction_ms,
{
    state.last_process_count = published_count;
    state.last_publish_ms = now_ms;
}

/// Records a user interaction with the view.
pub fn record_interaction(state: &mut MonitorState, now_ms: u64)
    ensures
        final(state).last_interaction_ms == now_ms,
        final(state).last_process_count == old(state).last_process_count,
        final(state).last_publish_ms == old(state).last_publish_ms,
{
    state.last_interaction_ms = now_ms;
}

/// The records of `s` whose pid the liveness check still reports, in
/// order.
pub open spec fn spec_validated(s: Seq<ProcessInfo>, alive: Seq<i32>) -> Seq<ProcessInfo>
    decreases s.len(),
{
    if s.len() == 0 {
        s
    } else {
        let pre = spec_validated(s.drop_last(), alive);
        if alive.contains(s.last().pid) {
            pre.push(s.last())
        } else {
            pre
        }
    }
}

proof fn lemma_validated_sound(s: Seq<ProcessInfo>, alive: Seq<i32>)
    ensures
        spec_validated(s, alive).len() <= s.len(),
        snapshot_wf(s) ==> snapshot_wf(spec_validated(s, alive)),
        forall|p: u16|
            crate::types::seq_has_port(spec_validated(s, alive), p)
                ==> crate::types::seq_has_port(s, p),
    decreases s.len(),
{
    if s.len() > 0 {
        let pre = s.drop_last();
        lemma_validated_sound(pre, alive);
        let kept = spec_validated(pre, alive);
        assert forall|p: u16| crate::types::seq_has_port(kept, p) implies crate::types::seq_has_port(
            s,
            p,
        ) by {
            assert(crate::types::seq_has_port(pre, p));
            let k = choose|k: int| 0 <= k < pre.len() && pre[k].port == p;
            assert(s[k].port == p);
        }
        if alive.contains(s.last().pid) {
            let out = kept.push(s.last());
            if snapshot_wf(s) {
                assert(snapshot_wf(pre));
                assert forall|i: int, j: int| 0 <= i < j < out.len() implies out[i].port != out[
                    j
                ].port by {
                    if j < out.len() - 1 {
                        assert(kept[i].port != kept[j].port);
                    } else {
                        if out[i].port == out[j].port {
                            assert(crate::types::seq_has_port(kept, out[j].port));
                            assert(crate::types::seq_has_port(pre, out[j].port));
                            let k = choose|k: int|
                                0 <= k < pre.len() && pre[k].port == out[j].port;
                            assert(s[k].port == s[s.len() - 1].port);
                        }
                    }
                }
            }
            assert forall|p: u16| crate::types::seq_has_port(out, p) implies crate::types::seq_has_port(
                s,
                p,
            ) by {
                let k = choose|k: int| 0 <= k < out.len() && out[k].port == p;
                if k < out.len() - 1 {
                    assert(crate::types::seq_has_port(kept, p));
                } else {
                    assert(s[s.len() - 1].port == p);
                }
            }
        }
    }
}

/// Validation before publish: every candidate pid is re-checked against
/// the liveness report and records no longer alive are dropped. The
/// published count can only shrink: it never exceeds the raw scanned
/// count.
pub fn validate_snapshot(snap: &Snapshot, alive_pids: &Vec<i32>) -> (r: Snapshot)
    requires
        snap.wf(),
    ensures
        r.wf(),
        r@ == spec_validated(snap@, alive_pids@),
        r@.len() <= snap@.len(),
{
    let ghost orig = snap@;
    let recs = snap.records();
    let mut kept: Vec<ProcessInfo> = Vec::new();
    let mut i: usize = 0;
    while i < recs.len()
        invariant
            0 <= i <= recs@.len(),
            recs@ == orig,
            snapshot_wf(orig),
            kept@ == spec_validated(orig.take(i as int), alive_pids@),
            kept@.len() <= i,
        decreases recs.len() - i,
    {
        proof {
            assert(orig.take(i + 1).drop_last() =~= orig.take(i as int));
            assert(orig.take(i + 1).last() == orig[i as int]);
        }
        if crate::scan::vec_contains_i32(alive_pids, recs[i].pid) {
            kept.push(recs[i].clone());
        }
        i = i + 1;
    }
    proof {
        assert(orig.take(orig.len() as int) =~= orig);
        lemma_validated_sound(orig, alive_pids@);
    }
    Snapshot::from_distinct_records(kept)
}

/// Whether two snapshots agree by count and pid identity on each port, in
/// order: the comparison the scheduler makes against the last published
/// view.
pub open spec fn spec_snapshots_match(a: Seq<ProcessInfo>, b: Seq<ProcessInfo>) -> bool {
    a.len() == b.len() && forall|k: int|
        0 <= k < a.len() ==> (#[trigger] a[k]).port == b[k].port && a[k].pid == b[k].pid
}

/// Compares a snapshot against the last published one by count and pid
/// identity.
pub fn snapshots_match(a: &Snapshot, b: &Snapshot) -> (r: bool)
    ensures
        r == spec_snapshots_match(a@, b@),
{
    let ar = a.records();
    let br = b.records();
    if ar.len() != br.len() {
        return false;
    }
    let mut i: usize = 0;
    while i < ar.len()
        invariant
            0 <= i <= ar@.len(),
            ar@.len() == br@.len(),
            ar@ == a@,
            br@ == b@,
            forall|k: int|
                0 <= k < i ==> (#[trigger] a@[k]).port == b@[k].port && a@[k].pid == b@[k].pid,
        decreases ar.len() - i,
    {
        if ar[i].port != br[i].port || ar[i].pid != br[i].pid {
            return false;
        }
        i = i + 1;
    }
    true
}

/// Where a view replacement stands. A published view must be fully
/// detached from the display layer and a settling delay observed before
/// the new view is attached — never swapped in place.
#[derive(Debug, Clone, Copy, PartialEq, Eq, Structural)]
pub enum ViewPhase {
    /// The old view is attached and live.
    Live,
    /// The old view has been detached; nothing is attached.
    Detached,
    /// The settling delay has been observed; attaching may proceed.
    Settled,
}

/// The replacement of a published view, step by step.
pub struct ViewRebuild {
    phase: ViewPhase,
}

impl ViewRebuild {
    /// Where the replacement stands.
    pub closed spec fn spec_phase(&self) -> ViewPhase {
        self.phase
    }

    /// A replacement that has not begun: the old view is live.
    pub fn new() -> (r: ViewRebuild)
        ensures
            r.spec_phase() == ViewPhase::Live,
    {
        ViewRebuild { phase: ViewPhase::Live }
    }

    /// Records that the old view was fully detached from the display
    /// layer. Only a live view can be detached.
    pub fn detach_old(&mut self)
        requires
            old(self).spec_phase() == ViewPhase::Live,
        ensures
            final(self).spec_phase() == ViewPhase::Detached,
    {
        self.phase = ViewPhase::Detached;
    }

    /// Records that the settling delay was observed after the detach.
    pub fn settle(&mut self)
        requires
            old(self).spec_phase() == ViewPhase::Detached,
        ensures
            final(self).spec_phase() == ViewPhase::Settled,
    {
        self.phase = ViewPhase::Settled;
    }

    /// Records that the new view was attached; the replacement is
    /// complete and the new view is live. Attaching demands a full detach
    /// and the settling delay first.
    pub fn attach_new(&mut self)
        requires
            old(self).spec_phase() == ViewPhase::Settled,
        ensures
            final(self).spec_phase() == ViewPhase::Live,
    {
        self.phase = ViewPhase::Live;
    }
}

/// The icon a tray shows for a process count: green for none, orange for
/// one to nine, red for more.
pub fn tray_icon_name(process_count: usize) -> (r: String)
    ensures
        process_count == 0 ==> r@ == "port-kill-green"@,
        1 <= process_count <= 9 ==> r@ == "port-kill-orange"@,
        process_count > 9 ==> r@ == "port-kill-red"@,
{
    if process_count == 0 {
        "port-kill-green".to_owned()
    } else if process_count <= 9 {
        "port-kill-orange".to_owned()
    } else {
        "port-kill-red".to_owned()
    }
}

/// The tray title for a process count.
pub fn tray_title(process_count: usize) -> (r: String)
    ensures
        process_count == 0 ==> r@ == "Port Kill - No processes detected"@,
        process_count == 1 ==> r@ == "Port Kill - 1 process running"@,
        process_count > 1 ==> r@ == "Port Kill - "@ + crate::dec_digits(process_count as nat)
            + " processes running"@,
{
    if process_count == 0 {
        "Port Kill - No processes detected".to_owned()
    } else if process_count == 1 {
        "Port Kill - 1 process running".to_owned()
    } else {
        let mut t = "Port Kill - ".to_owned();
        crate::push_decimal(&mut t, process_count as u64);
        t.append(" processes running");
        t
    }
}

/// One external view item bound to the port it controls.
#[derive(Debug)]
pub struct MenuBinding {
    pub menu_id: String,
    pub port: u16,
}

/// The port bound to a view-item identifier: the first binding that
/// matches.
pub open spec fn spec_port_for_menu_id(bindings: Seq<MenuBinding>, id: Seq<char>) -> Option<u16>
    decreases bindings.len(),
{
    if bindings.len() == 0 {
        None
    } else if bindings[0].menu_id@ == id {
        Some(bindings[0].port)
    } else {
        spec_port_for_menu_id(bindings.skip(1), id)
    }
}

/// The published view: the last published snapshot and the mapping from
/// view-item identifiers to ports. The two are mutable shared state; the
/// embedding program holds them behind one lock and replaces them only
/// through `replace`, as a unit, so a reader always sees a self-consistent
/// pair.
#[derive(Debug)]
pub struct PublishedView {
    snapshot: Snapshot,
    bindings: Vec<MenuBinding>,
}

impl PublishedView {
    /// The published records.
    pub closed spec fn spec_snapshot(&self) -> Seq<ProcessInfo> {
        self.snapshot@
    }

    /// The published bindings.
    pub closed spec fn spec_bindings(&self) -> Seq<MenuBinding> {
        self.bindings@
    }

    /// An empty view: nothing published, nothing bound.
    pub fn new() -> (r: PublishedView)
        ensures
            r.spec_snapshot() == Seq::<ProcessInfo>::empty(),
            r.spec_bindings() == Seq::<MenuBinding>::empty(),
    {
        let r = PublishedView { snapshot: Snapshot::new(), bindings: Vec::new() };
        proof {
            assert(r.spec_snapshot() =~= Seq::<ProcessInfo>::empty());
            assert(r.spec_bindings() =~= Seq::<MenuBinding>::empty());
        }
        r
    }

    /// Replaces the snapshot and the bindings together — never one
    /// without the other.
    pub fn replace(&mut self, snapshot: Snapshot, bindings: Vec<MenuBinding>)
        ensures
            final(self).spec_snapshot() == snapshot@,
            final(self).spec_bindings() == bindings@,
    {
        self.snapshot = snapshot;
        self.bindings = bindings;
    }

    /// The published snapshot.
    pub fn snapshot(&self) -> (r: &Snapshot)
        ensures
            r@ == self.spec_snapshot(),
    {
        &self.snapshot
    }

    /// Resolves a view-item identifier to its port, where one is bound.
    pub fn port_for_menu_id(&self, id: &str) -> (r: Option<u16>)
        ensures
            r == spec_port_for_menu_id(self.spec_bindings(), id@),
    {
        let mut i: usize = 0;
        proof {
            assert(self.bindings@.skip(0) =~= self.bindings@);
        }
        while i < self.bindings.len()
            invariant
                0 <= i <= self.bindings@.len(),
                spec_port_for_menu_id(self.bindings@, id@) == spec_port_for_menu_id(
                    self.bindings@.skip(i as int),
                    id@,
                ),
            decreases self.bindings@.len() - i,
        {
            proof {
                assert(self.bindings@.skip(i as int)[0] == self.bindings@[i as int]);
                assert(self.bindings@.skip(i as int).skip(1) =~= self.bindings@.skip(i + 1));
            }
            if crate::text::str_eq(self.bindings[i].menu_id.as_str(), id) {
                return Some(self.bindings[i].port);
            }
            i = i + 1;
        }
        proof {
            assert(self.bindings@.skip(i as int) =~= Seq::<MenuBinding>::empty());
        }
        None
    }
}

/// `x` inserted into a port-sorted run, after any record with the same
/// port.
pub open spec fn insert_by_port(s: Seq<ProcessInfo>, x: ProcessInfo) -> Seq<ProcessInfo>
    decreases s.len(),
{
    if s.len() == 0 {
        seq![x]
    } else if x.port < s[0].port {
        seq![x] + s
    } else {
        seq![s[0]] + insert_by_port(s.skip(1), x)
    }
}

/// The records sorted by port, stably: the menu order.
pub open spec fn spec_sorted_by_port(s: Seq<ProcessInfo>) -> Seq<ProcessInfo>
    decreases s.len(),
{
    if s.len() == 0 {
        s
    } else {
        insert_by_port(spec_sorted_by_port(s.drop_last()), s.last())
    }
}

proof fn lemma_insert_by_port_at(s: Seq<ProcessInfo>, x: ProcessInfo, i: int)
    requires
        0 <= i <= s.len(),
        forall|k: int| 0 <= k < i ==> !(x.port < (#[trigger] s[k]).port),
        i < s.len() ==> x.port < s[i].port,
    ensures
        insert_by_port(s, x) == s.take(i) + seq![x] + s.skip(i),
    decreases i,
{
    if i == 0 {
        if s.len() == 0 {
            assert(insert_by_port(s, x) =~= s.take(0) + seq![x] + s.skip(0));
        } else {
            assert(insert_by_port(s, x) =~= s.take(0) + seq![x] + s.skip(0));
        }
    } else {
        assert(!(x.port < s[0].port));
        assert(forall|k: int| 0 <= k < i - 1 ==> !(x.port < (#[trigger] s.skip(1)[k]).port));
        lemma_insert_by_port_at(s.skip(1), x, i - 1);
        assert(seq![s[0]] + (s.skip(1).take(i - 1) + seq![x] + s.skip(1).skip(i - 1)) =~= s.take(
            i,
        ) + seq![x] + s.skip(i));
    }
}

/// Sorts a snapshot's records by port for a consistent menu ordering.
pub fn sorted_by_port(snap: &Snapshot) -> (r: Vec<ProcessInfo>)
    ensures
        r@ == spec_sorted_by_port(snap@),
{
    let recs = snap.records();
    let mut out: Vec<ProcessInfo> = Vec::new();
    let mut i: usize = 0;
    while i < recs.len()
        invariant
            0 <= i <= recs@.len(),
            recs@ == snap@,
            out@ == spec_sorted_by_port(snap@.take(i as int)),
        decreases recs@.len() - i,
    {
        proof {
            assert(snap@.take(i + 1).drop_last() =~= snap@.take(i as int));
            assert(snap@.take(i + 1).last() == snap@[i as int]);
        }
        let rec = recs[i].clone();
        let mut p: usize = 0;
        while p < out.len() && !(rec.port < out[p].port)
            invariant
                0 <= p <= out@.len(),
                forall|k: int| 0 <= k < p ==> !(rec.port < (#[trigger] out@[k]).port),
            decreases out@.len() - p,
        {
            p = p + 1;
        }
        proof {
            lemma_insert_by_port_at(out@, rec, p as int);
        }
        out.insert(p, rec);
        proof {
            assert(out@ =~= spec_sorted_by_port(snap@.take(i as int)).take(p as int) + seq![
                snap@[i as int],
            ] + spec_sorted_by_port(snap@.take(i as int)).skip(p as int));
        }
        i = i + 1;
    }
    proof {
        assert(snap@.take(snap@.len() as int) =~= snap@);
    }
    out
}

/// The label of one menu item: the port and the process name, with
/// command line, pid and working directory added as the flags ask.
pub open spec fn spec_menu_label(r: crate::types::ProcessModel, show_pid: bool, verbose: bool) -> Seq<char> {
    "Port "@ + crate::dec_digits(r.port as nat) + ": "@ + r.name + (if verbose {
        (match r.command_line {
            Some(cl) => " ("@ + cl + ")"@,
            None => Seq::<char>::empty(),
        }) + (if show_pid {
            " (PID "@ + crate::dec_digits(r.pid as nat) + ")"@
        } else {
            Seq::<char>::empty()
        }) + (match r.working_directory {
            Some(wd) => " - "@ + wd,
            None => Seq::<char>::empty(),
        })
    } else if show_pid {
        " (PID "@ + crate::dec_digits(r.pid as nat) + ")"@
    } else {
        Seq::<char>::empty()
    })
}

/// Builds the label of one menu item.
#[verifier::rlimit(60)]
pub fn menu_label(rec: &ProcessInfo, show_pid: bool, verbose: bool) -> (r: String)
    requires
        rec.pid >= 0,
    ensures
        r@ == spec_menu_label(rec.model(), show_pid, verbose),
{
    let mut out = "Port ".to_owned();
    crate::push_decimal(&mut out, rec.port as u64);
    out.append(": ");
    out.append(rec.name.as_str());
    if verbose {
        if let Some(cl) = &rec.command_line {
            out.append(" (");
            out.append(cl.as_str());
            out.append(")");
        }
        if show_pid {
            out.append(" (PID ");
            crate::push_decimal(&mut out, rec.pid as u64);
            out.append(")");
        }
        if let Some(wd) = &rec.working_directory {
            out.append(" - ");
            out.append(wd.as_str());
        }
    } else if show_pid {
        out.append(" (PID ");
        crate::push_decimal(&mut out, rec.pid as u64);
        out.append(")");
    }
    out
}

} // verus!
