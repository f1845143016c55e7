//! The filter: rule-based visibility decisions over process records.
//!
//! A rule set holds ignored ports, ignored process names, ignored
//! glob-style name patterns, ignored groups, and an optional allow-list of
//! groups. A record is ignored as soon as any rule matches. Patterns are
//! anchored to the whole name: `*` stands for any run of characters and `?`
//! for any single character.

use vstd::prelude::*;

use crate::text;
use crate::types::{snapshot_wf, ProcessInfo, ProcessModel, Snapshot};

verus! {

/// Whether the anchored glob pattern `p` matches all of `s`: `*` matches
/// any run of characters, `?` any single character, anything else itself.
pub open spec fn glob_match(p: Seq<char>, s: Seq<char>) -> bool
    decreases p.len() + s.len(),
{
    if p.len() == 0 {
        s.len() == 0
    } else if p[0] == '*' {
        glob_match(p.skip(1), s) || (s.len() > 0 && glob_match(p, s.skip(1)))
    } else {
        s.len() > 0 && (p[0] == '?' || p[0] == s[0]) && glob_match(p.skip(1), s.skip(1))
    }
}

fn glob_match_at(p: &str, pi: usize, s: &str, si: usize) -> (r: bool)
    requires
        pi <= p@.len(),
        si <= s@.len(),
    ensures
        r == glob_match(p@.skip(pi as int), s@.skip(si as int)),
    decreases p@.len() + s@.len() - pi - si,
{
    let plen = p.unicode_len();
    let slen = s.unicode_len();
    let ghost pv = p@.skip(pi as int);
    let ghost sv = s@.skip(si as int);
    if pi == plen {
        assert(pv.len() == 0);
        return si == slen;
    }
    let pc = p.get_char(pi);
    assert(pv[0] == pc);
    proof {
        assert(pv.skip(1) =~= p@.skip(pi + 1));
        assert(sv.len() > 0 ==> sv.skip(1) =~= s@.skip(si + 1));
    }
    if pc == '*' {
        if glob_match_at(p, pi + 1, s, si) {
            true
        } else if si < slen {
            glob_match_at(p, pi, s, si + 1)
        } else {
            false
        }
    } else {
        if si == slen {
            assert(sv.len() == 0);
            false
        } else {
            let sc = s.get_char(si);
            assert(sv[0] == sc);
            if pc == '?' || pc == sc {
                glob_match_at(p, pi + 1, s, si + 1)
            } else {
                false
            }
        }
    }
}

/// Whether the anchored glob pattern matches the whole of `s`.
pub fn glob_matches(pattern: &str, s: &str) -> (r: bool)
    ensures
        r == glob_match(pattern@, s@),
{
    proof {
        assert(pattern@.skip(0) =~= pattern@);
        assert(s@.skip(0) =~= s@);
    }
    glob_match_at(pattern, 0, s, 0)
}

/// The mathematical model of a rule set.
pub ghost struct FilterModel {
    pub ignore_ports: Seq<u16>,
    pub ignore_processes: Seq<Seq<char>>,
    pub ignore_patterns: Seq<Seq<char>>,
    pub ignore_groups: Seq<Seq<char>>,
    pub only_groups: Option<Seq<Seq<char>>>,
}

/// Whether some pattern of `ps` matches the record's name or raw command.
pub open spec fn some_pattern_matches(ps: Seq<Seq<char>>, r: ProcessModel) -> bool {
    exists|k: int|
        0 <= k < ps.len() && (glob_match(#[trigger] ps[k], r.name) || glob_match(ps[k], r.command))
}

/// Whether a rule set ignores a record: its port is ignored, or its name is
/// ignored, or a pattern matches its name or command, or its group is
/// ignored, or an allow-list of groups is present and the record's group is
/// absent or not in it. A record that no rule matches is visible.
pub open spec fn spec_should_ignore(f: FilterModel, r: ProcessModel) -> bool {
    f.ignore_ports.contains(r.port) || f.ignore_processes.contains(r.name)
        || some_pattern_matches(f.ignore_patterns, r) || (match r.process_group {
        Some(g) => f.ignore_groups.contains(g),
        None => false,
    }) || (match f.only_groups {
        Some(og) => match r.process_group {
            Some(g) => !og.contains(g),
            None => true,
        },
        None => false,
    })
}

/// A reason a rule set could not be built. The glob engine accepts every
/// pattern, so construction in fact always succeeds; the type remains for
/// callers that treat construction as fallible.
#[derive(Debug, Clone, Copy, PartialEq, Eq, Structural)]
pub enum FilterError {
    /// A name pattern could not be compiled.
    InvalidPattern,
}

/// A compiled rule set.
pub struct SmartFilter {
    ignore_ports: Vec<u16>,
    ignore_processes: Vec<String>,
    ignore_patterns: Vec<String>,
    ignore_groups: Vec<String>,
    only_groups: Option<Vec<String>>,
}

impl SmartFilter {
    /// The rule set's mathematical model.
    pub closed spec fn model(&self) -> FilterModel {
        FilterModel {
            ignore_ports: self.ignore_ports@,
            ignore_processes: self.ignore_processes.deep_view(),
            ignore_patterns: self.ignore_patterns.deep_view(),
            ignore_groups: self.ignore_groups.deep_view(),
            only_groups: match self.only_groups {
                Some(og) => Some(og.deep_view()),
                None => None,
            },
        }
    }

    /// Builds a rule set. Every glob pattern is admissible, so this always
    /// succeeds; a failure would be a construction error, not a per-record
    /// error.
    pub fn new(
        ignore_ports: Vec<u16>,
        ignore_processes: Vec<String>,
        ignore_patterns: Option<Vec<String>>,
        ignore_groups: Vec<String>,
        only_groups: Option<Vec<String>>,
    ) -> (r: Result<SmartFilter, FilterError>)
        ensures
            r is Ok,
            r->Ok_0.model() == (FilterModel {
                ignore_ports: ignore_ports@,
                ignore_processes: ignore_processes.deep_view(),
                ignore_patterns: match ignore_patterns {
                    Some(ps) => ps.deep_view(),
                    None => Seq::<Seq<char>>::empty(),
                },
                ignore_groups: ignore_groups.deep_view(),
                only_groups: match only_groups {
                    Some(og) => Some(og.deep_view()),
                    None => None,
                },
            }),
    {
        let patterns = match ignore_patterns {
            Some(ps) => ps,
            None => Vec::new(),
        };
        proof {
            assert(patterns.deep_view() =~= (match ignore_patterns {
                Some(ps) => ps.deep_view(),
                None => Seq::<Seq<char>>::empty(),
            }));
        }
        Ok(
            SmartFilter {
                ignore_ports,
                ignore_processes,
                ignore_patterns: patterns,
                ignore_groups,
                only_groups,
            },
        )
    }

    /// Decides whether a record is ignored; rules are checked in order and
    /// the first match wins.
    pub fn should_ignore_process(&self, process_info: &ProcessInfo) -> (r: bool)
        ensures
            r == spec_should_ignore(self.model(), process_info.model()),
    {
        if crate::scan::vec_contains_u16(&self.ignore_ports, process_info.port) {
            return true;
        }
        if text::vec_contains_str(&self.ignore_processes, process_info.name.as_str()) {
            return true;
        }
        let mut k: usize = 0;
        while k < self.ignore_patterns.len()
            invariant
                0 <= k <= self.ignore_patterns@.len(),
                forall|j: int|
                    0 <= j < k ==> !glob_match(
                        #[trigger] self.ignore_patterns.deep_view()[j],
                        process_info.model().name,
                    ) && !glob_match(
                        self.ignore_patterns.deep_view()[j],
                        process_info.model().command,
                    ),
            decreases self.ignore_patterns@.len() - k,
        {
            proof {
                assert(self.ignore_patterns.deep_view()[k as int] == self.ignore_patterns@[
                    k as int
                ]@);
            }
            let pat = self.ignore_patterns[k].as_str();
            if glob_matches(pat, process_info.name.as_str()) || glob_matches(
                pat,
                process_info.command.as_str(),
            ) {
                return true;
            }
            k = k + 1;
        }
        if let Some(g) = &process_info.process_group {
            if text::vec_contains_str(&self.ignore_groups, g.as_str()) {
                return true;
            }
        }
        if let Some(og) = &self.only_groups {
            match &process_info.process_group {
                Some(g) => {
                    if !text::vec_contains_str(og, g.as_str()) {
                        return true;
                    }
                },
                None => {
                    return true;
                },
            }
        }
        false
    }
}

/// The records of `s` that the rule set keeps, in order.
pub open spec fn spec_apply(f: FilterModel, s: Seq<ProcessInfo>) -> Seq<ProcessInfo>
    decreases s.len(),
{
    if s.len() == 0 {
        s
    } else {
        let pre = spec_apply(f, s.drop_last());
        if spec_should_ignore(f, s.last().model()) {
            pre
        } else {
            pre.push(s.last())
        }
    }
}

proof fn lemma_spec_apply_wf(f: FilterModel, s: Seq<ProcessInfo>)
    requires
        snapshot_wf(s),
    ensures
        snapshot_wf(spec_apply(f, s)),
        forall|p: u16|
            crate::types::seq_has_port(spec_apply(f, s), p) ==> crate::types::seq_has_port(s, p),
    decreases s.len(),
{
    if s.len() > 0 {
        let pre = s.drop_last();
        assert(snapshot_wf(pre));
        lemma_spec_apply_wf(f, pre);
        let kept = spec_apply(f, pre);
        assert forall|p: u16| crate::types::seq_has_port(kept, p) implies crate::types::seq_has_port(
            s,
            p,
        ) by {
            assert(crate::types::seq_has_port(pre, p));
            let k = choose|k: int| 0 <= k < pre.len() && pre[k].port == p;
            assert(s[k].port == p);
        }
        if !spec_should_ignore(f, s.last().model()) {
            let out = kept.push(s.last());
            assert forall|i: int, j: int| 0 <= i < j < out.len() implies out[i].port != out[
                j
            ].port by {
                if j < out.len() - 1 {
                    assert(kept[i].port != kept[j].port);
                } else {
                    if crate::types::seq_has_port(pre, out[j].port) {
                        let k = choose|k: int|
                            0 <= k < pre.len() && pre[k].port == out[j].port;
                        assert(s[k].port == s[s.len() - 1].port);
                        assert(false);
                    }
                    if out[i].port == out[j].port {
                        assert(kept[i].port == out[j].port);
                        assert(crate::types::seq_has_port(pre, out[j].port));
                    }
                }
            }
            assert forall|p: u16| crate::types::seq_has_port(out, p) implies crate::types::seq_has_port(
                s,
                p,
            ) by {
                let k = choose|k: int| 0 <= k < out.len() && out[k].port == p;
                if k < out.len() - 1 {
                    assert(crate::types::seq_has_port(kept, p));
                } else {
                    assert(s[s.len() - 1].port == p);
                }
            }
        }
    }
}

impl SmartFilter {
    /// Removes the ignored records from a snapshot, keeping the rest in
    /// order.
    pub fn filter_processes(&self, processes: &mut Snapshot)
        requires
            old(processes).wf(),
        ensures
            final(processes).wf(),
            final(processes)@ == spec_apply(self.model(), old(processes)@),
    {
        let ghost orig = processes@;
        let recs = processes.records();
        let mut kept: Vec<ProcessInfo> = Vec::new();
        let mut i: usize = 0;
        while i < recs.len()
            invariant
                0 <= i <= recs@.len(),
                recs@ == orig,
                snapshot_wf(orig),
                kept@ == spec_apply(self.model(), orig.take(i as int)),
            decreases recs.len() - i,
        {
            proof {
                assert(orig.take(i + 1).drop_last() =~= orig.take(i as int));
                assert(orig.take(i + 1).last() == orig[i as int]);
            }
            if !self.should_ignore_process(&recs[i]) {
                kept.push(recs[i].clone());
            }
            i = i + 1;
        }
        proof {
            assert(orig.take(orig.len() as int) =~= orig);
            lemma_spec_apply_wf(self.model(), orig);
        }
        *processes = Snapshot::from_distinct_records(kept);
    }

    /// Counts the rules in force.
    pub fn get_filter_stats(&self) -> (r: FilterStats)
        ensures
            r.ignore_ports_count == self.model().ignore_ports.len(),
            r.ignore_processes_count == self.model().ignore_processes.len(),
            r.ignore_patterns_count == self.model().ignore_patterns.len(),
            r.ignore_groups_count == self.model().ignore_groups.len(),
            r.only_groups_count == (match self.model().only_groups {
                Some(og) => og.len(),
                None => 0,
            }),
    {
        FilterStats {
            ignore_ports_count: self.ignore_ports.len(),
            ignore_processes_count: self.ignore_processes.len(),
            ignore_patterns_count: self.ignore_patterns.len(),
            ignore_groups_count: self.ignore_groups.len(),
            only_groups_count: match &self.only_groups {
                Some(og) => og.len(),
                None => 0,
            },
        }
    }
}

/// How many rules of each kind a rule set holds.
#[derive(Debug, Clone, Copy)]
pub struct FilterStats {
    pub ignore_ports_count: usize,
    pub ignore_processes_count: usize,
    pub ignore_patterns_count: usize,
    pub ignore_groups_count: usize,
    pub only_groups_count: usize,
}

/// The counts joined into the description's rule list.
pub open spec fn spec_stats_parts(s: FilterStats) -> Seq<Seq<char>> {
    (if s.ignore_ports_count > 0 {
        seq![crate::dec_digits(s.ignore_ports_count as nat) + " ports"@]
    } else {
        Seq::<Seq<char>>::empty()
    }) + (if s.ignore_processes_count > 0 {
        seq![crate::dec_digits(s.ignore_processes_count as nat) + " processes"@]
    } else {
        Seq::<Seq<char>>::empty()
    }) + (if s.ignore_patterns_count > 0 {
        seq![crate::dec_digits(s.ignore_patterns_count as nat) + " patterns"@]
    } else {
        Seq::<Seq<char>>::empty()
    }) + (if s.ignore_groups_count > 0 {
        seq![crate::dec_digits(s.ignore_groups_count as nat) + " groups"@]
    } else {
        Seq::<Seq<char>>::empty()
    }) + (if s.only_groups_count > 0 {
        seq![crate::dec_digits(s.only_groups_count as nat) + " only-groups"@]
    } else {
        Seq::<Seq<char>>::empty()
    })
}

/// The description's text: the joined rule list, or a fixed phrase when no
/// rule is in force.
pub open spec fn spec_stats_description(s: FilterStats) -> Seq<char> {
    if spec_stats_parts(s).len() == 0 {
        "no filters"@
    } else {
        "filtering: "@ + text::join_with(spec_stats_parts(s), ", "@)
    }
}

impl FilterStats {
    /// Whether any rule is in force.
    pub fn is_active(&self) -> (r: bool)
        ensures
            r == (self.ignore_ports_count > 0 || self.ignore_processes_count > 0
                || self.ignore_patterns_count > 0 || self.ignore_groups_count > 0
                || self.only_groups_count > 0),
    {
        self.ignore_ports_count > 0 || self.ignore_processes_count > 0
            || self.ignore_patterns_count > 0 || self.ignore_groups_count > 0
            || self.only_groups_count > 0
    }

    /// Describes the rules in force.
    #[verifier::rlimit(100)]
    pub fn get_description(&self) -> (r: String)
        ensures
            r@ == spec_stats_description(*self),
    {
        let mut parts: Vec<String> = Vec::new();
        if self.ignore_ports_count > 0 {
            let mut t = crate::decimal_string(self.ignore_ports_count as u64);
            t.append(" ports");
            parts.push(t);
        }
        if self.ignore_processes_count > 0 {
            let mut t = crate::decimal_string(self.ignore_processes_count as u64);
            t.append(" processes");
            parts.push(t);
        }
        if self.ignore_patterns_count > 0 {
            let mut t = crate::decimal_string(self.ignore_patterns_count as u64);
            t.append(" patterns");
            parts.push(t);
        }
        if self.ignore_groups_count > 0 {
            let mut t = crate::decimal_string(self.ignore_groups_count as u64);
            t.append(" groups");
            parts.push(t);
        }
        if self.only_groups_count > 0 {
            let mut t = crate::decimal_string(self.only_groups_count as u64);
            t.append(" only-groups");
            parts.push(t);
        }
        proof {
            assert(parts.deep_view() =~~= spec_stats_parts(*self));
        }
        if parts.len() == 0 {
            "no filters".to_owned()
        } else {
            let mut out = "filtering: ".to_owned();
            let joined = text::join_strings(&parts, ", ");
            out.append(joined.as_str());
            out
        }
    }
}

/// Adding a rule to any ignore list can only add records to the ignored
/// set, never remove: a record that `f1` ignores is also ignored by any
/// `f2` that keeps every rule of `f1`, provided the allow-list of groups is
/// unchanged or newly introduced. (Widening an existing allow-list makes
/// records visible, so that case is excluded.)
pub proof fn lemma_should_ignore_monotonic(f1: FilterModel, f2: FilterModel, r: ProcessModel)
    requires
        forall|p: u16| f1.ignore_ports.contains(p) ==> f2.ignore_ports.contains(p),
        forall|n: Seq<char>| f1.ignore_processes.contains(n) ==> f2.ignore_processes.contains(n),
        forall|p: Seq<char>| f1.ignore_patterns.contains(p) ==> f2.ignore_patterns.contains(p),
        forall|g: Seq<char>| f1.ignore_groups.contains(g) ==> f2.ignore_groups.contains(g),
        f1.only_groups == f2.only_groups || f1.only_groups is None,
        spec_should_ignore(f1, r),
    ensures
        spec_should_ignore(f2, r),
{
    if f1.ignore_ports.contains(r.port) {
        assert(f2.ignore_ports.contains(r.port));
    } else if f1.ignore_processes.contains(r.name) {
        assert(f2.ignore_processes.contains(r.name));
    } else if some_pattern_matches(f1.ignore_patterns, r) {
        let k = choose|k: int|
            0 <= k < f1.ignore_patterns.len() && (glob_match(
                #[trigger] f1.ignore_patterns[k],
                r.name,
            ) || glob_match(f1.ignore_patterns[k], r.command));
        assert(f1.ignore_patterns.contains(f1.ignore_patterns[k]));
        assert(f2.ignore_patterns.contains(f1.ignore_patterns[k]));
        let j = choose|j: int|
            0 <= j < f2.ignore_patterns.len() && f2.ignore_patterns[j] == f1.ignore_patterns[k];
        assert(some_pattern_matches(f2.ignore_patterns, r));
    } else if r.process_group is Some && f1.ignore_groups.contains(r.process_group->0) {
        assert(f2.ignore_groups.contains(r.process_group->0));
    } else {
        assert(f1.only_groups is Some);
    }
}

} // verus!
