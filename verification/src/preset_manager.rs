//! Port presets: named port-set configurations and the manager that keeps
//! them sorted by name.
//!
//! Reading and writing the preset file is the embedding program's work;
//! the manager holds the presets, merges user presets over the defaults,
//! and renders the listing.

use vstd::prelude::*;

use crate::text;

verus! {

/// A named port-set configuration.
#[derive(Debug)]
pub struct PortPreset {
    /// Name of the preset.
    pub name: String,
    /// Description of what this preset is for.
    pub description: String,
    /// The ports to monitor.
    pub ports: Vec<u16>,
    /// Ports to ignore.
    pub ignore_ports: Option<Vec<u16>>,
    /// Process names to ignore.
    pub ignore_processes: Option<Vec<String>>,
    /// Name patterns to ignore; `*` and `?` wildcards are understood.
    pub ignore_patterns: Option<Vec<String>>,
    /// Process groups to ignore.
    pub ignore_groups: Option<Vec<String>>,
    /// Only show processes from these groups.
    pub only_groups: Option<Vec<String>>,
    /// Enable smart filtering.
    pub smart_filter: bool,
    /// Enable container monitoring.
    pub docker: bool,
    /// Show process ids.
    pub show_pid: bool,
    /// Enable performance metrics.
    pub performance: bool,
    /// Show project context.
    pub show_context: bool,
}

fn clone_vec_u16(v: &Vec<u16>) -> (r: Vec<u16>)
    ensures
        r@ == v@,
{
    let mut out: Vec<u16> = Vec::new();
    let mut i: usize = 0;
    while i < v.len()
        invariant
            0 <= i <= v@.len(),
            out@ =~= v@.take(i as int),
        decreases v.len() - i,
    {
        out.push(v[i]);
        i = i + 1;
    }
    assert(out@ =~= v@);
    out
}

fn clone_vec_string(v: &Vec<String>) -> (r: Vec<String>)
    ensures
        r@ == v@,
{
    let mut out: Vec<String> = Vec::new();
    let mut i: usize = 0;
    while i < v.len()
        invariant
            0 <= i <= v@.len(),
            out@ =~= v@.take(i as int),
        decreases v.len() - i,
    {
        out.push(v[i].clone());
        i = i + 1;
    }
    assert(out@ =~= v@);
    out
}

fn clone_opt_vec_u16(v: &Option<Vec<u16>>) -> (r: Option<Vec<u16>>)
    ensures
        r.deep_view() == v.deep_view(),
{
    match v {
        Some(x) => Some(clone_vec_u16(x)),
        None => None,
    }
}

fn clone_opt_vec_string(v: &Option<Vec<String>>) -> (r: Option<Vec<String>>)
    ensures
        r.deep_view() == v.deep_view(),
{
    match v {
        Some(x) => {
            let c = clone_vec_string(x);
            proof {
                assert(c.deep_view() =~= x.deep_view());
            }
            Some(c)
        },
        None => None,
    }
}

impl Clone for PortPreset {
    fn clone(&self) -> (r: Self)
        ensures
            r.name == self.name,
            r.description == self.description,
            r.ports@ == self.ports@,
            r.ignore_ports.deep_view() == self.ignore_ports.deep_view(),
            r.ignore_processes.deep_view() == self.ignore_processes.deep_view(),
            r.ignore_patterns.deep_view() == self.ignore_patterns.deep_view(),
            r.ignore_groups.deep_view() == self.ignore_groups.deep_view(),
            r.only_groups.deep_view() == self.only_groups.deep_view(),
            r.smart_filter == self.smart_filter,
            r.docker == self.docker,
            r.show_pid == self.show_pid,
            r.performance == self.performance,
            r.show_context == self.show_context,
    {
        PortPreset {
            name: self.name.clone(),
            description: self.description.clone(),
            ports: clone_vec_u16(&self.ports),
            ignore_ports: clone_opt_vec_u16(&self.ignore_ports),
            ignore_processes: clone_opt_vec_string(&self.ignore_processes),
            ignore_patterns: clone_opt_vec_string(&self.ignore_patterns),
            ignore_groups: clone_opt_vec_string(&self.ignore_groups),
            only_groups: clone_opt_vec_string(&self.only_groups),
            smart_filter: self.smart_filter,
            docker: self.docker,
            show_pid: self.show_pid,
            performance: self.performance,
            show_context: self.show_context,
        }
    }
}

impl PortPreset {
    /// A preset with the given name, description and ports, and nothing
    /// else set.
    pub fn new(name: String, description: String, ports: Vec<u16>) -> (r: PortPreset)
        ensures
            r.name == name,
            r.description == description,
            r.ports == ports,
            r.ignore_ports is None,
            r.ignore_processes is None,
            r.ignore_patterns is None,
            r.ignore_groups is None,
            r.only_groups is None,
            !r.smart_filter,
            !r.docker,
            !r.show_pid,
            !r.performance,
            !r.show_context,
    {
        PortPreset {
            name,
            description,
            ports,
            ignore_ports: None,
            ignore_processes: None,
            ignore_patterns: None,
            ignore_groups: None,
            only_groups: None,
            smart_filter: false,
            docker: false,
            show_pid: false,
            performance: false,
            show_context: false,
        }
    }

    /// A preset with ignore settings.
    pub fn with_ignores(
        name: String,
        description: String,
        ports: Vec<u16>,
        ignore_ports: Option<Vec<u16>>,
        ignore_processes: Option<Vec<String>>,
        ignore_patterns: Option<Vec<String>>,
        ignore_groups: Option<Vec<String>>,
    ) -> (r: PortPreset)
        ensures
            r.name == name,
            r.description == description,
            r.ports == ports,
            r.ignore_ports == ignore_ports,
            r.ignore_processes == ignore_processes,
            r.ignore_patterns == ignore_patterns,
            r.ignore_groups == ignore_groups,
            r.only_groups is None,
            !r.smart_filter,
            !r.docker,
            !r.show_pid,
            !r.performance,
            !r.show_context,
    {
        PortPreset {
            name,
            description,
            ports,
            ignore_ports,
            ignore_processes,
            ignore_patterns,
            ignore_groups,
            only_groups: None,
            smart_filter: false,
            docker: false,
            show_pid: false,
            performance: false,
            show_context: false,
        }
    }

    /// A preset with smart filtering chosen.
    pub fn with_smart_filter(
        name: String,
        description: String,
        ports: Vec<u16>,
        smart_filter: bool,
    ) -> (r: PortPreset)
        ensures
            r.name == name,
            r.description == description,
            r.ports == ports,
            r.ignore_ports is None,
            r.ignore_processes is None,
            r.ignore_patterns is None,
            r.ignore_groups is None,
            r.only_groups is None,
            r.smart_filter == smart_filter,
            !r.docker,
            !r.show_pid,
            !r.performance,
            !r.show_context,
    {
        PortPreset {
            name,
            description,
            ports,
            ignore_ports: None,
            ignore_processes: None,
            ignore_patterns: None,
            ignore_groups: None,
            only_groups: None,
            smart_filter,
            docker: false,
            show_pid: false,
            performance: false,
            show_context: false,
        }
    }
}

/// Whether the presets are strictly sorted by name: each name appears at
/// most once, in lexicographic order.
pub open spec fn presets_sorted(s: Seq<PortPreset>) -> bool {
    forall|i: int, j: int|
        0 <= i < j < s.len() ==> text::str_lt((#[trigger] s[i]).name@, (#[trigger] s[j]).name@)
}

/// The first preset named `n`, where one exists.
pub open spec fn preset_for(s: Seq<PortPreset>, n: Seq<char>) -> Option<PortPreset>
    decreases s.len(),
{
    if s.len() == 0 {
        None
    } else if s[0].name@ == n {
        Some(s[0])
    } else {
        preset_for(s.skip(1), n)
    }
}

/// Looking a name up in concatenated runs finds the first run's entry
/// first.
pub proof fn lemma_preset_for_concat(a: Seq<PortPreset>, b: Seq<PortPreset>, n: Seq<char>)
    ensures
        preset_for(a + b, n) == (match preset_for(a, n) {
            Some(p) => Some(p),
            None => preset_for(b, n),
        }),
    decreases a.len(),
{
    if a.len() == 0 {
        assert(a + b =~= b);
    } else {
        assert((a + b)[0] == a[0]);
        if a[0].name@ != n {
            assert((a + b).skip(1) =~= a.skip(1) + b);
            lemma_preset_for_concat(a.skip(1), b, n);
        }
    }
}

/// Manages the presets, sorted by name.
pub struct PresetManager {
    presets: Vec<PortPreset>,
    config_path: String,
    default_preset_names: Vec<String>,
}

impl PresetManager {
    /// The presets, in name order.
    pub closed spec fn spec_presets(&self) -> Seq<PortPreset> {
        self.presets@
    }

    /// The configured preset-file path.
    pub closed spec fn spec_config_path(&self) -> Seq<char> {
        self.config_path@
    }

    /// The names of the built-in presets.
    pub closed spec fn spec_default_names(&self) -> Seq<Seq<char>> {
        self.default_preset_names.deep_view()
    }

    /// The presets are strictly sorted by name.
    pub open spec fn wf(&self) -> bool {
        presets_sorted(self.spec_presets())
    }

    /// A manager with no presets and the stock relative preset-file path;
    /// the embedding program supplies an absolute path through
    /// `with_config_path`.
    pub fn new() -> (r: PresetManager)
        ensures
            r.wf(),
            r.spec_presets() == Seq::<PortPreset>::empty(),
            r.spec_config_path() == ".port-kill/presets.json"@,
            r.spec_default_names() == Seq::<Seq<char>>::empty(),
    {
        let r = PresetManager {
            presets: Vec::new(),
            config_path: ".port-kill/presets.json".to_owned(),
            default_preset_names: Vec::new(),
        };
        proof {
            assert(r.spec_presets() =~= Seq::<PortPreset>::empty());
            assert(r.spec_default_names() =~~= Seq::<Seq<char>>::empty());
        }
        r
    }

    /// A manager with no presets and the given preset-file path.
    pub fn with_config_path(config_path: String) -> (r: PresetManager)
        ensures
            r.wf(),
            r.spec_presets() == Seq::<PortPreset>::empty(),
            r.spec_config_path() == config_path@,
            r.spec_default_names() == Seq::<Seq<char>>::empty(),
    {
        let r = PresetManager {
            presets: Vec::new(),
            config_path,
            default_preset_names: Vec::new(),
        };
        proof {
            assert(r.spec_presets() =~= Seq::<PortPreset>::empty());
            assert(r.spec_default_names() =~~= Seq::<Seq<char>>::empty());
        }
        r
    }

    /// The preset-file path.
    pub fn get_config_path(&self) -> (r: &str)
        ensures
            r@ == self.spec_config_path(),
    {
        self.config_path.as_str()
    }

    /// The preset named `name`, where one exists.
    pub fn get_preset(&self, name: &str) -> (r: Option<&PortPreset>)
        ensures
            match r {
                Some(p) => preset_for(self.spec_presets(), name@) == Some(*p),
                None => preset_for(self.spec_presets(), name@) is None,
            },
    {
        let mut i: usize = 0;
        proof {
            assert(self.presets@.skip(0) =~= self.presets@);
        }
        while i < self.presets.len()
            invariant
                0 <= i <= self.presets@.len(),
                preset_for(self.presets@, name@) == preset_for(
                    self.presets@.skip(i as int),
                    name@,
                ),
            decreases self.presets@.len() - i,
        {
            proof {
                assert(self.presets@.skip(i as int)[0] == self.presets@[i as int]);
                assert(self.presets@.skip(i as int).skip(1) =~= self.presets@.skip(i + 1));
            }
            if text::str_eq(self.presets[i].name.as_str(), name) {
                return Some(&self.presets[i]);
            }
            i = i + 1;
        }
        proof {
            assert(self.presets@.skip(i as int) =~= Seq::<PortPreset>::empty());
        }
        None
    }

    /// All preset names, in name order.
    pub fn get_preset_names(&self) -> (r: Vec<String>)
        ensures
            r.deep_view() == self.spec_presets().map_values(|p: PortPreset| p.name@),
    {
        let mut out: Vec<String> = Vec::new();
        let mut i: usize = 0;
        while i < self.presets.len()
            invariant
                0 <= i <= self.presets@.len(),
                out.deep_view() =~= self.presets@.take(i as int).map_values(
                    |p: PortPreset| p.name@,
                ),
            decreases self.presets@.len() - i,
        {
            out.push(self.presets[i].name.clone());
            proof {
                assert(self.presets@.take(i + 1).map_values(|p: PortPreset| p.name@) =~= self
                    .presets@.take(i as int).map_values(|p: PortPreset| p.name@).push(
                    self.presets@[i as int].name@,
                ));
                assert(out.deep_view() =~= out.deep_view().drop_last().push(
                    self.presets@[i as int].name@,
                ));
            }
            i = i + 1;
        }
        proof {
            assert(self.presets@.take(self.presets@.len() as int) =~= self.presets@);
        }
        out
    }
}

/// A name none of the presets carries is not found.
proof fn lemma_preset_for_absent(s: Seq<PortPreset>, n: Seq<char>)
    requires
        forall|k: int| 0 <= k < s.len() ==> (#[trigger] s[k]).name@ != n,
    ensures
        preset_for(s, n) is None,
    decreases s.len(),
{
    if s.len() > 0 {
        assert(forall|k: int|
            0 <= k < s.skip(1).len() ==> (#[trigger] s.skip(1)[k]).name@ != n);
        lemma_preset_for_absent(s.skip(1), n);
    }
}

impl PresetManager {
    /// Adds a preset, or replaces the one already carrying its name. The
    /// other presets are untouched.
    pub fn add_preset(&mut self, preset: PortPreset)
        requires
            old(self).wf(),
        ensures
            final(self).wf(),
            preset_for(final(self).spec_presets(), preset.name@) == Some(preset),
            forall|n: Seq<char>|
                n != preset.name@ ==> preset_for(final(self).spec_presets(), n) == preset_for(
                    old(self).spec_presets(),
                    n,
                ),
            final(self).spec_config_path() == old(self).spec_config_path(),
            final(self).spec_default_names() == old(self).spec_default_names(),
    {
        let ghost orig = self.presets@;
        let mut i: usize = 0;
        while i < self.presets.len() && text::str_lt_exec(
            self.presets[i].name.as_str(),
            preset.name.as_str(),
        )
            invariant
                0 <= i <= self.presets@.len(),
                self.presets@ == orig,
                forall|k: int|
                    0 <= k < i ==> text::str_lt((#[trigger] orig[k]).name@, preset.name@),
            decreases self.presets@.len() - i,
        {
            i = i + 1;
        }
        let at_end: bool = i >= self.presets.len();
        assert(at_end || !text::str_lt(orig[i as int].name@, preset.name@));
        let replace: bool = !at_end && text::str_eq(
            self.presets[i].name.as_str(),
            preset.name.as_str(),
        );
        let ghost tail_start: int = if replace {
            i + 1
        } else {
            i as int
        };
        if replace {
            let _old = self.presets.remove(i);
        }
        self.presets.insert(i, preset);
        proof {
            let fin = self.presets@;
            let head = orig.take(i as int);
            let tail = orig.skip(tail_start);
            assert(fin =~= head + (seq![preset] + tail));
            assert(orig.take(i as int) + orig.skip(i as int) =~= orig);
            // every name in the head orders before the new name, every name
            // in the tail after it
            assert forall|k: int| 0 <= k < head.len() implies text::str_lt(
                (#[trigger] head[k]).name@,
                preset.name@,
            ) by {
                assert(head[k] == orig[k]);
            }
            assert forall|k: int| 0 <= k < tail.len() implies text::str_lt(
                preset.name@,
                (#[trigger] tail[k]).name@,
            ) by {
                assert(tail[k] == orig[tail_start + k]);
                if !at_end {
                    if replace {
                        assert(text::str_lt(orig[i as int].name@, orig[tail_start + k].name@));
                        assert(orig[i as int].name@ == preset.name@);
                    } else {
                        text::lemma_str_lt_trichotomy(orig[i as int].name@, preset.name@);
                        if tail_start + k > i {
                            text::lemma_str_lt_transitive(
                                preset.name@,
                                orig[i as int].name@,
                                orig[tail_start + k].name@,
                            );
                        }
                    }
                }
            }
            assert forall|a: int, b: int| 0 <= a < b < fin.len() implies text::str_lt(
                (#[trigger] fin[a]).name@,
                (#[trigger] fin[b]).name@,
            ) by {
                let hl = head.len() as int;
                if a < hl && b < hl {
                    assert(fin[a] == orig[a] && fin[b] == orig[b]);
                } else if a < hl && b == hl {
                    assert(fin[a] == head[a]);
                } else if a < hl && b > hl {
                    assert(fin[a] == head[a] && fin[b] == tail[b - hl - 1]);
                    text::lemma_str_lt_transitive(fin[a].name@, preset.name@, fin[b].name@);
                } else if a == hl {
                    assert(fin[b] == tail[b - hl - 1]);
                } else {
                    assert(fin[a] == tail[a - hl - 1] && fin[b] == tail[b - hl - 1]);
                    assert(orig[tail_start + a - hl - 1].name@ == fin[a].name@);
                }
            }
            // the new name is found at the join point
            assert forall|k: int| 0 <= k < head.len() implies (#[trigger] head[k]).name@
                != preset.name@ by {
                text::lemma_str_lt_trichotomy(head[k].name@, preset.name@);
            }
            lemma_preset_for_absent(head, preset.name@);
            lemma_preset_for_concat(head, seq![preset] + tail, preset.name@);
            assert((seq![preset] + tail)[0] == preset);
            assert(preset_for(seq![preset] + tail, preset.name@) == Some(preset));
            assert(preset_for(fin, preset.name@) == Some(preset));
            // other names look past the new entry unchanged
            assert forall|n: Seq<char>| n != preset.name@ implies preset_for(fin, n) == preset_for(
                orig,
                n,
            ) by {
                lemma_preset_for_concat(head, seq![preset] + tail, n);
                assert((seq![preset] + tail).skip(1) =~= tail);
                assert(preset_for(seq![preset] + tail, n) == preset_for(tail, n));
                lemma_preset_for_concat(head, orig.skip(i as int), n);
                if replace {
                    assert(orig.skip(i as int)[0] == orig[i as int]);
                    assert(orig.skip(i as int).skip(1) =~= orig.skip(i + 1));
                    assert(preset_for(orig.skip(i as int), n) == preset_for(tail, n));
                }
            }
        }
    }

    /// Removes the preset carrying `name`, handing it back; the other
    /// presets are untouched.
    pub fn remove_preset(&mut self, name: &str) -> (r: Option<PortPreset>)
        requires
            old(self).wf(),
        ensures
            final(self).wf(),
            r == preset_for(old(self).spec_presets(), name@),
            preset_for(final(self).spec_presets(), name@) is None,
            forall|n: Seq<char>|
                n != name@ ==> preset_for(final(self).spec_presets(), n) == preset_for(
                    old(self).spec_presets(),
                    n,
                ),
            final(self).spec_config_path() == old(self).spec_config_path(),
            final(self).spec_default_names() == old(self).spec_default_names(),
    {
        let ghost orig = self.presets@;
        let mut i: usize = 0;
        while i < self.presets.len() && !text::str_eq(self.presets[i].name.as_str(), name)
            invariant
                0 <= i <= self.presets@.len(),
                self.presets@ == orig,
                forall|k: int| 0 <= k < i ==> (#[trigger] orig[k]).name@ != name@,
            decreases self.presets@.len() - i,
        {
            i = i + 1;
        }
        if i >= self.presets.len() {
            proof {
                lemma_preset_for_absent(orig, name@);
            }
            return None;
        }
        let removed = self.presets.remove(i);
        proof {
            let fin = self.presets@;
            let head = orig.take(i as int);
            let tail = orig.skip(i + 1);
            assert(fin =~= head + tail);
            assert(orig =~= head + (seq![orig[i as int]] + tail));
            assert forall|a: int, b: int| 0 <= a < b < fin.len() implies text::str_lt(
                (#[trigger] fin[a]).name@,
                (#[trigger] fin[b]).name@,
            ) by {
                let hl = head.len() as int;
                if a < hl && b < hl {
                    assert(fin[a] == orig[a] && fin[b] == orig[b]);
                } else if a < hl {
                    assert(fin[a] == orig[a] && fin[b] == orig[b + 1]);
                } else {
                    assert(fin[a] == orig[a + 1] && fin[b] == orig[b + 1]);
                }
            }
            // the removed entry is the one the lookup finds
            lemma_preset_for_absent(head, name@);
            lemma_preset_for_concat(head, seq![orig[i as int]] + tail, name@);
            assert((seq![orig[i as int]] + tail)[0] == orig[i as int]);
            // every later name orders after the removed one, so the name is
            // now absent
            assert forall|k: int| 0 <= k < tail.len() implies (#[trigger] tail[k]).name@
                != name@ by {
                assert(tail[k] == orig[i + 1 + k]);
                assert(text::str_lt(orig[i as int].name@, orig[i + 1 + k].name@));
                text::lemma_str_lt_trichotomy(orig[i as int].name@, orig[i + 1 + k].name@);
            }
            assert(forall|k: int| 0 <= k < fin.len() ==> (#[trigger] fin[k]).name@ != name@);
            lemma_preset_for_absent(fin, name@);
            assert forall|n: Seq<char>| n != name@ implies preset_for(fin, n) == preset_for(
                orig,
                n,
            ) by {
                lemma_preset_for_concat(head, tail, n);
                lemma_preset_for_concat(head, seq![orig[i as int]] + tail, n);
                assert((seq![orig[i as int]] + tail).skip(1) =~= tail);
            }
        }
        Some(removed)
    }
}

/// The latest preset named `n` in a user file, where one exists: later
/// entries override earlier ones.
pub open spec fn last_with_name(s: Seq<PortPreset>, n: Seq<char>) -> Option<PortPreset>
    decreases s.len(),
{
    if s.len() == 0 {
        None
    } else if s.last().name@ == n {
        Some(s.last())
    } else {
        last_with_name(s.drop_last(), n)
    }
}

impl PresetManager {
    fn add_default(&mut self, preset: PortPreset)
        requires
            old(self).wf(),
        ensures
            final(self).wf(),
            preset_for(final(self).spec_presets(), preset.name@) == Some(preset),
            forall|n: Seq<char>|
                n != preset.name@ ==> preset_for(final(self).spec_presets(), n) == preset_for(
                    old(self).spec_presets(),
                    n,
                ),
            final(self).spec_config_path() == old(self).spec_config_path(),
            final(self).spec_default_names() == old(self).spec_default_names().push(
                preset.name@,
            ),
    {
        let ghost pre = self.default_preset_names.deep_view();
        self.default_preset_names.push(preset.name.clone());
        proof {
            assert(self.default_preset_names.deep_view() =~= pre.push(preset.name@));
        }
        self.add_preset(preset);
    }

    /// Installs the built-in presets, remembering their names so that a
    /// save writes only user-defined presets.
    pub fn load_default_presets(&mut self)
        requires
            old(self).wf(),
        ensures
            final(self).wf(),
            is_default_preset_table(final(self).spec_presets()),
            final(self).spec_config_path() == old(self).spec_config_path(),
            final(self).spec_default_names() == old(self).spec_default_names()
                + default_preset_names(),
            forall|n: Seq<char>|
                !default_preset_names().contains(n) ==> preset_for(
                    final(self).spec_presets(),
                    n,
                ) == preset_for(old(self).spec_presets(), n),
    {
        let ghost names0 = self.spec_default_names();
        proof {
            reveal_strlit("dev");
            reveal_strlit("system");
            reveal_strlit("database");
            reveal_strlit("web");
            reveal_strlit("react");
            reveal_strlit("node");
            reveal_strlit("python");
            reveal_strlit("full");
            reveal_strlit("minimal");
        }
        let dev = PortPreset::with_ignores(
            "dev".to_owned(),
            "Common development ports (React, Node.js, Python, etc.)".to_owned(),
            make_ports(&[3000, 3001, 3002, 4321, 5000, 8000, 8080, 9000]),
            Some(make_ports(&[5353, 7000])),
            Some(make_names(&["Chrome", "Safari", "Firefox"])),
            None,
            None,
        );
        let ghost prev_dev = self.spec_presets();
        self.add_default(dev);
        proof {
            reveal_strlit("dev");
            reveal_strlit("system");
            reveal_strlit("database");
            reveal_strlit("web");
            reveal_strlit("react");
            reveal_strlit("node");
            reveal_strlit("python");
            reveal_strlit("full");
            reveal_strlit("minimal");
            let t = self.spec_presets();
            assert(match preset_for(t, "dev"@) {
                Some(p) => p.name@ == "dev"@ && p.ports@ =~= seq![3000u16, 3001, 3002, 4321, 5000, 8000, 8080, 9000] && p.ignore_ports.deep_view() == Some(seq![5353u16, 7000u16]) && p.ignore_processes.deep_view() == Some(seq!["Chrome"@, "Safari"@, "Firefox"@]),
                None => false,
            });
            assert(dev_preset_ok(t));
        }
        let system = PortPreset::with_smart_filter(
            "system".to_owned(),
            "System services and daemons".to_owned(),
            make_ports(&[22, 25, 53, 80, 443, 993, 995, 1433, 3306, 5432, 6379, 27017, 8080, 8443]),
            true,
        );
        let ghost prev_system = self.spec_presets();
        self.add_default(system);
        proof {
            reveal_strlit("dev");
            reveal_strlit("system");
            reveal_strlit("database");
            reveal_strlit("web");
            reveal_strlit("react");
            reveal_strlit("node");
            reveal_strlit("python");
            reveal_strlit("full");
            reveal_strlit("minimal");
            let t = self.spec_presets();
            assert(preset_for(t, "dev"@) == preset_for(prev_system, "dev"@));
            assert(match preset_for(t, "system"@) {
                Some(p) => p.name@ == "system"@ && p.ports@ =~= seq![22u16, 25, 53, 80, 443, 993, 995, 1433, 3306, 5432, 6379, 27017, 8080, 8443] && p.smart_filter,
                None => false,
            });
            assert(system_preset_ok(t));
            assert(dev_preset_ok(t));
        }
        let database = PortPreset::new(
            "database".to_owned(),
            "Database services (MySQL, PostgreSQL, Redis, MongoDB, etc.)".to_owned(),
            make_ports(&[3306, 5432, 6379, 27017, 1433, 9200, 9300]),
        );
        let ghost prev_database = self.spec_presets();
        self.add_default(database);
        proof {
            reveal_strlit("dev");
            reveal_strlit("system");
            reveal_strlit("database");
            reveal_strlit("web");
            reveal_strlit("react");
            reveal_strlit("node");
            reveal_strlit("python");
            reveal_strlit("full");
            reveal_strlit("minimal");
            let t = self.spec_presets();
            assert(preset_for(t, "dev"@) == preset_for(prev_database, "dev"@));
            assert(preset_for(t, "system"@) == preset_for(prev_database, "system"@));
            assert(match preset_for(t, "database"@) {
                Some(p) => p.name@ == "database"@ && p.ports@ =~= seq![3306u16, 5432, 6379, 27017, 1433, 9200, 9300],
                None => false,
            });
            assert(database_preset_ok(t));
            assert(dev_preset_ok(t));
            assert(system_preset_ok(t));
        }
        let web = PortPreset::with_ignores(
            "web".to_owned(),
            "Web servers and proxies".to_owned(),
            make_ports(&[80, 443, 8080, 8443, 3000, 5000, 8000, 9000]),
            Some(make_ports(&[5353])),
            Some(make_names(&["nginx", "apache2", "httpd"])),
            None,
            None,
        );
        let ghost prev_web = self.spec_presets();
        self.add_default(web);
        proof {
            reveal_strlit("dev");
            reveal_strlit("system");
            reveal_strlit("database");
            reveal_strlit("web");
            reveal_strlit("react");
            reveal_strlit("node");
            reveal_strlit("python");
            reveal_strlit("full");
            reveal_strlit("minimal");
            let t = self.spec_presets();
            assert("dev"@[0] == 'd' && "web"@[0] == 'w');
            assert("dev"@ != "web"@);
            assert(preset_for(t, "dev"@) == preset_for(prev_web, "dev"@));
            assert(preset_for(t, "system"@) == preset_for(prev_web, "system"@));
            assert(preset_for(t, "database"@) == preset_for(prev_web, "database"@));
            assert(match preset_for(t, "web"@) {
                Some(p) => p.name@ == "web"@ && p.ports@ =~= seq![80u16, 443, 8080, 8443, 3000, 5000, 8000, 9000] && p.ignore_ports.deep_view() == Some(seq![5353u16]),
                None => false,
            });
            assert(web_preset_ok(t));
            assert(dev_preset_ok(t));
            assert(system_preset_ok(t));
            assert(database_preset_ok(t));
        }
        let react = PortPreset::new(
            "react".to_owned(),
            "React development servers".to_owned(),
            make_ports(&[3000, 3001, 3002, 3003, 3004, 3005]),
        );
        let ghost prev_react = self.spec_presets();
        self.add_default(react);
        proof {
            reveal_strlit("dev");
            reveal_strlit("system");
            reveal_strlit("database");
            reveal_strlit("web");
            reveal_strlit("react");
            reveal_strlit("node");
            reveal_strlit("python");
            reveal_strlit("full");
            reveal_strlit("minimal");
            let t = self.spec_presets();
            assert(preset_for(t, "dev"@) == preset_for(prev_react, "dev"@));
            assert(preset_for(t, "system"@) == preset_for(prev_react, "system"@));
            assert(preset_for(t, "database"@) == preset_for(prev_react, "database"@));
            assert(preset_for(t, "web"@) == preset_for(prev_react, "web"@));
            assert(match preset_for(t, "react"@) {
                Some(p) => p.name@ == "react"@ && p.ports@ =~= seq![3000u16, 3001, 3002, 3003, 3004, 3005],
                None => false,
            });
            assert(react_preset_ok(t));
            assert(dev_preset_ok(t));
            assert(system_preset_ok(t));
            assert(database_preset_ok(t));
            assert(web_preset_ok(t));
        }
        let node = PortPreset::new(
            "node".to_owned(),
            "Node.js development servers".to_owned(),
            make_ports(&[3000, 5000, 8000, 8080, 9000]),
        );
        let ghost prev_node = self.spec_presets();
        self.add_default(node);
        proof {
            reveal_strlit("dev");
            reveal_strlit("system");
            reveal_strlit("database");
            reveal_strlit("web");
            reveal_strlit("react");
            reveal_strlit("node");
            reveal_strlit("python");
            reveal_strlit("full");
            reveal_strlit("minimal");
            let t = self.spec_presets();
            assert(preset_for(t, "dev"@) == preset_for(prev_node, "dev"@));
            assert(preset_for(t, "system"@) == preset_for(prev_node, "system"@));
            assert(preset_for(t, "database"@) == preset_for(prev_node, "database"@));
            assert(preset_for(t, "web"@) == preset_for(prev_node, "web"@));
            assert(preset_for(t, "react"@) == preset_for(prev_node, "react"@));
            assert(match preset_for(t, "node"@) {
                Some(p) => p.name@ == "node"@ && p.ports@ =~= seq![3000u16, 5000, 8000, 8080, 9000],
                None => false,
            });
            assert(node_preset_ok(t));
            assert(dev_preset_ok(t));
            assert(system_preset_ok(t));
            assert(database_preset_ok(t));
            assert(web_preset_ok(t));
            assert(react_preset_ok(t));
        }
        let python = PortPreset::new(
            "python".to_owned(),
            "Python development servers (Django, Flask, FastAPI, etc.)".to_owned(),
            make_ports(&[5000, 8000, 8080, 9000]),
        );
        let ghost prev_python = self.spec_presets();
        self.add_default(python);
        proof {
            reveal_strlit("dev");
            reveal_strlit("system");
            reveal_strlit("database");
            reveal_strlit("web");
            reveal_strlit("react");
            reveal_strlit("node");
            reveal_strlit("python");
            reveal_strlit("full");
            reveal_strlit("minimal");
            let t = self.spec_presets();
            assert(preset_for(t, "dev"@) == preset_for(prev_python, "dev"@));
            assert("system"@[0] == 's' && "python"@[0] == 'p');
            assert("system"@ != "python"@);
            assert(preset_for(t, "system"@) == preset_for(prev_python, "system"@));
            assert(preset_for(t, "database"@) == preset_for(prev_python, "database"@));
            assert(preset_for(t, "web"@) == preset_for(prev_python, "web"@));
            assert(preset_for(t, "react"@) == preset_for(prev_python, "react"@));
            assert(preset_for(t, "node"@) == preset_for(prev_python, "node"@));
            assert(match preset_for(t, "python"@) {
                Some(p) => p.name@ == "python"@ && p.ports@ =~= seq![5000u16, 8000, 8080, 9000],
                None => false,
            });
            assert(python_preset_ok(t));
            assert(dev_preset_ok(t));
            assert(system_preset_ok(t));
            assert(database_preset_ok(t));
            assert(web_preset_ok(t));
            assert(react_preset_ok(t));
            assert(node_preset_ok(t));
        }
        let full = PortPreset::with_smart_filter(
            "full".to_owned(),
            "Comprehensive port monitoring (2000-8000 with smart filtering)".to_owned(),
            make_port_range(2000, 8000),
            true,
        );
        let ghost prev_full = self.spec_presets();
        self.add_default(full);
        proof {
            reveal_strlit("dev");
            reveal_strlit("system");
            reveal_strlit("database");
            reveal_strlit("web");
            reveal_strlit("react");
            reveal_strlit("node");
            reveal_strlit("python");
            reveal_strlit("full");
            reveal_strlit("minimal");
            let t = self.spec_presets();
            assert(preset_for(t, "dev"@) == preset_for(prev_full, "dev"@));
            assert(preset_for(t, "system"@) == preset_for(prev_full, "system"@));
            assert(preset_for(t, "database"@) == preset_for(prev_full, "database"@));
            assert(preset_for(t, "web"@) == preset_for(prev_full, "web"@));
            assert(preset_for(t, "react"@) == preset_for(prev_full, "react"@));
            assert("node"@[0] == 'n' && "full"@[0] == 'f');
            assert("node"@ != "full"@);
            assert(preset_for(t, "node"@) == preset_for(prev_full, "node"@));
            assert(preset_for(t, "python"@) == preset_for(prev_full, "python"@));
            assert(match preset_for(t, "full"@) {
                Some(p) => p.name@ == "full"@ && p.ports@ =~= Seq::new(6001, |k: int| (2000 + k) as u16) && p.smart_filter,
                None => false,
            });
            assert(full_preset_ok(t));
            assert(dev_preset_ok(t));
            assert(system_preset_ok(t));
            assert(database_preset_ok(t));
            assert(web_preset_ok(t));
            assert(react_preset_ok(t));
            assert(node_preset_ok(t));
            assert(python_preset_ok(t));
        }
        let minimal = PortPreset::new(
            "minimal".to_owned(),
            "Essential development ports only".to_owned(),
            make_ports(&[3000, 8080, 4321]),
        );
        let ghost prev_minimal = self.spec_presets();
        self.add_default(minimal);
        proof {
            reveal_strlit("dev");
            reveal_strlit("system");
            reveal_strlit("database");
            reveal_strlit("web");
            reveal_strlit("react");
            reveal_strlit("node");
            reveal_strlit("python");
            reveal_strlit("full");
            reveal_strlit("minimal");
            let t = self.spec_presets();
            assert(preset_for(t, "dev"@) == preset_for(prev_minimal, "dev"@));
            assert(preset_for(t, "system"@) == preset_for(prev_minimal, "system"@));
            assert(preset_for(t, "database"@) == preset_for(prev_minimal, "database"@));
            assert(preset_for(t, "web"@) == preset_for(prev_minimal, "web"@));
            assert(preset_for(t, "react"@) == preset_for(prev_minimal, "react"@));
            assert(preset_for(t, "node"@) == preset_for(prev_minimal, "node"@));
            assert(preset_for(t, "python"@) == preset_for(prev_minimal, "python"@));
            assert(preset_for(t, "full"@) == preset_for(prev_minimal, "full"@));
            assert(match preset_for(t, "minimal"@) {
                Some(p) => p.name@ == "minimal"@ && p.ports@ =~= seq![3000u16, 8080, 4321],
                None => false,
            });
            assert(minimal_preset_ok(t));
            assert(dev_preset_ok(t));
            assert(system_preset_ok(t));
            assert(database_preset_ok(t));
            assert(web_preset_ok(t));
            assert(react_preset_ok(t));
            assert(node_preset_ok(t));
            assert(python_preset_ok(t));
            assert(full_preset_ok(t));
        }
        proof {
            assert(self.spec_default_names() =~= names0 + default_preset_names());
        }
    }

    /// Merges presets read from a user file over the current ones: a user
    /// preset overrides the preset of the same name, later entries
    /// override earlier ones, and everything else is untouched.
    pub fn merge_user_presets(&mut self, user: Vec<PortPreset>)
        requires
            old(self).wf(),
        ensures
            final(self).wf(),
            forall|n: Seq<char>|
                preset_for(final(self).spec_presets(), n) == (match last_with_name(user@, n) {
                    Some(p) => Some(p),
                    None => preset_for(old(self).spec_presets(), n),
                }),
            final(self).spec_config_path() == old(self).spec_config_path(),
            final(self).spec_default_names() == old(self).spec_default_names(),
    {
        let ghost all = user@;
        let ghost init = self.spec_presets();
        let mut rest = user;
        let ghost done: int = 0;
        while rest.len() > 0
            invariant
                self.wf(),
                0 <= done <= all.len(),
                rest@ =~= all.skip(done),
                self.spec_config_path() == old(self).spec_config_path(),
                self.spec_default_names() == old(self).spec_default_names(),
                forall|n: Seq<char>|
                    preset_for(self.spec_presets(), n) == (match last_with_name(
                        all.take(done),
                        n,
                    ) {
                        Some(p) => Some(p),
                        None => preset_for(init, n),
                    }),
            decreases rest@.len(),
        {
            let p = rest.remove(0);
            proof {
                assert(p == all[done]);
                assert(all.take(done + 1).drop_last() =~= all.take(done));
                assert(all.take(done + 1).last() == all[done]);
            }
            let ghost name = p.name@;
            self.add_preset(p);
            proof {
                assert(rest@ =~= all.skip(done + 1));
                assert forall|n: Seq<char>|
                    preset_for(self.spec_presets(), n) == (match last_with_name(
                        all.take(done + 1),
                        n,
                    ) {
                        Some(q) => Some(q),
                        None => preset_for(init, n),
                    }) by {}
            }
            proof {
                done = done + 1;
            }
        }
        proof {
            assert(all.take(all.len() as int) =~= all);
            assert(done == all.len());
        }
    }

    /// The user-defined presets: those whose name is not a built-in one,
    /// in name order.
    pub fn user_presets(&self) -> (r: Vec<&PortPreset>)
        ensures
            ({
                let expected = spec_user_presets(self.spec_presets(), self.spec_default_names());
                r@.len() == expected.len() && forall|k: int|
                    0 <= k < expected.len() ==> *(#[trigger] r@[k]) == expected[k]
            }),
    {
        let mut out: Vec<&PortPreset> = Vec::new();
        let mut i: usize = 0;
        while i < self.presets.len()
            invariant
                0 <= i <= self.presets@.len(),
                ({
                    let expected = spec_user_presets(
                        self.presets@.take(i as int),
                        self.spec_default_names(),
                    );
                    out@.len() == expected.len() && forall|k: int|
                        0 <= k < expected.len() ==> *(#[trigger] out@[k]) == expected[k]
                }),
            decreases self.presets@.len() - i,
        {
            proof {
                assert(self.presets@.take(i + 1).drop_last() =~= self.presets@.take(i as int));
                assert(self.presets@.take(i + 1).last() == self.presets@[i as int]);
            }
            if !text::vec_contains_str(&self.default_preset_names, self.presets[i].name.as_str()) {
                out.push(&self.presets[i]);
            }
            i = i + 1;
        }
        proof {
            assert(self.presets@.take(self.presets@.len() as int) =~= self.presets@);
        }
        out
    }
}

/// The presets of `s` whose name is not among `defaults`, in order.
pub open spec fn spec_user_presets(s: Seq<PortPreset>, defaults: Seq<Seq<char>>) -> Seq<
    PortPreset,
>
    decreases s.len(),
{
    if s.len() == 0 {
        s
    } else {
        let pre = spec_user_presets(s.drop_last(), defaults);
        if defaults.contains(s.last().name@) {
            pre
        } else {
            pre.push(s.last())
        }
    }
}

/// The names of the built-in presets, in installation order.
pub open spec fn default_preset_names() -> Seq<Seq<char>> {
    seq![
        "dev"@,
        "system"@,
        "database"@,
        "web"@,
        "react"@,
        "node"@,
        "python"@,
        "full"@,
        "minimal"@,
    ]
}

/// Whether `s` holds the built-in `dev` preset.
pub open spec fn dev_preset_ok(s: Seq<PortPreset>) -> bool {
    match preset_for(s, "dev"@) {
        Some(p) => p.name@ == "dev"@ && p.ports@ == seq![3000u16, 3001, 3002, 4321, 5000, 8000, 8080, 9000] && p.ignore_ports.deep_view() == Some(seq![5353u16, 7000u16]) && p.ignore_processes.deep_view() == Some(seq!["Chrome"@, "Safari"@, "Firefox"@]),
        None => false,
    }
}

/// Whether `s` holds the built-in `system` preset.
pub open spec fn system_preset_ok(s: Seq<PortPreset>) -> bool {
    match preset_for(s, "system"@) {
        Some(p) => p.name@ == "system"@ && p.ports@ == seq![22u16, 25, 53, 80, 443, 993, 995, 1433, 3306, 5432, 6379, 27017, 8080, 8443] && p.smart_filter,
        None => false,
    }
}

/// Whether `s` holds the built-in `database` preset.
pub open spec fn database_preset_ok(s: Seq<PortPreset>) -> bool {
    match preset_for(s, "database"@) {
        Some(p) => p.name@ == "database"@ && p.ports@ == seq![3306u16, 5432, 6379, 27017, 1433, 9200, 9300],
        None => false,
    }
}

/// Whether `s` holds the built-in `web` preset.
pub open spec fn web_preset_ok(s: Seq<PortPreset>) -> bool {
    match preset_for(s, "web"@) {
        Some(p) => p.name@ == "web"@ && p.ports@ == seq![80u16, 443, 8080, 8443, 3000, 5000, 8000, 9000] && p.ignore_ports.deep_view() == Some(seq![5353u16]),
        None => false,
    }
}

/// Whether `s` holds the built-in `react` preset.
pub open spec fn react_preset_ok(s: Seq<PortPreset>) -> bool {
    match preset_for(s, "react"@) {
        Some(p) => p.name@ == "react"@ && p.ports@ == seq![3000u16, 3001, 3002, 3003, 3004, 3005],
        None => false,
    }
}

/// Whether `s` holds the built-in `node` preset.
pub open spec fn node_preset_ok(s: Seq<PortPreset>) -> bool {
    match preset_for(s, "node"@) {
        Some(p) => p.name@ == "node"@ && p.ports@ == seq![3000u16, 5000, 8000, 8080, 9000],
        None => false,
    }
}

/// Whether `s` holds the built-in `python` preset.
pub open spec fn python_preset_ok(s: Seq<PortPreset>) -> bool {
    match preset_for(s, "python"@) {
        Some(p) => p.name@ == "python"@ && p.ports@ == seq![5000u16, 8000, 8080, 9000],
        None => false,
    }
}

/// Whether `s` holds the built-in `full` preset.
pub open spec fn full_preset_ok(s: Seq<PortPreset>) -> bool {
    match preset_for(s, "full"@) {
        Some(p) => p.name@ == "full"@ && p.ports@ == Seq::new(6001, |k: int| (2000 + k) as u16) && p.smart_filter,
        None => false,
    }
}

/// Whether `s` holds the built-in `minimal` preset.
pub open spec fn minimal_preset_ok(s: Seq<PortPreset>) -> bool {
    match preset_for(s, "minimal"@) {
        Some(p) => p.name@ == "minimal"@ && p.ports@ == seq![3000u16, 8080, 4321],
        None => false,
    }
}

/// Whether the manager's table holds every built-in preset.
pub open spec fn is_default_preset_table(s: Seq<PortPreset>) -> bool {
    &&& dev_preset_ok(s)
    &&& system_preset_ok(s)
    &&& database_preset_ok(s)
    &&& web_preset_ok(s)
    &&& react_preset_ok(s)
    &&& node_preset_ok(s)
    &&& python_preset_ok(s)
    &&& full_preset_ok(s)
    &&& minimal_preset_ok(s)
}

/// Whether `s` holds a preset named `n` monitoring exactly `ports`.
pub open spec fn has_preset_with_ports(s: Seq<PortPreset>, n: Seq<char>, ports: Seq<u16>) -> bool {
    match preset_for(s, n) {
        Some(p) => p.name@ == n && p.ports@ == ports,
        None => false,
    }
}

fn make_ports(ports: &[u16]) -> (r: Vec<u16>)
    ensures
        r@ == ports@,
{
    let mut out: Vec<u16> = Vec::new();
    let mut i: usize = 0;
    while i < ports.len()
        invariant
            0 <= i <= ports@.len(),
            out@ =~= ports@.take(i as int),
        decreases ports@.len() - i,
    {
        out.push(ports[i]);
        i = i + 1;
    }
    assert(out@ =~= ports@);
    out
}

fn make_names(names: &[&str]) -> (r: Vec<String>)
    ensures
        r.deep_view() == names@.map_values(|x: &str| x@),
{
    let mut out: Vec<String> = Vec::new();
    let mut i: usize = 0;
    while i < names.len()
        invariant
            0 <= i <= names@.len(),
            out.deep_view() =~= names@.take(i as int).map_values(|x: &str| x@),
        decreases names@.len() - i,
    {
        out.push(names[i].to_owned());
        proof {
            assert(names@.take(i + 1).map_values(|x: &str| x@) =~= names@.take(i as int)
                .map_values(|x: &str| x@).push(names@[i as int]@));
            assert(out.deep_view() =~= out.deep_view().drop_last().push(names@[i as int]@));
        }
        i = i + 1;
    }
    proof {
        assert(names@.take(names@.len() as int) =~= names@);
    }
    out
}

fn make_port_range(lo: u16, hi: u16) -> (r: Vec<u16>)
    requires
        lo <= hi,
    ensures
        r@ == Seq::new((hi - lo + 1) as nat, |k: int| (lo + k) as u16),
{
    let mut out: Vec<u16> = Vec::new();
    let mut p: u16 = lo;
    while p < hi
        invariant
            lo <= p <= hi,
            out@ =~= Seq::new((p - lo) as nat, |k: int| (lo + k) as u16),
        decreases hi - p,
    {
        out.push(p);
        proof {
            assert(out@ =~= Seq::new((p - lo + 1) as nat, |k: int| (lo + k) as u16));
        }
        p = p + 1;
    }
    out.push(p);
    proof {
        assert(out@ =~= Seq::new((hi - lo + 1) as nat, |k: int| (lo + k) as u16));
    }
    out
}

/// The decimal renderings of a port list.
pub open spec fn spec_port_texts(s: Seq<u16>) -> Seq<Seq<char>> {
    s.map_values(|x: u16| crate::dec_digits(x as nat))
}

/// One preset's block in the listing.
pub open spec fn spec_preset_block(p: PortPreset) -> Seq<char> {
    "\u{2022} "@ + p.name@ + ": "@ + p.description@ + "\n"@ + "  Ports: "@ + text::join_with(
        spec_port_texts(p.ports@),
        ", "@,
    ) + "\n"@ + (match p.ignore_ports {
        Some(ip) => if ip@.len() > 0 {
            "  Ignores ports: "@ + text::join_with(spec_port_texts(ip@), ", "@) + "\n"@
        } else {
            Seq::<char>::empty()
        },
        None => Seq::<char>::empty(),
    }) + (match p.ignore_processes {
        Some(ps) => if ps@.len() > 0 {
            "  Ignores processes: "@ + text::join_with(ps.deep_view(), ", "@) + "\n"@
        } else {
            Seq::<char>::empty()
        },
        None => Seq::<char>::empty(),
    }) + (if p.smart_filter {
        "  Smart filtering: enabled\n"@
    } else {
        Seq::<char>::empty()
    }) + "\n"@
}

/// The blocks of all presets, in order.
pub open spec fn spec_preset_blocks(s: Seq<PortPreset>) -> Seq<char>
    decreases s.len(),
{
    if s.len() == 0 {
        Seq::<char>::empty()
    } else {
        spec_preset_blocks(s.drop_last()) + spec_preset_block(s.last())
    }
}

/// The listing's head line and rule.
pub open spec fn spec_listing_header() -> Seq<char> {
    "\u{1F4CB} Available Port Presets:\n"@ + "=================================================="@
        + "\n"@
}

/// The whole listing.
pub open spec fn spec_preset_listing(s: Seq<PortPreset>) -> Seq<char> {
    spec_listing_header() + spec_preset_blocks(s)
}

fn build_port_list(v: &Vec<u16>) -> (r: String)
    ensures
        r@ == text::join_with(spec_port_texts(v@), ", "@),
{
    let mut texts: Vec<String> = Vec::new();
    let mut i: usize = 0;
    while i < v.len()
        invariant
            0 <= i <= v@.len(),
            texts.deep_view() =~= spec_port_texts(v@.take(i as int)),
        decreases v@.len() - i,
    {
        texts.push(crate::decimal_string(v[i] as u64));
        proof {
            assert(spec_port_texts(v@.take(i + 1)) =~= spec_port_texts(v@.take(i as int)).push(
                crate::dec_digits(v@[i as int] as nat),
            ));
            assert(texts.deep_view() =~= texts.deep_view().drop_last().push(
                crate::dec_digits(v@[i as int] as nat),
            ));
        }
        i = i + 1;
    }
    proof {
        assert(v@.take(v@.len() as int) =~= v@);
    }
    text::join_strings(&texts, ", ")
}

#[verifier::rlimit(100)]
fn build_preset_block(p: &PortPreset) -> (r: String)
    ensures
        r@ == spec_preset_block(*p),
{
    let mut out = "\u{2022} ".to_owned();
    out.append(p.name.as_str());
    out.append(": ");
    out.append(p.description.as_str());
    out.append("\n");
    out.append("  Ports: ");
    let ports_text = build_port_list(&p.ports);
    out.append(ports_text.as_str());
    out.append("\n");
    if let Some(ip) = &p.ignore_ports {
        if ip.len() > 0 {
            out.append("  Ignores ports: ");
            let ip_text = build_port_list(ip);
            out.append(ip_text.as_str());
            out.append("\n");
        }
    }
    if let Some(ps) = &p.ignore_processes {
        if ps.len() > 0 {
            out.append("  Ignores processes: ");
            let ps_text = text::join_strings(ps, ", ");
            out.append(ps_text.as_str());
            out.append("\n");
        }
    }
    if p.smart_filter {
        out.append("  Smart filtering: enabled\n");
    }
    out.append("\n");
    out
}

impl PresetManager {
    /// Renders every preset with its description and ports, in name
    /// order.
    pub fn list_presets(&self) -> (r: String)
        ensures
            r@ == spec_preset_listing(self.spec_presets()),
    {
        let mut out = "\u{1F4CB} Available Port Presets:\n".to_owned();
        out.append("==================================================");
        out.append("\n");
        let mut i: usize = 0;
        while i < self.presets.len()
            invariant
                0 <= i <= self.presets@.len(),
                out@ == spec_listing_header() + spec_preset_blocks(self.presets@.take(i as int)),
            decreases self.presets@.len() - i,
        {
            proof {
                assert(self.presets@.take(i + 1).drop_last() =~= self.presets@.take(i as int));
                assert(self.presets@.take(i + 1).last() == self.presets@[i as int]);
            }
            let block = build_preset_block(&self.presets[i]);
            out.append(block.as_str());
            i = i + 1;
        }
        proof {
            assert(self.presets@.take(self.presets@.len() as int) =~= self.presets@);
        }
        out
    }
}

} // verus!
