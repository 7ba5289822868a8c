//! The module constructor registry: manifest entries collected from the
//! participating modules, ordered by phase and then by `order` (ties keep
//! discovery order), and written out as the single call sequence that the
//! kernel's entry point runs.
use vstd::prelude::*;
use vstd::string::StringExecFns;

verus! {

/// The pass in which a constructor runs.
#[derive(Clone, Copy, Debug, PartialEq, Eq, Structural)]
pub enum Phase {
    /// Before the kernel's own mapping is authoritative.
    Init,
    /// After the kernel's own mapping is live.
    Rewire,
}

/// One constructor entry of a module's manifest, as found in its metadata.
#[derive(Debug)]
pub struct ManifestEntry {
    /// Path of the entry point relative to the module's crate root.
    pub path: Option<String>,
    /// Position among the constructors of its phase.
    pub order: Option<u64>,
    /// Configuration under which the call is compiled in, if any.
    pub cfg: Option<String>,
    /// The pass in which the constructor runs.
    pub phase: Phase,
}

/// The constructor manifest of one package.
#[derive(Debug)]
pub struct PackageManifest {
    /// The package's name, which is also its crate path.
    pub name: String,
    /// Its constructor entries, in the order they are listed.
    pub constructors: Vec<ManifestEntry>,
}

/// A constructor as plain values.
pub struct InfoView {
    pub function: Seq<char>,
    pub order: u64,
    pub cfg: Option<Seq<char>>,
    pub phase: Phase,
}

/// One registered constructor.
#[derive(Debug)]
pub struct ConstructorInfo {
    /// Full path of the entry point.
    pub function: String,
    /// Position among the constructors of its phase; lower runs first.
    pub order: u64,
    /// Configuration under which the call is compiled in, if any.
    pub cfg: Option<String>,
    /// The pass in which the constructor runs.
    pub phase: Phase,
}

/// The constructors whose order is `o`.
pub open spec fn has_order(o: u64) -> spec_fn(ConstructorInfo) -> bool {
    |c: ConstructorInfo| c.order == o
}

/// The constructors of phase `p`.
pub open spec fn in_phase(p: Phase) -> spec_fn(ConstructorInfo) -> bool {
    |c: ConstructorInfo| c.phase == p
}

/// Orders never decrease along the sequence.
pub open spec fn sorted_by_order(s: Seq<ConstructorInfo>) -> bool {
    forall|i: int, j: int| 0 <= i < j < s.len() ==> #[trigger] s[i].order <= #[trigger] s[j].order
}

/// `out` is `inp` sorted by order, constructors of equal order kept in the
/// order they had in `inp`.
pub open spec fn is_stable_sort(out: Seq<ConstructorInfo>, inp: Seq<ConstructorInfo>) -> bool {
    &&& out.len() == inp.len()
    &&& sorted_by_order(out)
    &&& forall|o: u64| #[trigger] out.filter(has_order(o)) == inp.filter(has_order(o))
}

/// A sequence without a constructor of order `o` filters to nothing.
proof fn lemma_filter_none(s: Seq<ConstructorInfo>, o: u64)
    requires
        forall|i: int| 0 <= i < s.len() ==> (#[trigger] s[i]).order != o,
    ensures
        s.filter(has_order(o)) == Seq::<ConstructorInfo>::empty(),
    decreases s.len(),
{
    if s.len() > 0 {
        let init = s.drop_last();
        assert forall|i: int| 0 <= i < init.len() implies (#[trigger] init[i]).order != o by {
            assert(init[i] == s[i]);
        }
        lemma_filter_none(init, o);
        init.lemma_filter_push(s.last(), has_order(o));
        assert(init.push(s.last()) =~= s);
    }
}

/// Inserting a constructor just after every constructor of no greater order
/// keeps a stable sort stable.
proof fn lemma_insert_stable(out: Seq<ConstructorInfo>, inp: Seq<ConstructorInfo>, x: ConstructorInfo, p: int)
    requires
        is_stable_sort(out, inp),
        0 <= p <= out.len(),
        forall|j: int| 0 <= j < p ==> (#[trigger] out[j]).order <= x.order,
        p < out.len() ==> out[p].order > x.order,
    ensures
        is_stable_sort(out.insert(p, x), inp.push(x)),
{
    let res = out.insert(p, x);
    let a = out.take(p);
    let b = out.skip(p);
    assert(out =~= a + b);
    assert(res =~= a + seq![x] + b);
    assert forall|i: int, j: int| 0 <= i < j < res.len() implies #[trigger] res[i].order
        <= #[trigger] res[j].order by {
        if j < p {
            assert(res[i] == out[i] && res[j] == out[j]);
        } else if j == p {
            assert(res[i] == out[i]);
        } else if i < p {
            assert(res[i] == out[i] && res[j] == out[j - 1]);
            assert(out[i].order <= x.order);
            assert(out[p].order <= out[j - 1].order);
        } else if i == p {
            assert(res[j] == out[j - 1]);
            assert(out[p].order <= out[j - 1].order);
        } else {
            assert(res[i] == out[i - 1] && res[j] == out[j - 1]);
        }
    }
    assert forall|o: u64| #[trigger] res.filter(has_order(o)) == inp.push(x).filter(has_order(o)) by {
        inp.lemma_filter_push(x, has_order(o));
        Seq::filter_distributes_over_add(a, b, has_order(o));
        Seq::filter_distributes_over_add(a + seq![x], b, has_order(o));
        Seq::filter_distributes_over_add(a, seq![x], has_order(o));
        Seq::<ConstructorInfo>::empty().lemma_filter_push(x, has_order(o));
        assert(seq![x] =~= Seq::<ConstructorInfo>::empty().push(x));
        if x.order == o {
            assert forall|i: int| 0 <= i < b.len() implies (#[trigger] b[i]).order != o by {
                assert(b[i] == out[p + i]);
                assert(out[p].order <= out[p + i].order);
            }
            lemma_filter_none(b, o);
            assert(res.filter(has_order(o)) =~= out.filter(has_order(o)).push(x));
        } else {
            assert(res.filter(has_order(o)) =~= out.filter(has_order(o)));
        }
    }
}

/// Sorts constructors by order; constructors of equal order keep their
/// relative order.
pub fn sort_by_order(v: Vec<ConstructorInfo>) -> (r: Vec<ConstructorInfo>)
    ensures
        is_stable_sort(r@, v@),
{
    let ghost orig = v@;
    let mut rest = v;
    let mut out: Vec<ConstructorInfo> = Vec::new();
    let ghost mut done: int = 0;
    proof {
        assert(orig.take(0) =~= Seq::<ConstructorInfo>::empty());
        assert(out@ =~= Seq::<ConstructorInfo>::empty());
    }
    while rest.len() > 0
        invariant
            0 <= done <= orig.len(),
            rest@ == orig.skip(done),
            is_stable_sort(out@, orig.take(done)),
        decreases rest@.len(),
    {
        let x = rest.remove(0);
        let mut p: usize = 0;
        while p < out.len() && out[p].order <= x.order
            invariant
                p <= out@.len(),
                forall|j: int| 0 <= j < p ==> (#[trigger] out@[j]).order <= x.order,
            decreases out@.len() - p,
        {
            p = p + 1;
        }
        proof {
            lemma_insert_stable(out@, orig.take(done), x, p as int);
            assert(orig.take(done + 1) =~= orig.take(done).push(x));
            assert(rest@ =~= orig.skip(done + 1));
            done = done + 1;
        }
        out.insert(p, x);
    }
    proof {
        assert(orig.take(done) =~= orig);
    }
    out
}

/// Splits constructors by phase, each part in its original order.
fn split_by_phase(v: Vec<ConstructorInfo>) -> (r: (Vec<ConstructorInfo>, Vec<ConstructorInfo>))
    ensures
        r.0@ == v@.filter(in_phase(Phase::Init)),
        r.1@ == v@.filter(in_phase(Phase::Rewire)),
{
    let ghost orig = v@;
    let mut rest = v;
    let mut init: Vec<ConstructorInfo> = Vec::new();
    let mut rewire: Vec<ConstructorInfo> = Vec::new();
    let ghost mut done: int = 0;
    proof {
        assert(orig.take(0) =~= Seq::<ConstructorInfo>::empty());
        assert(init@ =~= Seq::<ConstructorInfo>::empty());
        assert(rewire@ =~= Seq::<ConstructorInfo>::empty());
    }
    while rest.len() > 0
        invariant
            0 <= done <= orig.len(),
            rest@ == orig.skip(done),
            init@ == orig.take(done).filter(in_phase(Phase::Init)),
            rewire@ == orig.take(done).filter(in_phase(Phase::Rewire)),
        decreases rest@.len(),
    {
        let x = rest.remove(0);
        proof {
            assert(orig.take(done + 1) =~= orig.take(done).push(x));
            orig.take(done).lemma_filter_push(x, in_phase(Phase::Init));
            orig.take(done).lemma_filter_push(x, in_phase(Phase::Rewire));
            assert(rest@ =~= orig.skip(done + 1));
            done = done + 1;
        }
        match x.phase {
            Phase::Init => init.push(x),
            Phase::Rewire => rewire.push(x),
        }
    }
    proof {
        assert(orig.take(done) =~= orig);
    }
    (init, rewire)
}

/// The call sequence: every init-phase constructor, sorted by order, then
/// every rewire-phase constructor, sorted by order.
pub open spec fn is_call_plan(plan: Seq<ConstructorInfo>, infos: Seq<ConstructorInfo>) -> bool {
    let n = infos.filter(in_phase(Phase::Init)).len() as int;
    &&& plan.len() == infos.filter(in_phase(Phase::Init)).len() + infos.filter(in_phase(Phase::Rewire)).len()
    &&& is_stable_sort(plan.take(n), infos.filter(in_phase(Phase::Init)))
    &&& is_stable_sort(plan.skip(n), infos.filter(in_phase(Phase::Rewire)))
}

/// Every constructor of a stable sort comes from the sorted input.
proof fn lemma_stable_sort_members(out: Seq<ConstructorInfo>, inp: Seq<ConstructorInfo>, k: int)
    requires
        is_stable_sort(out, inp),
        0 <= k < out.len(),
    ensures
        inp.contains(out[k]),
{
    let o = out[k].order;
    out.lemma_filter_contains(has_order(o), k);
    assert(inp.filter(has_order(o)).contains(out[k]));
    inp.lemma_filter_contains_rev(has_order(o), out[k]);
}

/// In a call plan every init-phase constructor runs before every rewire-phase
/// constructor, and within each phase orders never decrease.
pub proof fn lemma_call_plan_order(plan: Seq<ConstructorInfo>, infos: Seq<ConstructorInfo>)
    requires
        is_call_plan(plan, infos),
    ensures
        forall|i: int, j: int|
            0 <= i < j < plan.len() && #[trigger] plan[j].phase == Phase::Init ==> #[trigger] plan[i].phase
                == Phase::Init,
        forall|i: int, j: int|
            0 <= i < j < plan.len() && plan[i].phase == plan[j].phase ==> #[trigger] plan[i].order
                <= #[trigger] plan[j].order,
{
    let init = infos.filter(in_phase(Phase::Init));
    let rewire = infos.filter(in_phase(Phase::Rewire));
    let n = init.len() as int;
    assert forall|k: int| 0 <= k < plan.len() implies (#[trigger] plan[k]).phase == (if k < n {
        Phase::Init
    } else {
        Phase::Rewire
    }) by {
        if k < n {
            assert(plan.take(n)[k] == plan[k]);
            lemma_stable_sort_members(plan.take(n), init, k);
            let m = choose|m: int| 0 <= m < init.len() && init[m] == plan[k];
            infos.lemma_filter_pred(in_phase(Phase::Init), m);
        } else {
            assert(plan.skip(n)[k - n] == plan[k]);
            lemma_stable_sort_members(plan.skip(n), rewire, k - n);
            let m = choose|m: int| 0 <= m < rewire.len() && rewire[m] == plan[k];
            infos.lemma_filter_pred(in_phase(Phase::Rewire), m);
        }
    }
    assert forall|i: int, j: int|
        0 <= i < j < plan.len() && plan[i].phase == plan[j].phase implies #[trigger] plan[i].order
        <= #[trigger] plan[j].order by {
        if j < n {
            assert(plan.take(n)[i] == plan[i] && plan.take(n)[j] == plan[j]);
        } else {
            assert(i >= n);
            assert(plan.skip(n)[i - n] == plan[i] && plan.skip(n)[j - n] == plan[j]);
        }
    }
}

/// Orders the constructors into the sequence in which they are called.
pub fn order_constructors(infos: Vec<ConstructorInfo>) -> (r: Vec<ConstructorInfo>)
    ensures
        is_call_plan(r@, infos@),
{
    let (init, rewire) = split_by_phase(infos);
    let mut plan = sort_by_order(init);
    let mut tail = sort_by_order(rewire);
    let ghost a = plan@;
    let ghost b = tail@;
    plan.append(&mut tail);
    proof {
        assert(plan@.take(a.len() as int) =~= a);
        assert(plan@.skip(a.len() as int) =~= b);
    }
    plan
}

impl View for ConstructorInfo {
    type V = InfoView;

    open spec fn view(&self) -> InfoView {
        InfoView {
            function: self.function@,
            order: self.order,
            cfg: match self.cfg {
                Some(c) => Some(c@),
                None => None,
            },
            phase: self.phase,
        }
    }
}

/// The plain values of a sequence of constructors.
pub open spec fn views(s: Seq<ConstructorInfo>) -> Seq<InfoView> {
    s.map_values(|c: ConstructorInfo| c@)
}

/// The name of the phase that manifest text selects: `rewire` selects the
/// rewire pass, anything else or nothing the init pass.
pub open spec fn spec_phase_named(name: Option<Seq<char>>) -> Phase {
    if name == Some("rewire"@) {
        Phase::Rewire
    } else {
        Phase::Init
    }
}

/// Reads the phase named in a manifest entry.
pub fn phase_named(name: Option<String>) -> (r: Phase)
    ensures
        r == spec_phase_named(
            match name {
                Some(n) => Some(n@),
                None => None,
            },
        ),
{
    match name {
        Some(n) => {
            let rewire = String::from_str("rewire");
            if n == rewire {
                Phase::Rewire
            } else {
                Phase::Init
            }
        },
        None => Phase::Init,
    }
}

/// The constructor that a manifest entry of package `name` registers, if the
/// entry names both a path and an order.
pub open spec fn entry_view(name: Seq<char>, e: ManifestEntry) -> Option<InfoView> {
    match (e.path, e.order) {
        (Some(path), Some(order)) => Some(
            InfoView {
                function: "::"@ + name + "::"@ + path@,
                order,
                cfg: match e.cfg {
                    Some(c) => Some(c@),
                    None => None,
                },
                phase: e.phase,
            },
        ),
        _ => None,
    }
}

/// The constructors registered by a sequence of entries of package `name`.
pub open spec fn entries_views(name: Seq<char>, es: Seq<ManifestEntry>) -> Seq<InfoView>
    decreases es.len(),
{
    if es.len() == 0 {
        Seq::empty()
    } else {
        entries_views(name, es.drop_last()) + match entry_view(name, es.last()) {
            Some(v) => seq![v],
            None => Seq::empty(),
        }
    }
}

/// The constructors registered by the selected packages, package by package.
pub open spec fn collected_views(pkgs: Seq<PackageManifest>, modules: Seq<Seq<char>>) -> Seq<InfoView>
    decreases pkgs.len(),
{
    if pkgs.len() == 0 {
        Seq::empty()
    } else {
        let p = pkgs.last();
        collected_views(pkgs.drop_last(), modules) + if modules.contains(p.name@) {
            entries_views(p.name@, p.constructors@)
        } else {
            Seq::empty()
        }
    }
}

/// Whether `name` is one of `modules`.
fn contains_name(modules: &Vec<String>, name: &String) -> (r: bool)
    ensures
        r == modules@.map_values(|m: String| m@).contains(name@),
{
    let ghost names = modules@.map_values(|m: String| m@);
    let mut k: usize = 0;
    while k < modules.len()
        invariant
            k <= modules@.len(),
            names == modules@.map_values(|m: String| m@),
            forall|j: int| 0 <= j < k ==> names[j] != name@,
        decreases modules@.len() - k,
    {
        if modules[k] == *name {
            assert(names[k as int] == name@);
            return true;
        }
        k = k + 1;
    }
    proof {
        if names.contains(name@) {
            let j = choose|j: int| 0 <= j < names.len() && names[j] == name@;
            assert(names[j] != name@);
        }
    }
    false
}

/// Collects the constructors of the packages named in `modules`, in package
/// order and, within a package, in manifest order. Entries without a path or
/// without an order are left out.
pub fn collect_constructors(packages: Vec<PackageManifest>, modules: &Vec<String>) -> (r: Vec<ConstructorInfo>)
    ensures
        views(r@) == collected_views(packages@, modules@.map_values(|m: String| m@)),
{
    let ghost orig = packages@;
    let ghost names = modules@.map_values(|m: String| m@);
    let mut rest = packages;
    let mut out: Vec<ConstructorInfo> = Vec::new();
    let ghost mut done: int = 0;
    proof {
        assert(views(out@) =~= collected_views(orig.take(0), names));
    }
    while rest.len() > 0
        invariant
            0 <= done <= orig.len(),
            rest@ == orig.skip(done),
            names == modules@.map_values(|m: String| m@),
            views(out@) == collected_views(orig.take(done), names),
        decreases rest@.len(),
    {
        let pkg = rest.remove(0);
        proof {
            assert(orig.take(done + 1).drop_last() =~= orig.take(done));
            assert(orig.take(done + 1).last() == pkg);
            assert(rest@ =~= orig.skip(done + 1));
        }
        let selected = contains_name(modules, &pkg.name);
        let name = pkg.name;
        let ghost before = views(out@);
        let ghost entries = pkg.constructors@;
        let mut entries_left = pkg.constructors;
        let ghost mut j: int = 0;
        if selected {
            proof {
                assert(views(out@) =~= before + entries_views(name@, entries.take(0)));
            }
            while entries_left.len() > 0
                invariant
                    0 <= j <= entries.len(),
                    entries_left@ == entries.skip(j),
                    views(out@) == before + entries_views(name@, entries.take(j)),
                decreases entries_left@.len(),
            {
                let e = entries_left.remove(0);
                proof {
                    assert(entries.take(j + 1).drop_last() =~= entries.take(j));
                    assert(entries.take(j + 1).last() == e);
                    assert(entries_left@ =~= entries.skip(j + 1));
                }
                let ghost prev = views(out@);
                match (e.path, e.order) {
                    (Some(path), Some(order)) => {
                        let mut function = String::from_str("::");
                        function.append(name.as_str());
                        function.append("::");
                        function.append(path.as_str());
                        let info = ConstructorInfo { function, order, cfg: e.cfg, phase: e.phase };
                        out.push(info);
                        proof {
                            assert(views(out@) =~= prev.push(info@));
                            assert(views(out@) =~= before + entries_views(name@, entries.take(j + 1)));
                        }
                    },
                    _ => {
                        proof {
                            assert(views(out@) =~= before + entries_views(name@, entries.take(j + 1)));
                        }
                    },
                }
                proof {
                    j = j + 1;
                }
            }
            proof {
                assert(entries.take(j) =~= entries);
            }
        } else {
            proof {
                assert(views(out@) =~= before + Seq::<InfoView>::empty());
            }
        }
        proof {
            done = done + 1;
        }
    }
    proof {
        assert(orig.take(done) =~= orig);
    }
    out
}

/// The lines that call one constructor, guarded by its configuration.
pub open spec fn call_lines(c: InfoView) -> Seq<char> {
    (match c.cfg {
        Some(g) => "#[cfg("@ + g + ")]\n"@,
        None => Seq::empty(),
    }) + "    "@ + c.function + "(interface);\n"@
}

/// The calls of a plan, one after the other.
pub open spec fn plan_body(plan: Seq<InfoView>) -> Seq<char>
    decreases plan.len(),
{
    if plan.len() == 0 {
        Seq::empty()
    } else {
        plan_body(plan.drop_last()) + call_lines(plan.last())
    }
}

/// The runner source for a plan: the license header, then one function that
/// makes every call in turn.
pub open spec fn runner_text(plan: Seq<InfoView>) -> Seq<char> {
    "// This Source Code Form is subject to the terms of the Mozilla Public\n// License, v. 2.0. If a copy of the MPL was not distributed with this\n// file, You can obtain one at http://mozilla.org/MPL/2.0/.\n\nfn run_modules(interface: &ModuleInterface) {\n"@ + plan_body(plan) + "}\n"@
}

/// Writes the runner source that makes the calls of `plan` in order.
pub fn runner_source(plan: &Vec<ConstructorInfo>) -> (r: String)
    ensures
        r@ == runner_text(views(plan@)),
{
    let mut text = String::from_str("// This Source Code Form is subject to the terms of the Mozilla Public\n// License, v. 2.0. If a copy of the MPL was not distributed with this\n// file, You can obtain one at http://mozilla.org/MPL/2.0/.\n\nfn run_modules(interface: &ModuleInterface) {\n");
    let mut k: usize = 0;
    while k < plan.len()
        invariant
            k <= plan@.len(),
            text@ == "// This Source Code Form is subject to the terms of the Mozilla Public\n// License, v. 2.0. If a copy of the MPL was not distributed with this\n// file, You can obtain one at http://mozilla.org/MPL/2.0/.\n\nfn run_modules(interface: &ModuleInterface) {\n"@ + plan_body(views(plan@).take(k as int)),
        decreases plan@.len() - k,
    {
        let c = &plan[k];
        proof {
            assert(views(plan@).take(k + 1).drop_last() =~= views(plan@).take(k as int));
            assert(views(plan@).take(k + 1).last() == c@);
        }
        let ghost before = text@;
        match &c.cfg {
            Some(g) => {
                text.append("#[cfg(");
                text.append(g.as_str());
                text.append(")]\n");
            },
            None => {},
        }
        text.append("    ");
        text.append(c.function.as_str());
        text.append("(interface);\n");
        proof {
            assert(text@ =~= before + call_lines(c@));
        }
        k = k + 1;
    }
    proof {
        assert(views(plan@).take(k as int) =~= views(plan@));
    }
    text.append("}\n");
    text
}

/// Generates the runner source for the packages named in `modules`: their
/// constructors, init phase first, each phase by ascending order with ties in
/// discovery order, one call per line.
pub fn generate_runner(packages: Vec<PackageManifest>, modules: &Vec<String>) -> (r: String)
    ensures
        exists|infos: Seq<ConstructorInfo>, plan: Seq<ConstructorInfo>|
            {
                &&& views(infos) == collected_views(packages@, modules@.map_values(|m: String| m@))
                &&& is_call_plan(plan, infos)
                &&& r@ == runner_text(views(plan))
            },
{
    let infos = collect_constructors(packages, modules);
    let ghost collected = infos@;
    let plan = order_constructors(infos);
    let text = runner_source(&plan);
    assert(views(collected) == collected_views(packages@, modules@.map_values(|m: String| m@)));
    assert(is_call_plan(plan@, collected));
    text
}

/// Where bring-up stands in its constructor passes.
#[derive(Clone, Copy, Debug, PartialEq, Eq, Structural)]
pub enum BootState {
    /// Init-phase constructors are still to run.
    Uninitialized,
    /// Every init-phase constructor has run; the kernel's mapping is live and
    /// rewire-phase constructors are running.
    MappingEstablished,
    /// Every constructor has run.
    Ready,
}

/// The rank of a state; states only move forward.
pub open spec fn state_rank(s: BootState) -> int {
    match s {
        BootState::Uninitialized => 0,
        BootState::MappingEstablished => 1,
        BootState::Ready => 2,
    }
}

/// Hands out the constructors of a call plan one at a time, init phase first.
pub struct ConstructorRunner {
    plan: Vec<ConstructorInfo>,
    init_count: usize,
    position: usize,
}

impl ConstructorRunner {
    /// The call plan.
    pub closed spec fn spec_plan(&self) -> Seq<ConstructorInfo> {
        self.plan@
    }

    /// How many calls have been handed out.
    pub closed spec fn spec_position(&self) -> nat {
        self.position as nat
    }

    /// The state bring-up is in.
    pub closed spec fn spec_state(&self) -> BootState {
        if self.position < self.init_count {
            BootState::Uninitialized
        } else if self.position < self.plan@.len() {
            BootState::MappingEstablished
        } else {
            BootState::Ready
        }
    }

    /// The runner's invariant: the first `init_count` calls are the init
    /// phase, the rest the rewire phase.
    pub closed spec fn wf(&self) -> bool {
        &&& self.init_count <= self.plan@.len()
        &&& self.position <= self.plan@.len()
        &&& forall|i: int| 0 <= i < self.plan@.len() ==> (#[trigger] self.plan@[i]).phase == (if i
            < self.init_count {
            Phase::Init
        } else {
            Phase::Rewire
        })
    }

    /// A runner over the constructors, ordered into their call plan.
    pub fn new(constructors: Vec<ConstructorInfo>) -> (r: ConstructorRunner)
        ensures
            r.wf(),
            is_call_plan(r.spec_plan(), constructors@),
            r.spec_position() == 0,
    {
        let plan = order_constructors(constructors);
        proof {
            lemma_call_plan_order(plan@, constructors@);
        }
        let mut n: usize = 0;
        while n < plan.len() && plan[n].phase == Phase::Init
            invariant
                n <= plan@.len(),
                forall|i: int| 0 <= i < n ==> (#[trigger] plan@[i]).phase == Phase::Init,
            decreases plan@.len() - n,
        {
            n = n + 1;
        }
        proof {
            assert forall|i: int| n <= i < plan@.len() implies (#[trigger] plan@[i]).phase == Phase::Rewire by {
                if plan@[i].phase == Phase::Init {
                    assert(plan@[n as int].phase == Phase::Init);
                }
            }
        }
        ConstructorRunner { plan, init_count: n, position: 0 }
    }

    /// The state bring-up is in.
    pub fn state(&self) -> (r: BootState)
        ensures
            r == self.spec_state(),
    {
        if self.position < self.init_count {
            BootState::Uninitialized
        } else if self.position < self.plan.len() {
            BootState::MappingEstablished
        } else {
            BootState::Ready
        }
    }

    /// Hands out the next call: an init-phase constructor while the state is
    /// `Uninitialized`, a rewire-phase one while it is `MappingEstablished`,
    /// nothing once it is `Ready`. The state never moves back.
    pub fn next_call(&mut self) -> (r: Option<&ConstructorInfo>)
        requires
            old(self).wf(),
        ensures
            final(self).wf(),
            final(self).spec_plan() == old(self).spec_plan(),
            old(self).spec_state() == BootState::Ready <==> r is None,
            r is None ==> *final(self) == *old(self),
            r matches Some(c) ==> {
                &&& *c == old(self).spec_plan()[old(self).spec_position() as int]
                &&& final(self).spec_position() == old(self).spec_position() + 1
                &&& c.phase == (if old(self).spec_state() == BootState::Uninitialized {
                    Phase::Init
                } else {
                    Phase::Rewire
                })
            },
            state_rank(old(self).spec_state()) <= state_rank(final(self).spec_state()),
    {
        if self.position >= self.plan.len() {
            return None;
        }
        let i = self.position;
        self.position = self.position + 1;
        Some(&self.plan[i])
    }
}

/// The link section of constructor code.
pub const INIT_TEXT_SECTION: &'static str = ".init.text";

/// The early-data section a static item of a constructor is placed in.
#[derive(Clone, Copy, Debug, PartialEq, Eq, Structural)]
pub enum StaticSection {
    /// Read-only data.
    Immutable,
    /// Mutable data.
    Mutable,
    /// Lazily initialized cells.
    Cell,
}

impl StaticSection {
    /// The link section's name.
    pub open spec fn spec_section_name(self) -> Seq<char> {
        match self {
            StaticSection::Immutable => ".init.rodata"@,
            StaticSection::Mutable => ".init.data"@,
            StaticSection::Cell => ".init.cell"@,
        }
    }

    /// The link section's name.
    pub fn section_name(self) -> (r: &'static str)
        ensures
            r@ == self.spec_section_name(),
    {
        match self {
            StaticSection::Immutable => ".init.rodata",
            StaticSection::Mutable => ".init.data",
            StaticSection::Cell => ".init.cell",
        }
    }

    /// The section a static item goes to by default.
    pub open spec fn spec_for_static(type_last_segment: Option<&str>, mutable: bool) -> StaticSection {
        if type_last_segment matches Some(t) && t@ == "InitCell"@ {
            StaticSection::Cell
        } else if mutable {
            StaticSection::Mutable
        } else {
            StaticSection::Immutable
        }
    }

    /// The section an attribute word names.
    pub open spec fn spec_from_keyword(word: Seq<char>) -> Option<StaticSection> {
        if word == "immutable"@ {
            Some(StaticSection::Immutable)
        } else if word == "mutable"@ {
            Some(StaticSection::Mutable)
        } else if word == "cell"@ {
            Some(StaticSection::Cell)
        } else {
            None
        }
    }

    /// The section a static item goes to by default: cells by the last
    /// segment `InitCell` of their type, then `static mut` items, then the rest.
    pub fn for_static(type_last_segment: Option<&str>, mutable: bool) -> (r: StaticSection)
        ensures
            r == StaticSection::spec_for_static(type_last_segment, mutable),
    {
        if let Some(t) = type_last_segment {
            if String::from_str(t) == String::from_str("InitCell") {
                return StaticSection::Cell;
            }
        }
        if mutable {
            StaticSection::Mutable
        } else {
            StaticSection::Immutable
        }
    }

    /// The section named by an attribute argument: `immutable`, `mutable` or
    /// `cell`; `None` for any other word.
    pub fn from_keyword(word: &str) -> (r: Option<StaticSection>)
        ensures
            r == StaticSection::spec_from_keyword(word@),
    {
        let w = String::from_str(word);
        if w == String::from_str("immutable") {
            Some(StaticSection::Immutable)
        } else if w == String::from_str("mutable") {
            Some(StaticSection::Mutable)
        } else if w == String::from_str("cell") {
            Some(StaticSection::Cell)
        } else {
            None
        }
    }
}

/// Why a constructor attribute was rejected.
#[derive(Clone, Copy, Debug, PartialEq, Eq, Structural)]
pub enum InitAttrError {
    /// The attribute on a function takes no arguments.
    Arguments,
    /// The item already has a `link_section` attribute.
    LinkSectionPresent,
    /// The section word is not `immutable`, `mutable` or `cell`.
    UnknownSection,
}

/// The link section of a constructor function: refused when the attribute
/// has arguments, then when the function already names a section.
pub fn init_fn_section(has_arguments: bool, has_link_section: bool) -> (r: Result<&'static str, InitAttrError>)
    ensures
        has_arguments ==> r == Err::<&'static str, InitAttrError>(InitAttrError::Arguments),
        !has_arguments && has_link_section ==> r == Err::<&'static str, InitAttrError>(
            InitAttrError::LinkSectionPresent,
        ),
        !has_arguments && !has_link_section ==> (r matches Ok(s) && s@ == ".init.text"@),
{
    if has_arguments {
        Err(InitAttrError::Arguments)
    } else if has_link_section {
        Err(InitAttrError::LinkSectionPresent)
    } else {
        Ok(INIT_TEXT_SECTION)
    }
}

/// The section of a constructor's static item: the one the attribute names,
/// or else the one its type and mutability select. Refused for an unknown
/// word, then when the item already names a section.
pub fn init_static_section(
    keyword: Option<&str>,
    type_last_segment: Option<&str>,
    mutable: bool,
    has_link_section: bool,
) -> (r: Result<StaticSection, InitAttrError>)
    ensures
        keyword matches Some(w) && StaticSection::spec_from_keyword(w@) is None ==> r == Err::<
            StaticSection,
            InitAttrError,
        >(InitAttrError::UnknownSection),
        !(keyword matches Some(w) && StaticSection::spec_from_keyword(w@) is None) && has_link_section
            ==> r == Err::<StaticSection, InitAttrError>(InitAttrError::LinkSectionPresent),
        !(keyword matches Some(w) && StaticSection::spec_from_keyword(w@) is None) && !has_link_section
            ==> r == Ok::<StaticSection, InitAttrError>(
            match keyword {
                Some(w) => StaticSection::spec_from_keyword(w@).unwrap(),
                None => StaticSection::spec_for_static(type_last_segment, mutable),
            },
        ),
{
    let section = match keyword {
        Some(w) => match StaticSection::from_keyword(w) {
            Some(sec) => sec,
            None => {
                return Err(InitAttrError::UnknownSection);
            },
        },
        None => StaticSection::for_static(type_last_segment, mutable),
    };
    if has_link_section {
        Err(InitAttrError::LinkSectionPresent)
    } else {
        Ok(section)
    }
}

} // verus!
