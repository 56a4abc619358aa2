use vstd::prelude::*;

use crate::actions::{ActionAtoms, Request, plan_window_rule, spec_plan_rule};
use crate::geometry::{MonitorGeometry, WindowGeometry, spec_chosen_rect};
use crate::rules::CompiledRule;

verus! {

/// The five attributes rule matching reads of a window.
#[derive(Debug)]
pub struct WindowAttrs {
    pub class: String,
    pub title: String,
    pub role: String,
    pub process: String,
    pub window_type: String,
}

/// What one wakeup of the event loop does, decided from which sources are
/// ready: shutdown wins over everything; otherwise the configuration is
/// reloaded if it changed and pending protocol events are processed if the
/// connection is readable.
#[derive(Debug, Clone, Copy, PartialEq, Eq, Structural)]
pub enum LoopStep {
    Shutdown,
    Continue { reload: bool, process: bool },
}

pub open spec fn spec_decide(signal_ready: bool, config_ready: bool, protocol_ready: bool) -> LoopStep {
    if signal_ready {
        LoopStep::Shutdown
    } else {
        LoopStep::Continue { reload: config_ready, process: protocol_ready }
    }
}

/// Decides one wakeup of the event loop from the readiness of the three
/// sources.
pub fn decide(signal_ready: bool, config_ready: bool, protocol_ready: bool) -> (r: LoopStep)
    ensures
        r == spec_decide(signal_ready, config_ready, protocol_ready),
{
    if signal_ready {
        LoopStep::Shutdown
    } else {
        LoopStep::Continue { reload: config_ready, process: protocol_ready }
    }
}

/// Installs the outcome of a reload attempt: a freshly compiled rule set
/// replaces the active one atomically; a failed reload leaves the active
/// rules exactly as they were.
pub fn apply_reload(active: &mut Vec<CompiledRule>, outcome: Result<Vec<CompiledRule>, String>) -> (r: Result<
    usize,
    String,
>)
    ensures
        outcome matches Ok(n) ==> final(active)@ == n@ && (r matches Ok(c) && c == n@.len()),
        outcome matches Err(e) ==> *final(active) == *old(active) && (r matches Err(e2) && e2
            == e),
{
    match outcome {
        Ok(new_rules) => {
            let count = new_rules.len();
            *active = new_rules;
            Ok(count)
        },
        Err(e) => Err(e),
    }
}

// SESSION SETS

fn vec_contains(v: &Vec<u32>, w: u32) -> (r: bool)
    ensures
        r == v@.contains(w),
{
    let n = v.len();
    let mut i: usize = 0;
    while i < n
        invariant
            n == v@.len(),
            i <= n,
            forall|j: int| 0 <= j < i ==> v@[j] != w,
        decreases n - i,
    {
        if v[i] == w {
            return true;
        }
        i = i + 1;
    }
    proof {
        assert(!v@.contains(w));
    }
    false
}

fn copy_handles(v: &Vec<u32>) -> (r: Vec<u32>)
    ensures
        r@ == v@,
{
    let n = v.len();
    let mut out: Vec<u32> = Vec::new();
    let mut i: usize = 0;
    while i < n
        invariant
            n == v@.len(),
            i <= n,
            out@ == v@.take(i as int),
        decreases n - i,
    {
        out.push(v[i]);
        proof {
            assert(v@.take(i as int).push(v@[i as int]) =~= v@.take(i as int + 1));
        }
        i = i + 1;
    }
    proof {
        assert(v@.take(n as int) =~= v@);
    }
    out
}

/// The three sets of window handles the session controller owns: the last
/// observed client-list snapshot, the windows already rule-evaluated, and
/// the windows present at startup that are still to be dispatched once.
pub struct SessionSets {
    pub known_clients: Vec<u32>,
    pub handled: Vec<u32>,
    pub pending_startup: Vec<u32>,
}

/// The windows of `current` that are genuinely new: not in the last
/// snapshot and not yet handled, each counted once even if the list
/// repeats it.
pub open spec fn spec_new_windows(current: Seq<u32>, known: Seq<u32>, handled: Seq<u32>) -> Seq<u32>
    decreases current.len(),
{
    if current.len() == 0 {
        Seq::empty()
    } else {
        let w = current[0];
        if !known.contains(w) && !handled.contains(w) {
            seq![w] + spec_new_windows(current.drop_first(), known, handled.push(w))
        } else {
            spec_new_windows(current.drop_first(), known, handled)
        }
    }
}

impl SessionSets {
    /// A fresh session: the windows present at startup are both the known
    /// snapshot and the startup backlog; nothing is handled yet.
    pub fn new(initial: Vec<u32>) -> (r: SessionSets)
        ensures
            r.known_clients@ == initial@,
            r.pending_startup@ == initial@,
            r.handled@ == Seq::<u32>::empty(),
    {
        let pending = copy_handles(&initial);
        SessionSets { known_clients: initial, handled: Vec::new(), pending_startup: pending }
    }

    /// Takes the startup backlog, exactly once: afterwards it is empty.
    pub fn take_startup(&mut self) -> (r: Vec<u32>)
        ensures
            r@ == old(self).pending_startup@,
            final(self).pending_startup@ == Seq::<u32>::empty(),
            final(self).known_clients == old(self).known_clients,
            final(self).handled == old(self).handled,
    {
        let mut taken: Vec<u32> = Vec::new();
        core::mem::swap(&mut taken, &mut self.pending_startup);
        taken
    }

    /// Records that a window went through rule evaluation; `handled` is
    /// append-only for the life of the process.
    pub fn mark_handled(&mut self, w: u32)
        ensures
            final(self).handled@ == old(self).handled@.push(w),
            final(self).known_clients == old(self).known_clients,
            final(self).pending_startup == old(self).pending_startup,
    {
        self.handled.push(w);
    }

    /// Adopts a fresh client-list snapshot: returns the genuinely new
    /// windows (in list order, each once), marks them handled, and replaces
    /// the known snapshot.
    pub fn adopt_client_list(&mut self, current: &Vec<u32>) -> (r: Vec<u32>)
        ensures
            r@ == spec_new_windows(current@, old(self).known_clients@, old(self).handled@),
            final(self).handled@ == old(self).handled@ + r@,
            final(self).known_clients@ == current@,
            final(self).pending_startup == old(self).pending_startup,
    {
        let ghost known0 = self.known_clients@;
        let ghost handled0 = self.handled@;
        let n = current.len();
        let mut out: Vec<u32> = Vec::new();
        let mut i: usize = 0;
        proof {
            assert(current@.skip(0) =~= current@);
            assert(handled0 + out@ =~= handled0);
            assert(out@ + spec_new_windows(current@, known0, handled0) =~= spec_new_windows(
                current@,
                known0,
                handled0,
            ));
        }
        while i < n
            invariant
                n == current@.len(),
                i <= n,
                self.known_clients@ == known0,
                self.pending_startup == old(self).pending_startup,
                self.handled@ == handled0 + out@,
                spec_new_windows(current@, known0, handled0) == out@ + spec_new_windows(
                    current@.skip(i as int),
                    known0,
                    self.handled@,
                ),
            decreases n - i,
        {
            let w = current[i];
            proof {
                assert(current@.skip(i as int)[0] == w);
                assert(current@.skip(i as int).drop_first() =~= current@.skip(i as int + 1));
            }
            if !vec_contains(&self.known_clients, w) && !vec_contains(&self.handled, w) {
                out.push(w);
                self.handled.push(w);
                proof {
                    assert(self.handled@ =~= handled0 + out@);
                    assert(out@.drop_last() + (seq![w] + spec_new_windows(
                        current@.skip(i as int + 1),
                        known0,
                        self.handled@,
                    )) =~= out@ + spec_new_windows(current@.skip(i as int + 1), known0, self.handled@));
                }
            }
            i = i + 1;
        }
        proof {
            assert(current@.skip(n as int) =~= Seq::<u32>::empty());
            assert(out@ + Seq::<u32>::empty() =~= out@);
        }
        self.known_clients = copy_handles(current);
        out
    }
}

/// What adoption hands back is fresh and unrepeated: no returned window was
/// already handled or already known, and no window is returned twice.
pub proof fn lemma_new_windows_fresh(current: Seq<u32>, known: Seq<u32>, handled: Seq<u32>)
    ensures
        ({
            let r = spec_new_windows(current, known, handled);
            &&& forall|k: int|
                0 <= k < r.len() ==> !handled.contains(#[trigger] r[k]) && !known.contains(r[k])
            &&& forall|k1: int, k2: int| 0 <= k1 < k2 < r.len() ==> r[k1] != r[k2]
        }),
    decreases current.len(),
{
    let r = spec_new_windows(current, known, handled);
    if current.len() > 0 {
        let w = current[0];
        let rest = current.drop_first();
        if !known.contains(w) && !handled.contains(w) {
            let r0 = spec_new_windows(rest, known, handled.push(w));
            lemma_new_windows_fresh(rest, known, handled.push(w));
            assert forall|x: u32| !handled.push(w).contains(x) implies !handled.contains(x) && x
                != w by {
                if handled.contains(x) {
                    let j = choose|j: int| 0 <= j < handled.len() && handled[j] == x;
                    assert(handled.push(w)[j] == x);
                }
                assert(handled.push(w)[handled.len() as int] == w);
            }
            assert(r == seq![w] + r0);
            assert forall|k: int| 0 <= k < r.len() implies !handled.contains(#[trigger] r[k])
                && !known.contains(r[k]) by {
                if k == 0 {
                    assert(r[0] == w);
                } else {
                    assert(r[k] == r0[k - 1]);
                    assert(!handled.push(w).contains(r0[k - 1]));
                }
            }
            assert forall|k1: int, k2: int| 0 <= k1 < k2 < r.len() implies r[k1] != r[k2] by {
                assert(r[k2] == r0[k2 - 1]);
                assert(!handled.push(w).contains(r0[k2 - 1]));
                if k1 == 0 {
                    assert(r[k1] == w);
                    assert(handled.push(w)[handled.len() as int] == w);
                } else {
                    assert(r[k1] == r0[k1 - 1]);
                }
            }
        } else {
            lemma_new_windows_fresh(rest, known, handled);
            assert(r == spec_new_windows(rest, known, handled));
        }
    }
}


/// The indices of the rules that match the window's attributes, in rule
/// order, starting the scan at `i`.
pub open spec fn spec_matching_from(
    rules: Seq<CompiledRule>,
    class: Seq<char>,
    title: Seq<char>,
    role: Seq<char>,
    process: Seq<char>,
    window_type: Seq<char>,
    i: nat,
) -> Seq<usize>
    decreases rules.len() - i,
{
    if i >= rules.len() {
        Seq::empty()
    } else if rules[i as int].spec_matches(class, title, role, process, window_type) {
        seq![i as usize] + spec_matching_from(rules, class, title, role, process, window_type, i + 1)
    } else {
        spec_matching_from(rules, class, title, role, process, window_type, i + 1)
    }
}

/// Which rules of the set match the window, in rule order.
pub fn matching_rule_indices(rules: &Vec<CompiledRule>, attrs: &WindowAttrs) -> (r: Vec<usize>)
    ensures
        r@ == spec_matching_from(
            rules@,
            attrs.class@,
            attrs.title@,
            attrs.role@,
            attrs.process@,
            attrs.window_type@,
            0,
        ),
        forall|k: int| 0 <= k < r@.len() ==> (#[trigger] r@[k]) < rules@.len(),
{
    let ghost full = spec_matching_from(
        rules@,
        attrs.class@,
        attrs.title@,
        attrs.role@,
        attrs.process@,
        attrs.window_type@,
        0,
    );
    proof {
        lemma_matching_from_bounds(
            rules@,
            attrs.class@,
            attrs.title@,
            attrs.role@,
            attrs.process@,
            attrs.window_type@,
            0,
        );
    }
    let n = rules.len();
    let mut out: Vec<usize> = Vec::new();
    let mut i: usize = 0;
    proof {
        assert(out@ + full =~= full);
    }
    while i < n
        invariant
            n == rules@.len(),
            i <= n,
            full == out@ + spec_matching_from(
                rules@,
                attrs.class@,
                attrs.title@,
                attrs.role@,
                attrs.process@,
                attrs.window_type@,
                i as nat,
            ),
        decreases n - i,
    {
        let rule = &rules[i];
        if rule.matches(
            attrs.class.as_str(),
            attrs.title.as_str(),
            attrs.role.as_str(),
            attrs.process.as_str(),
            attrs.window_type.as_str(),
        ) {
            let ghost before = out@;
            out.push(i);
            proof {
                assert(before + (seq![i] + spec_matching_from(
                    rules@,
                    attrs.class@,
                    attrs.title@,
                    attrs.role@,
                    attrs.process@,
                    attrs.window_type@,
                    i as nat + 1,
                )) =~= out@ + spec_matching_from(
                    rules@,
                    attrs.class@,
                    attrs.title@,
                    attrs.role@,
                    attrs.process@,
                    attrs.window_type@,
                    i as nat + 1,
                ));
            }
        }
        i = i + 1;
    }
    proof {
        assert(out@ + Seq::<usize>::empty() =~= out@);
    }
    out
}

proof fn lemma_matching_from_bounds(
    rules: Seq<CompiledRule>,
    class: Seq<char>,
    title: Seq<char>,
    role: Seq<char>,
    process: Seq<char>,
    window_type: Seq<char>,
    i: nat,
)
    ensures
        forall|k: int|
            0 <= k < spec_matching_from(rules, class, title, role, process, window_type, i).len()
                ==> (#[trigger] spec_matching_from(
                rules,
                class,
                title,
                role,
                process,
                window_type,
                i,
            )[k]) < rules.len(),
    decreases rules.len() - i,
{
    if i < rules.len() {
        lemma_matching_from_bounds(rules, class, title, role, process, window_type, i + 1);
        let r = spec_matching_from(rules, class, title, role, process, window_type, i);
        let r0 = spec_matching_from(rules, class, title, role, process, window_type, i + 1);
        if rules[i as int].spec_matches(class, title, role, process, window_type) {
            assert(r == seq![i as usize] + r0);
            assert forall|k: int| 0 <= k < r.len() implies (#[trigger] r[k]) < rules.len() by {
                if k == 0 {
                    assert(r[0] == i as usize);
                } else {
                    assert(r[k] == r0[k - 1]);
                }
            }
        }
    }
}

// THE PLAN FOR ONE WINDOW

/// The writes for one window under a rule set: each matching rule
/// contributes its full plan, in rule-set order; later rules may override
/// what earlier ones set.
pub open spec fn spec_window_plan(
    rules: Seq<CompiledRule>,
    class: Seq<char>,
    title: Seq<char>,
    role: Seq<char>,
    process: Seq<char>,
    window_type: Seq<char>,
    mons: Seq<MonitorGeometry>,
    win: Option<WindowGeometry>,
    atoms: ActionAtoms,
) -> Seq<Request>
    decreases rules.len(),
{
    if rules.len() == 0 {
        Seq::empty()
    } else {
        let head = if rules[0].spec_matches(class, title, role, process, window_type) {
            spec_plan_rule(rules[0], spec_chosen_rect(rules[0].monitor, mons, win), win, atoms)
        } else {
            Seq::empty()
        };
        head + spec_window_plan(
            rules.drop_first(),
            class,
            title,
            role,
            process,
            window_type,
            mons,
            win,
            atoms,
        )
    }
}

/// Evaluates one window against the whole rule set and plans the writes of
/// every matching rule, in order.
pub fn plan_window(
    rules: &Vec<CompiledRule>,
    attrs: &WindowAttrs,
    monitors: &Vec<MonitorGeometry>,
    win: Option<WindowGeometry>,
    atoms: &ActionAtoms,
) -> (r: Vec<Request>)
    requires
        forall|j: int| 0 <= j < rules@.len() ==> (#[trigger] rules@[j]).wf(),
    ensures
        r@ == spec_window_plan(
            rules@,
            attrs.class@,
            attrs.title@,
            attrs.role@,
            attrs.process@,
            attrs.window_type@,
            monitors@,
            win,
            *atoms,
        ),
{
    let ghost full = spec_window_plan(
        rules@,
        attrs.class@,
        attrs.title@,
        attrs.role@,
        attrs.process@,
        attrs.window_type@,
        monitors@,
        win,
        *atoms,
    );
    let n = rules.len();
    let mut out: Vec<Request> = Vec::new();
    let mut i: usize = 0;
    proof {
        assert(rules@.skip(0) =~= rules@);
        assert(out@ + full =~= full);
    }
    while i < n
        invariant
            n == rules@.len(),
            i <= n,
            forall|j: int| 0 <= j < rules@.len() ==> (#[trigger] rules@[j]).wf(),
            full == spec_window_plan(
                rules@,
                attrs.class@,
                attrs.title@,
                attrs.role@,
                attrs.process@,
                attrs.window_type@,
                monitors@,
                win,
                *atoms,
            ),
            full == out@ + spec_window_plan(
                rules@.skip(i as int),
                attrs.class@,
                attrs.title@,
                attrs.role@,
                attrs.process@,
                attrs.window_type@,
                monitors@,
                win,
                *atoms,
            ),
        decreases n - i,
    {
        let rule = &rules[i];
        proof {
            assert(rules@.skip(i as int)[0] == rules@[i as int]);
            assert(rules@.skip(i as int).drop_first() =~= rules@.skip(i as int + 1));
        }
        if rule.matches(
            attrs.class.as_str(),
            attrs.title.as_str(),
            attrs.role.as_str(),
            attrs.process.as_str(),
            attrs.window_type.as_str(),
        ) {
            let mut plan = plan_window_rule(rule, monitors, win, atoms);
            let ghost before = out@;
            let ghost plan_view = plan@;
            out.append(&mut plan);
            proof {
                assert(out@ == before + plan_view);
                assert(before + (plan_view + spec_window_plan(
                    rules@.skip(i as int + 1),
                    attrs.class@,
                    attrs.title@,
                    attrs.role@,
                    attrs.process@,
                    attrs.window_type@,
                    monitors@,
                    win,
                    *atoms,
                )) =~= out@ + spec_window_plan(
                    rules@.skip(i as int + 1),
                    attrs.class@,
                    attrs.title@,
                    attrs.role@,
                    attrs.process@,
                    attrs.window_type@,
                    monitors@,
                    win,
                    *atoms,
                ));
            }
        }
        i = i + 1;
    }
    proof {
        assert(rules@.skip(n as int) =~= Seq::<CompiledRule>::empty());
        assert(out@ + Seq::<Request>::empty() =~= out@);
    }
    out
}


/// The plans of the rules under the given indices, concatenated in order.
pub open spec fn spec_plans_at(
    rules: Seq<CompiledRule>,
    idxs: Seq<usize>,
    mons: Seq<MonitorGeometry>,
    win: Option<WindowGeometry>,
    atoms: ActionAtoms,
) -> Seq<Request>
    decreases idxs.len(),
{
    if idxs.len() == 0 {
        Seq::empty()
    } else {
        spec_plan_rule(
            rules[idxs[0] as int],
            spec_chosen_rect(rules[idxs[0] as int].monitor, mons, win),
            win,
            atoms,
        ) + spec_plans_at(rules, idxs.drop_first(), mons, win, atoms)
    }
}

proof fn lemma_plan_follows_matching_from(
    rules: Seq<CompiledRule>,
    class: Seq<char>,
    title: Seq<char>,
    role: Seq<char>,
    process: Seq<char>,
    window_type: Seq<char>,
    mons: Seq<MonitorGeometry>,
    win: Option<WindowGeometry>,
    atoms: ActionAtoms,
    i: nat,
)
    requires
        i <= rules.len(),
        rules.len() <= usize::MAX,
    ensures
        spec_plans_at(
            rules,
            spec_matching_from(rules, class, title, role, process, window_type, i),
            mons,
            win,
            atoms,
        ) == spec_window_plan(
            rules.skip(i as int),
            class,
            title,
            role,
            process,
            window_type,
            mons,
            win,
            atoms,
        ),
    decreases rules.len() - i,
{
    if i < rules.len() {
        lemma_plan_follows_matching_from(
            rules,
            class,
            title,
            role,
            process,
            window_type,
            mons,
            win,
            atoms,
            i + 1,
        );
        assert(rules.skip(i as int)[0] == rules[i as int]);
        assert(rules.skip(i as int).drop_first() =~= rules.skip(i as int + 1));
        let idxs = spec_matching_from(rules, class, title, role, process, window_type, i);
        let rest_plan = spec_window_plan(
            rules.skip(i as int + 1),
            class,
            title,
            role,
            process,
            window_type,
            mons,
            win,
            atoms,
        );
        if rules[i as int].spec_matches(class, title, role, process, window_type) {
            assert(idxs == seq![i as usize] + spec_matching_from(
                rules,
                class,
                title,
                role,
                process,
                window_type,
                i + 1,
            ));
            assert(idxs[0] == i as usize);
            assert((i as usize) as int == i as int);
            assert(idxs.drop_first() =~= spec_matching_from(
                rules,
                class,
                title,
                role,
                process,
                window_type,
                i + 1,
            ));
        } else {
            assert(Seq::<Request>::empty() + rest_plan =~= rest_plan);
        }
    } else {
        assert(rules.skip(i as int).len() == 0);
    }
}

/// Planning a window follows the matcher exactly: the whole-window plan is
/// the concatenation of the matching rules' plans, in the order the
/// matcher reports them — so the live path and a per-matched-rule dispatch
/// (as a dry run walks it) act on the same rules in the same order.
pub proof fn lemma_plan_follows_matching(
    rules: Seq<CompiledRule>,
    class: Seq<char>,
    title: Seq<char>,
    role: Seq<char>,
    process: Seq<char>,
    window_type: Seq<char>,
    mons: Seq<MonitorGeometry>,
    win: Option<WindowGeometry>,
    atoms: ActionAtoms,
)
    requires
        rules.len() <= usize::MAX,
    ensures
        spec_window_plan(rules, class, title, role, process, window_type, mons, win, atoms)
            == spec_plans_at(
            rules,
            spec_matching_from(rules, class, title, role, process, window_type, 0),
            mons,
            win,
            atoms,
        ),
{
    lemma_plan_follows_matching_from(
        rules,
        class,
        title,
        role,
        process,
        window_type,
        mons,
        win,
        atoms,
        0,
    );
    assert(rules.skip(0) =~= rules);
}

} // verus!
