//! The plugin manager's decision core. Each registered plugin runs two
//! unending polling loops, one with exclusive and one with shared access;
//! this module decides, from the outcome of each hook invocation, what the
//! loop driver must do next, and merges the per-plugin results of an
//! aggregated query, failing fast on the first error and sorting each
//! plugin's events by timing. Acquiring guards, sleeping, and catching a
//! crashed hook are the driver's outside work; every decision about them is
//! made — and stated — here.

use vstd::prelude::*;

verus! {

use vstd::multiset::Multiset;
use vstd::seq_lib::group_to_multiset_ensures;
use vstd::seq_lib::lemma_multiset_commutative;

use crate::api::APIError;
use crate::api::APIResult;
use crate::api::CompressedEvent;
use crate::available_plugins::AvailablePlugins;

/// How long a loop waits after a catastrophic hook failure before it is
/// rescheduled: 300 seconds, in nanoseconds.
pub const FAULT_COOLDOWN_NANOS: u64 = 300 * 1_000_000_000;

/// Which of a plugin's two polling loops is meant: the exclusive-access
/// refresh loop or the shared-access one.
#[derive(Debug, Clone, Copy, PartialEq, Eq, Structural)]
pub enum LoopKind {
    Mutable,
    Read,
}

/// What one invocation of a plugin's refresh hook came to.
pub enum HookOutcome {
    /// The hook returned: run again after the delay (nanoseconds), or — on
    /// `None` — never again until process restart.
    Completed(Option<u64>),
    /// The hook failed catastrophically; the detail describes the fault.
    Panicked(String),
}

/// What the driver of a polling loop must do next.
pub enum LoopAction {
    /// Sleep for the duration (nanoseconds), then invoke the hook again.
    Sleep(u64),
    /// Never invoke this loop again for this plugin.
    Stop,
    /// Report the message and the plugin identity to the panic hook, sleep
    /// the fixed cooldown, then invoke the hook again.
    Report { message: String, cooldown: u64 },
}

/// The diagnostic text reported when a plugin's hook fails catastrophically:
/// the plugin's identity, which loop kind crashed, and the failure detail.
pub open spec fn spec_panic_message(
    plugin: AvailablePlugins,
    kind: LoopKind,
    detail: Seq<char>,
) -> Seq<char> {
    match kind {
        LoopKind::Mutable => plugin.spec_name() + " panicked during a mut update loop: "@ + detail,
        LoopKind::Read => plugin.spec_name() + " panicked during a update loop: "@ + detail,
    }
}

/// The relation `next_loop_action` establishes between a hook outcome and the
/// action decided from it.
pub open spec fn spec_action_matches(
    plugin: AvailablePlugins,
    kind: LoopKind,
    outcome: HookOutcome,
    action: LoopAction,
) -> bool {
    match outcome {
        HookOutcome::Completed(opt) => match opt {
            Some(d) => action == LoopAction::Sleep(d),
            None => action == LoopAction::Stop,
        },
        HookOutcome::Panicked(detail) => match action {
            LoopAction::Report { message, cooldown } => message@ == spec_panic_message(
                plugin,
                kind,
                detail@,
            ) && cooldown == FAULT_COOLDOWN_NANOS,
            _ => false,
        },
    }
}

/// Decides the next step of one polling loop from the outcome of the hook it
/// just invoked. A normal return schedules the requested delay or stops the
/// loop for good; a catastrophic failure is reported — with a message naming
/// the plugin — and the loop is rescheduled after the fixed cooldown, never
/// terminated.
pub fn next_loop_action(plugin: &AvailablePlugins, kind: LoopKind, outcome: HookOutcome) -> (r:
    LoopAction)
    ensures
        spec_action_matches(*plugin, kind, outcome, r),
{
    match outcome {
        HookOutcome::Completed(opt) => match opt {
            Some(d) => LoopAction::Sleep(d),
            None => LoopAction::Stop,
        },
        HookOutcome::Panicked(detail) => {
            let mut message = String::from_str(plugin.name());
            match kind {
                LoopKind::Mutable => message.append(" panicked during a mut update loop: "),
                LoopKind::Read => message.append(" panicked during a update loop: "),
            }
            message.append(detail.as_str());
            LoopAction::Report { message, cooldown: FAULT_COOLDOWN_NANOS }
        },
    }
}

/// The report for a faulted loop carries the faulting plugin's identity: its
/// message begins with the plugin's name.
pub proof fn lemma_report_names_plugin(plugin: AvailablePlugins, kind: LoopKind, detail: Seq<char>)
    ensures
        spec_panic_message(plugin, kind, detail).len() >= plugin.spec_name().len(),
        spec_panic_message(plugin, kind, detail).subrange(
            0,
            plugin.spec_name().len() as int,
        ) == plugin.spec_name(),
{
    let name = plugin.spec_name();
    let msg = spec_panic_message(plugin, kind, detail);
    assert(msg.subrange(0, name.len() as int) =~= name);
}

/// Whether a hook outcome ends its loop for good: only an ordinary return of
/// "never again" does.
pub open spec fn spec_is_terminal(outcome: HookOutcome) -> bool {
    match outcome {
        HookOutcome::Completed(opt) => opt is None,
        HookOutcome::Panicked(_) => false,
    }
}

/// How many times a loop driver invokes the hook when successive invocations
/// come to the given outcomes: it keeps invoking — through delays and faults
/// alike — until an outcome of "never again", which is counted and ends the
/// loop.
pub open spec fn spec_invocations(outcomes: Seq<HookOutcome>) -> nat
    decreases outcomes.len(),
{
    if outcomes.len() == 0 {
        0
    } else if spec_is_terminal(outcomes[0]) {
        1
    } else {
        1 + spec_invocations(outcomes.drop_first())
    }
}

/// A loop is invoked at most once per scripted outcome.
pub proof fn lemma_invocations_le_len(outcomes: Seq<HookOutcome>)
    ensures
        spec_invocations(outcomes) <= outcomes.len(),
    decreases outcomes.len(),
{
    if outcomes.len() > 0 && !spec_is_terminal(outcomes[0]) {
        lemma_invocations_le_len(outcomes.drop_first());
    }
}

/// Replays one polling loop against a script of hook outcomes, exactly as the
/// driver schedules it (with the sleeps left out): one action per invocation,
/// stopping only when an outcome says "never again".
pub fn run_loop_script(plugin: &AvailablePlugins, kind: LoopKind, outcomes: Vec<HookOutcome>) -> (r:
    Vec<LoopAction>)
    ensures
        r@.len() == spec_invocations(outcomes@),
        forall|i: int|
            0 <= i < r@.len() ==> spec_action_matches(*plugin, kind, outcomes@[i], #[trigger] r@[i]),
    decreases outcomes@.len(),
{
    let mut outcomes = outcomes;
    if outcomes.len() == 0 {
        Vec::new()
    } else {
        let ghost orig = outcomes@;
        let first = outcomes.remove(0);
        let ghost snapshot = first;
        let ghost tail = outcomes@;
        let terminal = match &first {
            HookOutcome::Completed(opt) => opt.is_none(),
            HookOutcome::Panicked(_) => false,
        };
        let action = next_loop_action(plugin, kind, first);
        let ghost first_action = action;
        let mut r: Vec<LoopAction> = Vec::new();
        r.push(action);
        proof {
            assert(orig[0] == snapshot);
            assert(tail =~= orig.drop_first());
            assert(terminal == spec_is_terminal(snapshot));
        }
        if !terminal {
            let mut rest = run_loop_script(plugin, kind, outcomes);
            let ghost rest_actions = rest@;
            r.append(&mut rest);
            proof {
                lemma_invocations_le_len(tail);
                assert(r@ =~= seq![first_action] + rest_actions);
                assert(spec_invocations(orig) == 1 + spec_invocations(tail));
                assert forall|i: int|
                    0 <= i < r@.len() implies spec_action_matches(
                    *plugin,
                    kind,
                    orig[i],
                    #[trigger] r@[i],
                ) by {
                    if i == 0 {
                        assert(r@[0] == first_action);
                    } else {
                        assert(r@[i] == rest_actions[i - 1]);
                        assert(tail[i - 1] == orig[i]);
                        assert(spec_action_matches(*plugin, kind, tail[i - 1], rest_actions[i - 1]));
                    }
                }
            }
        } else {
            proof {
                assert(spec_invocations(orig) == 1);
                assert(r@ =~= seq![first_action]);
            }
        }
        r
    }
}

/// Loop termination: when the first two invocations ask to run again and the
/// third answers "never again", the hook is invoked exactly three times — and
/// not once more, however long the script of outcomes goes on after that.
pub proof fn lemma_loop_invoked_exactly_thrice(outcomes: Seq<HookOutcome>)
    requires
        outcomes.len() >= 3,
        !spec_is_terminal(outcomes[0]),
        !spec_is_terminal(outcomes[1]),
        spec_is_terminal(outcomes[2]),
    ensures
        spec_invocations(outcomes) == 3,
{
    let o1 = outcomes.drop_first();
    let o2 = o1.drop_first();
    assert(o1[0] == outcomes[1]);
    assert(o2[0] == outcomes[2]);
    assert(spec_invocations(outcomes) == 1 + spec_invocations(o1));
    assert(spec_invocations(o1) == 1 + spec_invocations(o2));
    assert(spec_invocations(o2) == 1);
}

/// Fault isolation: a catastrophic failure never stops a loop. A script of
/// invocations that all fail still has the hook invoked once per outcome,
/// with no end.
pub proof fn lemma_faults_never_stop(outcomes: Seq<HookOutcome>)
    requires
        forall|i: int| 0 <= i < outcomes.len() ==> (#[trigger] outcomes[i]) is Panicked,
    ensures
        spec_invocations(outcomes) == outcomes.len(),
    decreases outcomes.len(),
{
    if outcomes.len() > 0 {
        assert(outcomes[0] is Panicked);
        lemma_faults_never_stop(outcomes.drop_first());
    }
}

/// The lifecycle of one polling loop, per plugin.
#[derive(Debug, Clone, Copy, PartialEq, Eq, Structural)]
pub enum LoopState {
    /// The next invocation is due (immediately at startup, or after a sleep).
    Scheduled,
    /// The hook is being invoked.
    Running,
    /// The hook failed catastrophically; the failure is being reported.
    Faulted,
    /// The loop has stopped forever (an explicit "never again" return).
    Terminated,
}

/// What moves a polling loop between its states.
#[derive(Debug, Clone, Copy, PartialEq, Eq, Structural)]
pub enum LoopStep {
    /// The driver picks the loop up and invokes the hook.
    Invoke,
    /// The hook returned, asking to run again after a delay or never again.
    Finish(Option<u64>),
    /// The hook failed catastrophically.
    Fault,
    /// The failure has been reported and the cooldown has elapsed.
    Recover,
}

impl LoopState {
    /// The loop lifecycle: `Scheduled` to `Running` on invocation; a finished
    /// run is rescheduled after its delay or terminated on "never again"; a
    /// fault is always followed by a reschedule. A step that does not apply
    /// to the current state leaves it unchanged.
    pub open spec fn spec_transition(self, step: LoopStep) -> LoopState {
        match (self, step) {
            (LoopState::Scheduled, LoopStep::Invoke) => LoopState::Running,
            (LoopState::Running, LoopStep::Finish(Some(_))) => LoopState::Scheduled,
            (LoopState::Running, LoopStep::Finish(None)) => LoopState::Terminated,
            (LoopState::Running, LoopStep::Fault) => LoopState::Faulted,
            (LoopState::Faulted, LoopStep::Recover) => LoopState::Scheduled,
            _ => self,
        }
    }

    pub fn transition(self, step: LoopStep) -> (r: LoopState)
        ensures
            r == self.spec_transition(step),
    {
        match (self, step) {
            (LoopState::Scheduled, LoopStep::Invoke) => LoopState::Running,
            (LoopState::Running, LoopStep::Finish(Some(_))) => LoopState::Scheduled,
            (LoopState::Running, LoopStep::Finish(None)) => LoopState::Terminated,
            (LoopState::Running, LoopStep::Fault) => LoopState::Faulted,
            (LoopState::Faulted, LoopStep::Recover) => LoopState::Scheduled,
            (s, _) => s,
        }
    }
}

/// A fault never terminates a loop: it moves the loop to `Faulted`, from
/// where the only move is back to `Scheduled`. Only an explicit "never again"
/// return reaches `Terminated`.
pub proof fn lemma_fault_never_terminates(step: LoopStep)
    ensures
        LoopState::Running.spec_transition(LoopStep::Fault) == LoopState::Faulted,
        LoopState::Faulted.spec_transition(step) != LoopState::Terminated,
        LoopState::Faulted.spec_transition(LoopStep::Recover) == LoopState::Scheduled,
{
}

/// `Terminated` is the one terminal state: no step leaves it.
pub proof fn lemma_terminated_is_terminal(step: LoopStep)
    ensures
        LoopState::Terminated.spec_transition(step) == LoopState::Terminated,
{
}

/// Events in ascending order of their timing's start instant.
pub open spec fn spec_sorted_by_time(s: Seq<CompressedEvent>) -> bool {
    forall|i: int, j: int|
        0 <= i < j < s.len() ==> (#[trigger] s[i]).time.spec_start() <= (
        #[trigger] s[j]).time.spec_start()
}

fn insert_sorted(list: &mut Vec<CompressedEvent>, event: CompressedEvent)
    requires
        spec_sorted_by_time(old(list)@),
    ensures
        spec_sorted_by_time(final(list)@),
        final(list)@.to_multiset() == old(list)@.to_multiset().insert(event),
        final(list)@.len() == old(list)@.len() + 1,
{
    broadcast use group_to_multiset_ensures;
    broadcast use vstd::multiset::group_multiset_axioms;

    let key = event.time.start_nanos();
    let ghost s = list@;
    let mut pos: usize = 0;
    while pos < list.len() && list[pos].time.start_nanos() <= key
        invariant
            pos <= list@.len(),
            list@ == s,
            forall|j: int| 0 <= j < pos ==> (#[trigger] s[j]).time.spec_start() <= key,
        decreases list@.len() - pos,
    {
        pos = pos + 1;
    }
    list.insert(pos, event);
    proof {
        let t = list@;
        assert(t == s.insert(pos as int, event));
        s.insert_ensures(pos as int, event);
        assert(spec_sorted_by_time(t)) by {
            assert forall|i: int, j: int| 0 <= i < j < t.len() implies (
            #[trigger] t[i]).time.spec_start() <= (#[trigger] t[j]).time.spec_start() by {
                if j < pos {
                } else if i < pos && j == pos {
                } else if i == pos {
                    assert(t[j] == s[j - 1]);
                    assert(s[pos as int].time.spec_start() > key);
                    if j - 1 > pos {
                        assert(s[pos as int].time.spec_start() <= s[j - 1].time.spec_start());
                    }
                } else if i < pos && j > pos {
                    assert(t[i] == s[i]);
                    assert(t[j] == s[j - 1]);
                } else {
                    assert(t[i] == s[i - 1]);
                    assert(t[j] == s[j - 1]);
                }
            }
        }
        assert(t.to_multiset() == s.to_multiset().insert(event)) by {
            let front = s.subrange(0, pos as int);
            let back = s.subrange(pos as int, s.len() as int);
            assert(t == front.push(event) + back);
            lemma_multiset_commutative(front.push(event), back);
            lemma_multiset_commutative(front, back);
            assert(s =~= front + back);
            assert(front.push(event).to_multiset() =~= front.to_multiset().insert(event));
            assert(t.to_multiset() =~= s.to_multiset().insert(event));
        }
    }
}

/// Sorts a plugin's events ascending by timing. The result is a permutation
/// of the input: the same events, as a multiset.
pub fn sort_events(events: Vec<CompressedEvent>) -> (r: Vec<CompressedEvent>)
    ensures
        spec_sorted_by_time(r@),
        r@.to_multiset() == events@.to_multiset(),
        r@.len() == events@.len(),
{
    broadcast use group_to_multiset_ensures;
    broadcast use vstd::multiset::group_multiset_axioms;

    let ghost orig = events@;
    let mut events = events;
    let mut r: Vec<CompressedEvent> = Vec::new();
    while events.len() > 0
        invariant
            spec_sorted_by_time(r@),
            r@.to_multiset().add(events@.to_multiset()) =~= orig.to_multiset(),
            r@.len() + events@.len() == orig.len(),
        decreases events@.len(),
    {
        let ghost before = events@;
        let ghost r_before = r@;
        let next = events.remove(0);
        proof {
            before.to_multiset_ensures();
            assert(next == before[0]);
            assert(events@ =~= before.remove(0));
            assert(before.remove(0).to_multiset() =~= before.to_multiset().remove(next));
            assert(events@.to_multiset() =~= before.to_multiset().remove(next));
            assert(0 <= 0 < before.len() && before[0] == next);
            assert(before.contains(next));
            assert(before.to_multiset().count(next) > 0);
            assert(before.to_multiset() =~= events@.to_multiset().insert(next));
        }
        insert_sorted(&mut r, next);
        proof {
            assert(r@.to_multiset() =~= r_before.to_multiset().insert(next));
            assert(r@.to_multiset().add(events@.to_multiset()) =~= orig.to_multiset());
        }
    }
    proof {
        assert(events@.len() == 0);
        assert(events@.to_multiset().len() == 0);
        assert(events@.to_multiset() =~= Multiset::<CompressedEvent>::empty());
        assert(r@.to_multiset() =~= orig.to_multiset());
    }
    r
}

/// The plugin tags of a fanned-out query's completions, in completion order.
pub open spec fn spec_result_keys(
    results: Seq<(AvailablePlugins, APIResult<Vec<CompressedEvent>>)>,
) -> Seq<AvailablePlugins> {
    results.map_values(|p: (AvailablePlugins, APIResult<Vec<CompressedEvent>>)| p.0)
}

/// The plugin tags of an aggregated result map, in entry order.
pub open spec fn spec_entry_keys(
    entries: Seq<(AvailablePlugins, Vec<CompressedEvent>)>,
) -> Seq<AvailablePlugins> {
    entries.map_values(|p: (AvailablePlugins, Vec<CompressedEvent>)| p.0)
}

/// No plugin identity appears twice.
pub open spec fn spec_unique_plugins(s: Seq<AvailablePlugins>) -> bool {
    forall|i: int, j: int| 0 <= i < j < s.len() ==> s[i] != s[j]
}

/// The manager's registry: the closed set of plugins it polls and queries,
/// fixed once at startup from the build-time registration table.
pub struct PluginManager {
    plugins: Vec<AvailablePlugins>,
}

impl PluginManager {
    /// The registered plugin identities, in registration order.
    pub closed spec fn spec_plugins(self) -> Seq<AvailablePlugins> {
        self.plugins@
    }

    pub open spec fn wf(self) -> bool {
        spec_unique_plugins(self.spec_plugins())
    }

    /// Consumes the build-time registry: one entry per plugin identity. The
    /// caller wraps each instance in its guard and spawns its two polling
    /// loops, initially `Scheduled`.
    pub fn new(plugins: Vec<AvailablePlugins>) -> (r: Self)
        requires
            spec_unique_plugins(plugins@),
        ensures
            r.wf(),
            r.spec_plugins() == plugins@,
    {
        PluginManager { plugins }
    }

    /// The registered plugin identities.
    pub fn registered(&self) -> (r: &Vec<AvailablePlugins>)
        ensures
            r@ == self.spec_plugins(),
    {
        &self.plugins
    }

    /// Looks a single plugin up in the registry, for callers that need to
    /// mount its routes against the live instance held at the same position.
    pub fn get_plugin(&self, plugin: &AvailablePlugins) -> (r: Option<usize>)
        ensures
            match r {
                Some(i) => i < self.spec_plugins().len() && self.spec_plugins()[i as int]
                    == *plugin,
                None => !self.spec_plugins().contains(*plugin),
            },
    {
        let mut i: usize = 0;
        while i < self.plugins.len()
            invariant
                i <= self.plugins@.len(),
                forall|j: int| 0 <= j < i ==> self.plugins@[j] != *plugin,
        decreases self.plugins@.len() - i,
        {
            if self.plugins[i] == *plugin {
                return Some(i);
            }
            i = i + 1;
        }
        None
    }

    /// Merges the completions of one aggregated query, in the order they
    /// completed. The first error aborts the whole query and is returned
    /// alone; the work of plugins that had already completed is discarded.
    /// On success every registered plugin appears exactly once, with its
    /// events sorted ascending by timing.
    #[verifier::loop_isolation(false)]
    pub fn get_compress_events(
        &self,
        results: Vec<(AvailablePlugins, APIResult<Vec<CompressedEvent>>)>,
    ) -> (r: APIResult<Vec<(AvailablePlugins, Vec<CompressedEvent>)>>)
        requires
            spec_result_keys(results@).to_multiset() == self.spec_plugins().to_multiset(),
        ensures
            (r is Ok) <==> (forall|i: int|
                0 <= i < results@.len() ==> (#[trigger] results@[i]).1 is Ok),
            r matches Ok(m) ==> {
                &&& m@.len() == results@.len()
                &&& forall|i: int| 0 <= i < m@.len() ==> (#[trigger] m@[i]).0 == results@[i].0
                &&& forall|i: int| 0 <= i < m@.len() ==> spec_sorted_by_time((#[trigger] m@[i]).1@)
                &&& forall|i: int|
                    0 <= i < m@.len() ==> ((#[trigger] results@[i]).1 matches Ok(evs)
                        && m@[i].1@.to_multiset() == evs@.to_multiset())
                &&& spec_entry_keys(m@).to_multiset() == self.spec_plugins().to_multiset()
            },
            r matches Err(e) ==> exists|i: int|
                0 <= i < results@.len() && (#[trigger] results@[i]).1 == Err::<
                    Vec<CompressedEvent>,
                    APIError,
                >(e) && (forall|j: int| 0 <= j < i ==> (#[trigger] results@[j]).1 is Ok),
    {
        let ghost orig = results@;
        let mut results = results;
        let total = results.len();
        proof {
            assert(orig.len() == total as int);
        }
        let mut out: Vec<(AvailablePlugins, Vec<CompressedEvent>)> = Vec::new();
        let mut k: usize = 0;
        while results.len() > 0
            invariant
                orig.len() <= usize::MAX,
                k + results@.len() == orig.len(),
                results@ =~= orig.skip(k as int),
                out@.len() == k,
                forall|j: int| 0 <= j < k ==> (#[trigger] orig[j]).1 is Ok,
                forall|i: int| 0 <= i < k ==> (#[trigger] out@[i]).0 == orig[i].0,
                forall|i: int| 0 <= i < k ==> spec_sorted_by_time((#[trigger] out@[i]).1@),
                forall|i: int|
                    0 <= i < k ==> ((#[trigger] orig[i]).1 matches Ok(evs)
                        && out@[i].1@.to_multiset() == evs@.to_multiset()),
            decreases results@.len(),
        {
            let ghost before = results@;
            let (name, completed) = results.remove(0);
            let ghost taken = (name, completed);
            proof {
                assert(before.remove(0) =~= before.drop_first());
                assert(before[0] == orig[k as int]);
                assert(taken == orig[k as int]);
                assert(results@ =~= orig.skip(k as int + 1));
            }
            match completed {
                Ok(events) => {
                    let ghost evs_view = events@;
                    let sorted = sort_events(events);
                    out.push((name, sorted));
                    proof {
                        assert(orig[k as int].1 == Ok::<Vec<CompressedEvent>, APIError>(events));
                        assert(out@[k as int].1@.to_multiset() == evs_view.to_multiset());
                    }
                    k = k + 1;
                },
                Err(e) => {
                    proof {
                        assert(exists|i: int|
                            0 <= i < orig.len() && (#[trigger] orig[i]).1 == Err::<
                                Vec<CompressedEvent>,
                                APIError,
                            >(e) && (forall|j: int|
                                0 <= j < i ==> (#[trigger] orig[j]).1 is Ok));
                    }
                    return Err(e);
                },
            }
        }
        proof {
            assert(orig.skip(k as int).len() == 0);
            assert(k == orig.len());
            assert(spec_entry_keys(out@).to_multiset() == self.spec_plugins().to_multiset()) by {
                assert(spec_entry_keys(out@) =~= spec_result_keys(orig));
            }
        }
        Ok(out)
    }
}

/// Aggregation completeness: a successful aggregated query has exactly one
/// entry per registered plugin — no identity twice, every registered plugin
/// among the keys, and as many entries as registered plugins.
pub proof fn lemma_every_plugin_answered(
    manager: PluginManager,
    entries: Seq<(AvailablePlugins, Vec<CompressedEvent>)>,
    plugin: AvailablePlugins,
)
    requires
        manager.wf(),
        spec_entry_keys(entries).to_multiset() == manager.spec_plugins().to_multiset(),
        manager.spec_plugins().contains(plugin),
    ensures
        entries.len() == manager.spec_plugins().len(),
        spec_unique_plugins(spec_entry_keys(entries)),
        exists|i: int| 0 <= i < entries.len() && (#[trigger] entries[i]).0 == plugin,
{
    broadcast use group_to_multiset_ensures;

    let keys = spec_entry_keys(entries);
    assert(keys.to_multiset().len() == keys.len());
    assert(manager.spec_plugins().to_multiset().len() == manager.spec_plugins().len());
    assert(manager.spec_plugins().no_duplicates());
    manager.spec_plugins().lemma_multiset_has_no_duplicates();
    keys.lemma_multiset_has_no_duplicates_conv();
    assert(keys.no_duplicates());
    assert(manager.spec_plugins().to_multiset().contains(plugin));
    assert(keys.contains(plugin));
    let i = choose|i: int| 0 <= i < keys.len() && keys[i] == plugin;
    assert(entries[i].0 == plugin);
}

} // verus!
