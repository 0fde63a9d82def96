//! The iteration state machine: termination policy, hat selection, prompt assembly and
//! ingestion of the agent's output. Running the agent is left to the caller, which hands
//! back its output, whether it succeeded, its cost and the time.

use crate::config::RalphConfig;
use crate::event::{event_views, Event, EventView};
use crate::event_bus::{
    coordinator_id, delivers, is_coordinator, next_ready, published, recipients, unique_ids,
    EventBus,
};
use crate::event_parser::{parse_events, EventParser};
use crate::hat::{Hat, HatId, HatView};
use crate::hat_registry::{configured_ids, HatRegistry, RegistryError};
use crate::hatless_ralph::{coordinator_prompt, CoordinatorView, HatlessRalph};
use crate::instructions::{multi_hat_text, single_hat_text, InstructionBuilder};
use crate::text::{contains, contains_seq, join, join_strings};
use crate::topic::{pattern_matches, wildcard};
use vstd::prelude::*;

verus! {

/// Why the loop stopped.
#[derive(Debug, Clone, Copy, PartialEq, Eq, Structural)]
pub enum TerminationReason {
    /// The agent's output held the completion promise.
    CompletionPromise,
    /// The iteration bound was reached.
    MaxIterations,
    /// The runtime bound was reached.
    MaxRuntime,
    /// The cost bound was reached.
    MaxCost,
    /// Too many executions failed in a row.
    ConsecutiveFailures,
    /// The loop was stopped from outside, or no hat had pending work.
    Stopped,
}

/// The bounds that end the loop.
#[derive(Debug, Clone, Copy, PartialEq, Eq, Structural)]
pub struct Limits {
    /// Maximum number of completed iterations.
    pub max_iterations: u32,
    /// Maximum runtime in seconds.
    pub max_runtime_seconds: u64,
    /// Maximum cumulative cost in micro-dollars, when configured.
    pub max_cost_micros: Option<u64>,
    /// Maximum number of consecutive failed executions.
    pub max_consecutive_failures: u32,
}

/// The loop's counters. Times are seconds on the caller's clock; costs are micro-dollars.
#[derive(Debug, Clone, Copy, PartialEq, Eq, Structural)]
pub struct LoopState {
    /// Completed iterations.
    pub iteration: u32,
    /// When the loop started.
    pub started_at: u64,
    /// When the current iteration started.
    pub iteration_started_at: u64,
    /// Failed executions since the last success.
    pub consecutive_failures: u32,
    /// Cost of all executions so far.
    pub cumulative_cost: u64,
    /// Set from outside to stop the loop.
    pub stopped: bool,
}

/// Seconds since `started_at` at time `now`, zero if the clock went back.
pub open spec fn elapsed(started_at: u64, now: u64) -> int {
    if now >= started_at {
        now - started_at
    } else {
        0
    }
}

/// The first termination predicate that holds, in the order: stopped, consecutive
/// failures, cost (when bounded), runtime, iterations.
pub open spec fn termination_reason(s: LoopState, l: Limits, now: u64) -> Option<
    TerminationReason,
> {
    if s.stopped {
        Some(TerminationReason::Stopped)
    } else if s.consecutive_failures >= l.max_consecutive_failures {
        Some(TerminationReason::ConsecutiveFailures)
    } else if l.max_cost_micros matches Some(m) && s.cumulative_cost >= m {
        Some(TerminationReason::MaxCost)
    } else if elapsed(s.started_at, now) >= l.max_runtime_seconds {
        Some(TerminationReason::MaxRuntime)
    } else if s.iteration >= l.max_iterations {
        Some(TerminationReason::MaxIterations)
    } else {
        None
    }
}

/// The consecutive failures after an execution.
pub open spec fn failures_after(failures: u32, success: bool) -> u32 {
    if success {
        0
    } else {
        failures.saturating_add(1)
    }
}

/// What an execution that did not complete the task ends the loop with.
pub open spec fn round_reason(failures: u32, l: Limits) -> Option<TerminationReason> {
    if failures >= l.max_consecutive_failures {
        Some(TerminationReason::ConsecutiveFailures)
    } else {
        None
    }
}

/// The queues after each of `es` is published in turn.
pub open spec fn publish_all(
    hats: Seq<HatView>,
    queues: Seq<Seq<EventView>>,
    es: Seq<EventView>,
) -> Seq<Seq<EventView>>
    decreases es.len(),
{
    if es.len() == 0 {
        queues
    } else {
        published(hats, publish_all(hats, queues, es.drop_last()), es.last())
    }
}

/// The context text of pending events: one `[topic] payload` line per event.
pub open spec fn events_context(es: Seq<EventView>) -> Seq<char> {
    join(Seq::new(es.len(), |i: int| "["@ + es[i].topic + "] "@ + es[i].payload), "\n"@)
}

/// The coordinator hat: id `ralph`, subscribed to every topic.
pub open spec fn coordinator_hat() -> HatView {
    HatView {
        id: coordinator_id(),
        name: "Ralph"@,
        subscriptions: seq!["*"@],
        publishes: Seq::empty(),
        instructions: Seq::empty(),
    }
}

/// The event that starts a run: `task.start` with the task prompt, addressed to the
/// starting hat when one is configured.
pub open spec fn seed_event(prompt: Seq<char>, starting_hat: Option<Seq<char>>) -> EventView {
    EventView { topic: "task.start"@, payload: prompt, source: None, target: starting_hat }
}

fn events_context_text(events: &Vec<Event>) -> (r: String)
    ensures
        r@ == events_context(event_views(events@)),
{
    let ghost es = event_views(events@);
    let mut lines: Vec<String> = Vec::new();
    let mut i: usize = 0;
    while i < events.len()
        invariant
            i <= events.len(),
            es == event_views(events@),
            lines@.len() == i,
            forall|k: int|
                0 <= k < i ==> (#[trigger] lines@[k])@ == "["@ + es[k].topic + "] "@ + es[k].payload,
        decreases events.len() - i,
    {
        let e = &events[i];
        assert(es[i as int] == e@);
        let mut line = String::new();
        line.append("[");
        line.append(e.topic.as_str());
        line.append("] ");
        line.append(e.payload.as_str());
        lines.push(line);
        i = i + 1;
    }
    let r = join_strings(&lines, "\n");
    assert(crate::text::views(lines@) =~= Seq::new(
        es.len(),
        |i: int| "["@ + es[i].topic + "] "@ + es[i].payload,
    ));
    r
}

fn coordinator() -> (h: Hat)
    ensures
        h@ == coordinator_hat(),
{
    let h = Hat::new("ralph", "Ralph").subscribe("*");
    assert(h@.subscriptions =~= seq!["*"@]);
    assert(h@.publishes =~= Seq::<Seq<char>>::empty());
    assert(h@.instructions =~= Seq::<char>::empty());
    assert(h@ == coordinator_hat());
    h
}

/// Owns the loop's state and event bus for a run.
#[derive(Debug)]
pub struct EventLoop {
    limits: Limits,
    checkpoint_interval: u32,
    single_mode: bool,
    completion_promise: String,
    starting_hat: Option<String>,
    bus: EventBus,
    state: LoopState,
    ralph: HatlessRalph,
    instructions: InstructionBuilder,
}

impl EventLoop {
    /// The registered hats, the coordinator first.
    pub closed spec fn hats(&self) -> Seq<HatView> {
        self.bus.hats()
    }

    /// The pending queues, index for index with `hats`.
    pub closed spec fn queues(&self) -> Seq<Seq<EventView>> {
        self.bus.queues()
    }

    /// Whether the coordinator runs first whenever it has pending events.
    pub closed spec fn priority(&self) -> bool {
        self.bus.priority()
    }

    /// The loop's counters.
    pub closed spec fn state_view(&self) -> LoopState {
        self.state
    }

    /// The loop's bounds.
    pub closed spec fn limits_view(&self) -> Limits {
        self.limits
    }

    /// The completion promise.
    pub closed spec fn promise(&self) -> Seq<char> {
        self.completion_promise@
    }

    /// The coordinator.
    pub closed spec fn coordinator_view(&self) -> CoordinatorView {
        self.ralph@
    }

    /// Whether the run is in single-hat mode.
    pub closed spec fn single(&self) -> bool {
        self.single_mode
    }

    /// The checkpoint interval.
    pub closed spec fn interval(&self) -> u32 {
        self.checkpoint_interval
    }

    /// The hat the initial event is addressed to.
    pub closed spec fn starting_hat_view(&self) -> Option<Seq<char>> {
        match self.starting_hat {
            Some(s) => Some(s@),
            None => None,
        }
    }

    /// The bus is well formed, the coordinator first, and the builders use the promise.
    pub closed spec fn wf(&self) -> bool {
        &&& self.bus.wf()
        &&& self.bus.hats().len() > 0
        &&& self.bus.hats()[0] == coordinator_hat()
        &&& self.instructions.promise() == self.completion_promise@
        &&& self.ralph@.promise == self.completion_promise@
    }

    /// A loop for `config` started at `now`: the coordinator, then in multi-hat mode the
    /// configured hats in order. A configured hat whose id is taken is refused.
    pub fn new(config: &RalphConfig, now: u64) -> (r: Result<EventLoop, RegistryError>)
        ensures
            config.mode@ == "single"@ ==> r is Ok,
            config.mode@ != "single"@ ==> (r is Err <==> (!unique_ids(configured_ids(*config))
                || exists|i: int|
                0 <= i < config.hats@.len() && config.hats@[i].0@ == coordinator_id())),
            r matches Ok(l) ==> {
                &&& l.wf()
                &&& l.single() == (config.mode@ == "single"@)
                &&& l.hats()[0] == coordinator_hat()
                &&& l.single() ==> l.hats().len() == 1
                &&& !l.single() ==> l.hats().len() == 1 + config.hats@.len()
                &&& forall|i: int| 0 <= i < l.queues().len() ==> (#[trigger] l.queues()[i]).len() == 0
                &&& l.priority() == config.event_loop.coordinator_priority
                &&& l.promise() == config.event_loop.completion_promise@
                &&& l.interval() == config.event_loop.checkpoint_interval
                &&& l.state_view() == (LoopState {
                    iteration: 0,
                    started_at: now,
                    iteration_started_at: now,
                    consecutive_failures: 0,
                    cumulative_cost: 0,
                    stopped: false,
                })
                &&& l.limits_view() == (Limits {
                    max_iterations: config.event_loop.max_iterations,
                    max_runtime_seconds: config.event_loop.max_runtime_seconds,
                    max_cost_micros: config.event_loop.max_cost_micros,
                    max_consecutive_failures: config.event_loop.max_consecutive_failures,
                })
            },
    {
        let single_mode = config.is_single_mode();
        let registry = if single_mode {
            HatRegistry::new()
        } else {
            match HatRegistry::from_config(config) {
                Ok(reg) => {
                    assert(unique_ids(configured_ids(*config)));
                    reg
                },
                Err(e) => {
                    return Err(e);
                },
            }
        };
        let ghost regv = registry@;
        let mut bus = EventBus::new();
        let c = coordinator();
        let ghost cv = c@;
        let _ = bus.register(c);
        assert(bus.hats() == seq![cv]);
        let all = registry.all();
        assert(all@.map_values(|h: Hat| h@).len() == all@.len());
        let mut i: usize = 0;
        while i < all.len()
            invariant
                i <= all.len(),
                single_mode == (config.mode@ == "single"@),
                single_mode ==> all@.len() == 0,
                !single_mode ==> {
                    &&& unique_ids(regv)
                    &&& unique_ids(configured_ids(*config))
                    &&& regv.len() == config.hats@.len()
                    &&& forall|k: int| 0 <= k < regv.len() ==> #[trigger] regv[k].id == config.hats@[k].0@
                },
                all@.map_values(|h: Hat| h@) == regv,
                forall|k: int| 0 <= k < i ==> bus.hats()[1 + k] == #[trigger] regv[k],
                forall|k: int| 0 <= k < i ==> #[trigger] config.hats@[k].0@ != coordinator_id(),
                bus.wf(),
                !bus.priority(),
                bus.hats().len() == 1 + i,
                bus.hats()[0] == coordinator_hat(),
                bus.queues().len() == 1 + i,
                forall|k: int| 0 <= k < bus.queues().len() ==> (#[trigger] bus.queues()[k]).len() == 0,
            decreases all.len() - i,
        {
            let ghost before = bus.queues();
            let ghost hats_before = bus.hats();
            assert(!single_mode);
            assert(all@[i as int]@ == regv[i as int]);
            let h = all[i].clone();
            match bus.register(h) {
                Ok(()) => {
                    assert(hats_before[0].id != regv[i as int].id);
                    assert forall|k: int| 0 <= k < i + 1 implies bus.hats()[1 + k] == #[trigger] regv[k] by {
                        if k < i {
                            assert(bus.hats()[1 + k] == hats_before[1 + k]);
                        }
                    }
                    assert forall|k: int| 0 <= k < bus.queues().len() implies (
                    #[trigger] bus.queues()[k]).len() == 0 by {
                        if k < before.len() {
                            assert(bus.queues()[k] == before[k]);
                        }
                    }
                },
                Err(_) => {
                    proof {
                        let j = choose|j: int|
                            0 <= j < hats_before.len() && hats_before[j].id == regv[i as int].id;
                        if j > 0 {
                            assert(hats_before[j] == regv[j - 1]);
                            assert(regv[j - 1].id != regv[i as int].id);
                        }
                        assert(config.hats@[i as int].0@ == coordinator_id());
                    }
                    return Err(RegistryError::DuplicateHat);
                },
            }
            i = i + 1;
        }
        bus.set_coordinator_priority(config.event_loop.coordinator_priority);
        let ralph = HatlessRalph::new(
            config.event_loop.completion_promise.as_str(),
            config.core.clone(),
            &registry,
            match &config.event_loop.starting_event {
                Some(e) => Some(e.clone()),
                None => None,
            },
        );
        let limits = Limits {
            max_iterations: config.event_loop.max_iterations,
            max_runtime_seconds: config.event_loop.max_runtime_seconds,
            max_cost_micros: config.event_loop.max_cost_micros,
            max_consecutive_failures: config.event_loop.max_consecutive_failures,
        };
        let state = LoopState {
            iteration: 0,
            started_at: now,
            iteration_started_at: now,
            consecutive_failures: 0,
            cumulative_cost: 0,
            stopped: false,
        };
        Ok(
            EventLoop {
                limits,
                checkpoint_interval: config.event_loop.checkpoint_interval,
                single_mode,
                completion_promise: config.event_loop.completion_promise.clone(),
                starting_hat: match &config.event_loop.starting_hat {
                    Some(h) => Some(h.clone()),
                    None => None,
                },
                bus,
                state,
                ralph,
                instructions: InstructionBuilder::new(config.event_loop.completion_promise.as_str()),
            },
        )
    }

    /// Publishes the event that starts the run: `task.start` carrying the task prompt.
    pub fn initialize(&mut self, prompt_content: &str)
        requires
            old(self).wf(),
        ensures
            final(self).wf(),
            final(self).state_view() == old(self).state_view(),
            final(self).hats() == old(self).hats(),
            final(self).priority() == old(self).priority(),
            final(self).queues() == published(
                old(self).hats(),
                old(self).queues(),
                seed_event(prompt_content@, old(self).starting_hat_view()),
            ),
    {
        let mut event = Event::new("task.start", prompt_content);
        match &self.starting_hat {
            Some(h) => {
                event = event.with_target(h.as_str());
            },
            None => {},
        }
        let _ = self.bus.publish(event);
    }

    /// The counters.
    pub fn state(&self) -> (r: LoopState)
        ensures
            r == self.state_view(),
    {
        self.state
    }

    /// The event bus.
    pub fn bus(&self) -> (r: &EventBus)
        ensures
            r.hats() == self.hats(),
            r.queues() == self.queues(),
            r.priority() == self.priority(),
            self.wf() ==> r.wf(),
    {
        &self.bus
    }

    /// Whether the run is in single-hat mode.
    pub fn is_single_mode(&self) -> (r: bool)
        ensures
            r == self.single(),
    {
        self.single_mode
    }

    /// Stops the loop at its next check.
    pub fn stop(&mut self)
        requires
            old(self).wf(),
        ensures
            final(self).wf(),
            final(self).state_view() == (LoopState { stopped: true, ..old(self).state_view() }),
            final(self).hats() == old(self).hats(),
            final(self).queues() == old(self).queues(),
    {
        self.state.stopped = true;
    }

    /// Records whether the scratchpad file exists, which selects the fast path.
    pub fn set_scratchpad_present(&mut self, present: bool)
        requires
            old(self).wf(),
        ensures
            final(self).wf(),
            final(self).coordinator_view() == (CoordinatorView {
                scratchpad_present: present,
                ..old(self).coordinator_view()
            }),
            final(self).state_view() == old(self).state_view(),
            final(self).hats() == old(self).hats(),
            final(self).queues() == old(self).queues(),
    {
        self.ralph.set_scratchpad_present(present);
    }

    /// The reason to stop before the next iteration at time `now`, if any.
    pub fn check_termination(&self, now: u64) -> (r: Option<TerminationReason>)
        ensures
            r == termination_reason(self.state_view(), self.limits_view(), now),
    {
        let s = &self.state;
        let l = &self.limits;
        if s.stopped {
            return Some(TerminationReason::Stopped);
        }
        if s.consecutive_failures >= l.max_consecutive_failures {
            return Some(TerminationReason::ConsecutiveFailures);
        }
        match l.max_cost_micros {
            Some(m) => {
                if s.cumulative_cost >= m {
                    return Some(TerminationReason::MaxCost);
                }
            },
            None => {},
        }
        let elapsed = if now >= s.started_at {
            now - s.started_at
        } else {
            0
        };
        if elapsed >= l.max_runtime_seconds {
            return Some(TerminationReason::MaxRuntime);
        }
        if s.iteration >= l.max_iterations {
            return Some(TerminationReason::MaxIterations);
        }
        None
    }

    /// The hat that runs next, or `None` when no hat has pending work.
    pub fn next_hat(&self) -> (r: Option<HatId>)
        requires
            self.wf(),
        ensures
            r matches Some(id) ==> next_ready(self.hats(), self.queues(), self.priority()) == Some(
                id@,
            ),
            r is None ==> next_ready(self.hats(), self.queues(), self.priority()) is None,
    {
        self.bus.next_hat_with_pending()
    }

    /// The single-hat prompt around the task prompt.
    pub fn build_single_prompt(&self, prompt_content: &str) -> (r: String)
        requires
            self.wf(),
        ensures
            r@ == single_hat_text(self.promise(), prompt_content@),
    {
        self.instructions.build_single_hat(prompt_content)
    }

    /// Takes the pending events of `hat_id` and builds its prompt: the coordinator's
    /// prompt for the coordinator, the hat prompt otherwise. `None` for an unknown hat.
    pub fn build_prompt(&mut self, hat_id: &HatId) -> (r: Option<String>)
        requires
            old(self).wf(),
        ensures
            final(self).wf(),
            final(self).state_view() == old(self).state_view(),
            final(self).hats() == old(self).hats(),
            final(self).priority() == old(self).priority(),
            final(self).coordinator_view() == old(self).coordinator_view(),
            forall|i: int|
                0 <= i < old(self).hats().len() && old(self).hats()[i].id == hat_id@ ==> {
                    let h = old(self).hats()[i];
                    let context = events_context(old(self).queues()[i]);
                    &&& final(self).queues() == old(self).queues().update(i, Seq::empty())
                    &&& r matches Some(p) && p@ == if hat_id@ == coordinator_id() {
                        coordinator_prompt(old(self).coordinator_view(), context)
                    } else {
                        multi_hat_text(
                            old(self).promise(),
                            h.name,
                            h.instructions,
                            h.publishes,
                            context,
                        )
                    }
                },
            (forall|i: int| 0 <= i < old(self).hats().len() ==> old(self).hats()[i].id != hat_id@)
                ==> r is None && final(self).queues() == old(self).queues(),
    {
        let ghost hats = self.bus.hats();
        let ghost queues = self.bus.queues();
        let i = match self.bus.index_of(hat_id) {
            None => {
                return None;
            },
            Some(i) => i,
        };
        let events = self.bus.take_pending(hat_id);
        assert(hats[i as int].id == hat_id@);
        assert(old(self).hats()[i as int].id == hat_id@);
        assert(event_views(events@) == queues[i as int]);
        assert(self.bus.queues() == queues.update(i as int, Seq::empty()));
        let context = events_context_text(&events);
        let prompt = if is_coordinator(hat_id) {
            self.ralph.build_prompt(context.as_str())
        } else {
            let h = self.bus.hat_at(i);
            self.instructions.build_multi_hat(h, context.as_str())
        };
        proof {
            assert forall|j: int|
                0 <= j < hats.len() && hats[j].id == hat_id@ implies j == i as int by {
                if j != i as int {
                    assert(hats[j].id != hats[i as int].id);
                }
            }
        }
        Some(prompt)
    }

    /// Ingests the output of one execution of `hat_id` that ran at `now` with outcome
    /// `success` and cost `cost`. Output holding the completion promise ends the loop at
    /// once, before anything is published or counted. Otherwise the cost and the failure
    /// count are updated, the events in the output are published with `hat_id` as their
    /// source, the iteration count advances, and the loop ends if too many executions
    /// have failed in a row.
    pub fn process_output(
        &mut self,
        hat_id: &HatId,
        output: &str,
        success: bool,
        cost: u64,
        now: u64,
    ) -> (r: Option<TerminationReason>)
        requires
            old(self).wf(),
        ensures
            final(self).wf(),
            final(self).hats() == old(self).hats(),
            final(self).priority() == old(self).priority(),
            final(self).coordinator_view() == old(self).coordinator_view(),
            contains_seq(output@, old(self).promise()) ==> {
                &&& r == Some(TerminationReason::CompletionPromise)
                &&& final(self).state_view() == old(self).state_view()
                &&& final(self).queues() == old(self).queues()
            },
            !contains_seq(output@, old(self).promise()) ==> {
                let s = old(self).state_view();
                let f = failures_after(s.consecutive_failures, success);
                &&& final(self).state_view() == (LoopState {
                    iteration: s.iteration.saturating_add(1),
                    started_at: s.started_at,
                    iteration_started_at: now,
                    consecutive_failures: f,
                    cumulative_cost: s.cumulative_cost.saturating_add(cost),
                    stopped: s.stopped,
                })
                &&& final(self).queues() == publish_all(
                    old(self).hats(),
                    old(self).queues(),
                    parse_events(output@, Some(hat_id@)),
                )
                &&& r == round_reason(f, old(self).limits_view())
            },
    {
        if contains(output, self.completion_promise.as_str()) {
            return Some(TerminationReason::CompletionPromise);
        }
        self.state.cumulative_cost = self.state.cumulative_cost.saturating_add(cost);
        self.state.consecutive_failures = if success {
            0
        } else {
            self.state.consecutive_failures.saturating_add(1)
        };
        let parser = EventParser::new().with_source(hat_id.as_str());
        let events = parser.parse(output);
        let ghost es = event_views(events@);
        let ghost hats = self.bus.hats();
        let ghost q0 = self.bus.queues();
        let ghost st1 = self.state;
        let mut i: usize = 0;
        while i < events.len()
            invariant
                i <= events.len(),
                es == event_views(events@),
                self.wf(),
                self.bus.hats() == hats,
                self.bus.priority() == old(self).priority(),
                self.ralph@ == old(self).ralph@,
                self.state == st1,
                self.limits == old(self).limits,
                self.completion_promise == old(self).completion_promise,
                self.bus.queues() == publish_all(hats, q0, es.take(i as int)),
            decreases events.len() - i,
        {
            assert(es.take(i + 1).drop_last() == es.take(i as int));
            assert(es.take(i + 1).last() == events@[i as int]@);
            let _ = self.bus.publish(events[i].clone());
            i = i + 1;
        }
        assert(es.take(events.len() as int) == es);
        self.state.iteration = self.state.iteration.saturating_add(1);
        self.state.iteration_started_at = now;
        if self.state.consecutive_failures >= self.limits.max_consecutive_failures {
            Some(TerminationReason::ConsecutiveFailures)
        } else {
            None
        }
    }

    /// Whether a checkpoint is due: a positive number of iterations, a multiple of the
    /// interval, has completed.
    pub fn should_checkpoint(&self) -> (r: bool)
        ensures
            r == (self.interval() > 0 && self.state_view().iteration > 0
                && self.state_view().iteration % self.interval() == 0),
    {
        self.checkpoint_interval > 0 && self.state.iteration > 0 && self.state.iteration
            % self.checkpoint_interval == 0
    }
}

/// Every run ends. A round starts only while `termination_reason` is `None`, which needs
/// fewer completed iterations than the bound; every round that does not end the loop
/// completes one more iteration. So no run has more than `max_iterations` rounds.
pub proof fn lemma_rounds_bounded(s: LoopState, l: Limits, now: u64)
    ensures
        termination_reason(s, l, now) is None ==> {
            &&& s.iteration < l.max_iterations
            &&& s.iteration.saturating_add(1) == s.iteration + 1
            &&& l.max_iterations - s.iteration.saturating_add(1) < l.max_iterations - s.iteration
        },
        s.iteration >= l.max_iterations ==> termination_reason(s, l, now) is Some,
{
}

/// Empty output holds no event, so ingesting it publishes nothing.
pub proof fn lemma_empty_output(
    source: Option<Seq<char>>,
    hats: Seq<HatView>,
    queues: Seq<Seq<EventView>>,
)
    ensures
        parse_events(Seq::empty(), source) == Seq::<EventView>::empty(),
        publish_all(hats, queues, parse_events(Seq::empty(), source)) == queues,
{
    assert(crate::text::find_from(Seq::empty(), crate::event_parser::open_tag(), 0) is None);
}

/// With one failure short of the bound recorded, a failed execution ends the loop with
/// `ConsecutiveFailures`.
pub proof fn lemma_failure_threshold(failures: u32, l: Limits)
    requires
        failures + 1 == l.max_consecutive_failures,
    ensures
        round_reason(failures_after(failures, false), l) == Some(
            TerminationReason::ConsecutiveFailures,
        ),
{
}

/// With only the coordinator registered, every event on a non-empty topic that the
/// coordinator did not send and that is not addressed to another hat reaches the coordinator.
pub proof fn lemma_coordinator_only(e: EventView)
    requires
        e.topic.len() > 0,
        e.source != Some(coordinator_id()),
        e.target is None || e.target == Some(coordinator_id()),
    ensures
        recipients(seq![coordinator_hat()], e) == seq![coordinator_id()],
{
    reveal_strlit("*");
    let h = coordinator_hat();
    assert(h.subscriptions[0] == wildcard());
    assert(pattern_matches(h.subscriptions[0], e.topic));
    assert(delivers(h, e));
    let hs = seq![h];
    assert(hs.drop_last() =~= Seq::<HatView>::empty());
    assert(hs.last() == h);
    assert(recipients(hs.drop_last(), e) == Seq::<Seq<char>>::empty());
    assert(recipients(hs, e) == recipients(hs.drop_last(), e).push(h.id));
    assert(Seq::<Seq<char>>::empty().push(h.id) =~= seq![coordinator_id()]);
}

} // verus!
