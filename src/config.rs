//! Configuration values, as handed over by the configuration loader.
//!
//! Costs are carried as whole micro-dollars (millionths of a US dollar).

use crate::hat::topic_views;
use crate::text::views;
use crate::topic::Topic;
use vstd::prelude::*;

verus! {

/// The default execution mode, `single`.
pub fn default_mode() -> (r: String)
    ensures
        r@ == "single"@,
{
    "single".to_owned()
}

/// The default prompt file, `PROMPT.md`.
pub fn default_prompt_file() -> (r: String)
    ensures
        r@ == "PROMPT.md"@,
{
    "PROMPT.md".to_owned()
}

/// The default completion promise, `LOOP_COMPLETE`.
pub fn default_completion_promise() -> (r: String)
    ensures
        r@ == "LOOP_COMPLETE"@,
{
    "LOOP_COMPLETE".to_owned()
}

/// The default iteration bound, 100.
pub fn default_max_iterations() -> (r: u32)
    ensures
        r == 100,
{
    100
}

/// The default runtime bound in seconds, four hours.
pub fn default_max_runtime() -> (r: u64)
    ensures
        r == 14400,
{
    14400
}

/// The default bound on consecutive failures, 5.
pub fn default_max_failures() -> (r: u32)
    ensures
        r == 5,
{
    5
}

/// The default checkpoint interval, every 5 iterations.
pub fn default_checkpoint_interval() -> (r: u32)
    ensures
        r == 5,
{
    5
}

/// The default agent backend, `gemini`.
pub fn default_backend() -> (r: String)
    ensures
        r@ == "gemini"@,
{
    "gemini".to_owned()
}

/// The default way of passing the prompt, `arg`.
pub fn default_prompt_mode() -> (r: String)
    ensures
        r@ == "arg"@,
{
    "arg".to_owned()
}

/// Event loop configuration.
#[derive(Debug)]
pub struct EventLoopConfig {
    /// Path to the prompt file.
    pub prompt_file: String,
    /// String that signals loop completion.
    pub completion_promise: String,
    /// Maximum number of iterations.
    pub max_iterations: u32,
    /// Maximum runtime in seconds.
    pub max_runtime_seconds: u64,
    /// Maximum cumulative cost, in micro-dollars, when configured.
    pub max_cost_micros: Option<u64>,
    /// Stop after this many consecutive failures.
    pub max_consecutive_failures: u32,
    /// Checkpoint every this many iterations.
    pub checkpoint_interval: u32,
    /// The hat the initial event is addressed to, if any.
    pub starting_hat: Option<String>,
    /// The event the coordinator publishes first to start the hat workflow, if any.
    pub starting_event: Option<String>,
    /// Whether the coordinator runs first whenever it has pending events.
    pub coordinator_priority: bool,
}

impl Default for EventLoopConfig {
    fn default() -> (r: Self)
        ensures
            r.prompt_file@ == "PROMPT.md"@,
            r.completion_promise@ == "LOOP_COMPLETE"@,
            r.max_iterations == 100,
            r.max_runtime_seconds == 14400,
            r.max_cost_micros is None,
            r.max_consecutive_failures == 5,
            r.checkpoint_interval == 5,
            r.starting_hat is None,
            r.starting_event is None,
            !r.coordinator_priority,
    {
        EventLoopConfig {
            prompt_file: default_prompt_file(),
            completion_promise: default_completion_promise(),
            max_iterations: default_max_iterations(),
            max_runtime_seconds: default_max_runtime(),
            max_cost_micros: None,
            max_consecutive_failures: default_max_failures(),
            checkpoint_interval: default_checkpoint_interval(),
            starting_hat: None,
            starting_event: None,
            coordinator_priority: false,
        }
    }
}

/// Agent backend configuration.
#[derive(Debug)]
pub struct CliConfig {
    /// Backend to use: `gemini`, `codex`, `amp` or `custom`.
    pub backend: String,
    /// The command to run, for the `custom` backend.
    pub command: Option<String>,
    /// How the prompt is passed: `arg` or `stdin`.
    pub prompt_mode: String,
}

impl Default for CliConfig {
    fn default() -> (r: Self)
        ensures
            r.backend@ == "gemini"@,
            r.command is None,
            r.prompt_mode@ == "arg"@,
    {
        CliConfig { backend: default_backend(), command: None, prompt_mode: default_prompt_mode() }
    }
}

/// Settings of the coordinator's prompt.
#[derive(Debug)]
pub struct CoreConfig {
    /// The scratchpad file shared across iterations.
    pub scratchpad: String,
    /// The directory holding the specifications.
    pub specs_dir: String,
    /// Rules listed in the prompt, numbered from 999.
    pub guardrails: Vec<String>,
}

/// A copy of a list of strings.
pub fn clone_strings(v: &Vec<String>) -> (r: Vec<String>)
    ensures
        r@ == v@,
{
    let mut r: Vec<String> = Vec::new();
    let mut i: usize = 0;
    while i < v.len()
        invariant
            i <= v.len(),
            r@ == v@.take(i as int),
        decreases v.len() - i,
    {
        r.push(v[i].clone());
        assert(v@.take(i + 1) == v@.take(i as int).push(v@[i as int]));
        i = i + 1;
    }
    assert(v@.take(v.len() as int) == v@);
    r
}

impl Clone for CoreConfig {
    fn clone(&self) -> (r: Self)
        ensures
            r.scratchpad == self.scratchpad,
            r.specs_dir == self.specs_dir,
            r.guardrails@ == self.guardrails@,
    {
        CoreConfig {
            scratchpad: self.scratchpad.clone(),
            specs_dir: self.specs_dir.clone(),
            guardrails: clone_strings(&self.guardrails),
        }
    }
}

impl Default for CoreConfig {
    fn default() -> (r: Self)
        ensures
            r.scratchpad@ == ".agent/scratchpad.md"@,
            r.specs_dir@ == "specs/"@,
            r.guardrails@.len() == 3,
    {
        let mut guardrails: Vec<String> = Vec::new();
        guardrails.push("Fresh context each iteration - the scratchpad is memory".to_owned());
        guardrails.push("Don't assume something is not implemented - search first".to_owned());
        guardrails.push("Backpressure is law - tests, type checks and lints must pass".to_owned());
        CoreConfig {
            scratchpad: ".agent/scratchpad.md".to_owned(),
            specs_dir: "specs/".to_owned(),
            guardrails,
        }
    }
}

/// Configuration of one hat.
#[derive(Debug)]
pub struct HatConfig {
    /// Human-readable name for the hat.
    pub name: String,
    /// Topic patterns this hat subscribes to.
    pub subscriptions: Vec<String>,
    /// Topics this hat publishes.
    pub publishes: Vec<String>,
    /// Instructions prepended to prompts.
    pub instructions: String,
}

/// Topics with the given names.
pub fn topics_of(names: &Vec<String>) -> (r: Vec<Topic>)
    ensures
        topic_views(r@) == views(names@),
{
    let mut r: Vec<Topic> = Vec::new();
    let mut i: usize = 0;
    while i < names.len()
        invariant
            i <= names.len(),
            r@.len() == i,
            topic_views(r@) == views(names@).take(i as int),
        decreases names.len() - i,
    {
        let t = Topic::new(names[i].as_str());
        let ghost prev = r@;
        r.push(t);
        assert(r@ == prev.push(t));
        assert forall|k: int| 0 <= k < i + 1 implies #[trigger] topic_views(r@)[k] == views(
            names@,
        ).take(i + 1)[k] by {
            assert(topic_views(r@)[k] == r@[k]@);
            assert(views(names@).take(i + 1)[k] == names@[k]@);
            if k < i {
                assert(r@[k] == prev[k]);
                assert(topic_views(prev)[k] == prev[k]@);
                assert(topic_views(prev)[k] == views(names@).take(i as int)[k]);
            }
        }
        assert(topic_views(r@) =~= views(names@).take(i + 1));
        i = i + 1;
    }
    assert(views(names@).take(names.len() as int) =~= views(names@));
    r
}

impl HatConfig {
    /// The subscription patterns as topics.
    pub fn subscription_topics(&self) -> (r: Vec<Topic>)
        ensures
            topic_views(r@) == views(self.subscriptions@),
    {
        topics_of(&self.subscriptions)
    }

    /// The published topic names as topics.
    pub fn publish_topics(&self) -> (r: Vec<Topic>)
        ensures
            topic_views(r@) == views(self.publishes@),
    {
        topics_of(&self.publishes)
    }
}

/// Top-level configuration.
#[derive(Debug)]
pub struct RalphConfig {
    /// Execution mode: `single` or `multi`.
    pub mode: String,
    /// Event loop configuration.
    pub event_loop: EventLoopConfig,
    /// Agent backend configuration.
    pub cli: CliConfig,
    /// Coordinator prompt settings.
    pub core: CoreConfig,
    /// Hat definitions by id, in the order they are registered.
    pub hats: Vec<(String, HatConfig)>,
}

impl Default for RalphConfig {
    fn default() -> (r: Self)
        ensures
            r.mode@ == "single"@,
            r.event_loop.max_iterations == 100,
            r.hats@.len() == 0,
    {
        RalphConfig {
            mode: default_mode(),
            event_loop: EventLoopConfig::default(),
            cli: CliConfig::default(),
            core: CoreConfig::default(),
            hats: Vec::new(),
        }
    }
}

impl RalphConfig {
    /// Whether the mode is `single`.
    pub fn is_single_mode(&self) -> (r: bool)
        ensures
            r == (self.mode@ == "single"@),
    {
        self.mode == default_mode()
    }
}

} // verus!
