//! Prompts for single-hat mode and for a hat in multi-hat mode.

use crate::hat::Hat;
use crate::text::{join, join_strings, views};
use vstd::prelude::*;

verus! {

/// The orchestration preamble of a single-hat prompt, up to the completion promise.
pub const SINGLE_HAT_PREAMBLE: &'static str =
    "ORCHESTRATION CONTEXT:
You are running within the Ralph Orchestrator loop. This system will call you
repeatedly for multiple iterations until the overall task is complete.

IMPORTANT INSTRUCTIONS:
1. Implement only ONE small, focused task per iteration
2. Mark subtasks complete as you finish them (update PROMPT.md checkboxes)
3. Commit your changes after each iteration for checkpointing
4. Use .agent/workspace/ for temporary files

WORKFLOW:
- Explore: Research and understand the codebase
- Plan: Design your implementation approach
- Implement: Write tests first (TDD), then code
- Commit: Commit changes with clear messages

AGENT SCRATCHPAD:
Before starting, check .agent/scratchpad.md for previous progress.
At iteration end, update it with:
- What you accomplished
- What remains to be done
- Any blockers or decisions made

Do NOT restart from scratch if scratchpad shows progress.

COMPLETION:
When ALL tasks in PROMPT.md are complete, output:
";

/// What separates the completion promise from the task prompt.
pub const SINGLE_HAT_SEPARATOR: &'static str = "

---
TASK PROMPT:
";

/// The single-hat prompt: preamble, completion promise, then the task prompt verbatim.
pub open spec fn single_hat_text(promise: Seq<char>, prompt: Seq<char>) -> Seq<char> {
    SINGLE_HAT_PREAMBLE@ + promise + SINGLE_HAT_SEPARATOR@ + prompt
}

/// The role block of a hat prompt, present when the hat has instructions.
pub open spec fn role_text(instructions: Seq<char>) -> Seq<char> {
    if instructions.len() == 0 {
        Seq::empty()
    } else {
        "YOUR ROLE:\n"@ + instructions + "\n\n"@
    }
}

/// The list of published topics in a hat prompt, present when the hat publishes any.
pub open spec fn publishes_text(publishes: Seq<Seq<char>>) -> Seq<char> {
    if publishes.len() == 0 {
        Seq::empty()
    } else {
        "You typically publish to: "@ + join(publishes, ", "@) + "\n\n"@
    }
}

/// The prompt for a hat in multi-hat mode.
pub open spec fn multi_hat_text(
    promise: Seq<char>,
    name: Seq<char>,
    instructions: Seq<char>,
    publishes: Seq<Seq<char>>,
    events_context: Seq<char>,
) -> Seq<char> {
    "ORCHESTRATION CONTEXT:\n"@ + "You are the "@ + name + " agent in a multi-agent system.\n\n"@
        + role_text(instructions) + "EVENT COMMUNICATION:\n"@
        + "Use <event> tags to communicate with other agents:\n"@
        + "<event topic=\"your.topic\">Your message</event>"@ + "\n\n"@ + publishes_text(publishes)
        + "COMPLETION:\nWhen the overall task is complete, output:\n"@ + promise + "\n\n"@
        + "---\nINCOMING EVENTS:\n"@ + events_context
}

/// Builds the orchestration context put in front of agent prompts.
#[derive(Debug)]
pub struct InstructionBuilder {
    completion_promise: String,
}

/// The names of a hat's published topics.
fn topic_names(hat: &Hat) -> (r: Vec<String>)
    ensures
        views(r@) == hat@.publishes,
{
    let mut r: Vec<String> = Vec::new();
    let mut i: usize = 0;
    while i < hat.publishes.len()
        invariant
            i <= hat.publishes.len(),
            r@.len() == i,
            forall|k: int| 0 <= k < i ==> (#[trigger] r@[k])@ == hat.publishes@[k]@,
        decreases hat.publishes.len() - i,
    {
        r.push(hat.publishes[i].as_str().to_owned());
        i = i + 1;
    }
    assert(views(r@) =~= hat@.publishes);
    r
}

impl InstructionBuilder {
    /// The completion promise written into every prompt.
    pub closed spec fn promise(&self) -> Seq<char> {
        self.completion_promise@
    }

    /// A builder for the given completion promise.
    pub fn new(completion_promise: &str) -> (b: InstructionBuilder)
        ensures
            b.promise() == completion_promise@,
    {
        InstructionBuilder { completion_promise: completion_promise.to_owned() }
    }

    /// The single-hat prompt around `prompt_content`.
    pub fn build_single_hat(&self, prompt_content: &str) -> (r: String)
        ensures
            r@ == single_hat_text(self.promise(), prompt_content@),
    {
        let mut r = String::new();
        r.append(SINGLE_HAT_PREAMBLE);
        r.append(self.completion_promise.as_str());
        r.append(SINGLE_HAT_SEPARATOR);
        r.append(prompt_content);
        r
    }

    /// The prompt for `hat` in multi-hat mode, with `events_context` as its incoming events.
    pub fn build_multi_hat(&self, hat: &Hat, events_context: &str) -> (r: String)
        ensures
            r@ == multi_hat_text(
                self.promise(),
                hat@.name,
                hat@.instructions,
                hat@.publishes,
                events_context@,
            ),
    {
        let mut r = String::new();
        r.append("ORCHESTRATION CONTEXT:\n");
        r.append("You are the ");
        r.append(hat.name.as_str());
        r.append(" agent in a multi-agent system.\n\n");
        let ghost head = r@;
        if !hat.instructions.as_str().is_empty() {
            r.append("YOUR ROLE:\n");
            r.append(hat.instructions.as_str());
            r.append("\n\n");
        }
        assert(r@ == head + role_text(hat@.instructions));
        r.append("EVENT COMMUNICATION:\n");
        r.append("Use <event> tags to communicate with other agents:\n");
        r.append("<event topic=\"your.topic\">Your message</event>");
        r.append("\n\n");
        let ghost mid = r@;
        if hat.publishes.len() > 0 {
            r.append("You typically publish to: ");
            let names = topic_names(hat);
            let joined = join_strings(&names, ", ");
            r.append(joined.as_str());
            r.append("\n\n");
        }
        assert(r@ == mid + publishes_text(hat@.publishes));
        r.append("COMPLETION:\nWhen the overall task is complete, output:\n");
        r.append(self.completion_promise.as_str());
        r.append("\n\n");
        r.append("---\nINCOMING EVENTS:\n");
        r.append(events_context);
        r
    }
}

} // verus!
