//! The coordinator: a hat that is always present, handles every topic as a fallback,
//! and in multi-hat mode plans and delegates to the other hats.

use crate::config::CoreConfig;
use crate::hat::Hat;
use crate::hat_registry::HatRegistry;
use crate::text::{chars_of, decimal, decimal_string, is_blank, join, join_strings, trim, views};
use crate::topic::Topic;
use vstd::prelude::*;

verus! {

/// The identity and orientation lines that open the coordinator prompt.
pub const CORE_INTRO: &'static str = "I'm Ralph. Fresh context each iteration.

### 0a. ORIENTATION
Study `";

/// What follows the specs directory, up to the scratchpad path.
pub const CORE_SCRATCHPAD: &'static str = "` to understand requirements.
Don't assume features aren't implemented—search first.

### 0b. SCRATCHPAD
Study `";

/// What follows the scratchpad path, up to the guardrails.
pub const CORE_MARKERS: &'static str = "`. It's shared state. It's memory.

Task markers:
- `[ ]` pending
- `[x]` done
- `[~]` cancelled (with reason)

### GUARDRAILS
";

/// The workflow for a coordinator working alone, up to the scratchpad path.
pub const SOLO_WORKFLOW_HEAD: &'static str = "## WORKFLOW

### 1. Study the prompt.
Study, explore, and research what needs to be done. Use parallel subagents (up to 10) for searches.

### 2. PLAN
Update `";

/// The rest of the solo workflow.
pub const SOLO_WORKFLOW_TAIL: &'static str = "` with prioritized tasks.

### 3. IMPLEMENT
Pick ONE task. Only 1 subagent for build/tests.

### 4. COMMIT
Capture the why, not just the what. Mark `[x]` in scratchpad.

### 5. REPEAT
Until all tasks `[x]` or `[~]`.

";

/// The coordinate-and-delegate workflow, up to the scratchpad path.
pub const DELEGATE_WORKFLOW_HEAD: &'static str = "## WORKFLOW

### 1. PLAN
Update `";

/// The rest of the coordinate-and-delegate workflow.
pub const DELEGATE_WORKFLOW_TAIL: &'static str = "` with prioritized tasks.

### 2. DELEGATE
Publish ONE event to hand off to specialized hats.

**CRITICAL: STOP after publishing the event.** A new iteration will start
with fresh context to handle the work. Do NOT continue working in this
iteration — let the next iteration handle the event with the appropriate
hat persona.

";

/// The fast-path workflow, up to the starting event.
pub const FAST_WORKFLOW_HEAD: &'static str = "## WORKFLOW

**FAST PATH**: Publish `";

/// The rest of the fast-path workflow.
pub const FAST_WORKFLOW_TAIL: &'static str = "` immediately to start the hat workflow.
Do not plan or analyze — delegate now.

";

/// How events are written to the event log.
pub const EVENT_WRITING: &'static str = "## EVENT WRITING

Write events to `.agent/events.jsonl` as:
{\"topic\": \"build.task\", \"payload\": \"...\", \"ts\": \"2026-01-14T12:00:00Z\"}

";

/// A hat as the coordinator's prompt describes it.
pub struct HatInfoView {
    pub name: Seq<char>,
    pub subscribes_to: Seq<Seq<char>>,
    pub publishes: Seq<Seq<char>>,
    pub instructions: Seq<char>,
}

/// Information about a hat for the coordinator's prompt.
#[derive(Debug)]
pub struct HatInfo {
    /// The hat's name.
    pub name: String,
    /// The patterns the hat subscribes to.
    pub subscribes_to: Vec<String>,
    /// The topics the hat publishes.
    pub publishes: Vec<String>,
    /// The hat's instructions.
    pub instructions: String,
}

impl View for HatInfo {
    type V = HatInfoView;

    open spec fn view(&self) -> HatInfoView {
        HatInfoView {
            name: self.name@,
            subscribes_to: views(self.subscribes_to@),
            publishes: views(self.publishes@),
            instructions: self.instructions@,
        }
    }
}

/// The hats of a multi-hat configuration, for the coordinator's prompt.
#[derive(Debug)]
pub struct HatTopology {
    hats: Vec<HatInfo>,
}

impl View for HatTopology {
    type V = Seq<HatInfoView>;

    closed spec fn view(&self) -> Seq<HatInfoView> {
        self.hats@.map_values(|h: HatInfo| h@)
    }
}

fn names_of(ts: &Vec<Topic>) -> (r: Vec<String>)
    ensures
        r@.len() == ts@.len(),
        forall|k: int| 0 <= k < ts@.len() ==> (#[trigger] r@[k])@ == ts@[k]@,
{
    let mut r: Vec<String> = Vec::new();
    let mut i: usize = 0;
    while i < ts.len()
        invariant
            i <= ts.len(),
            r@.len() == i,
            forall|k: int| 0 <= k < i ==> (#[trigger] r@[k])@ == ts@[k]@,
        decreases ts.len() - i,
    {
        r.push(ts[i].as_str().to_owned());
        i = i + 1;
    }
    r
}

/// The coordinator's description of a hat.
pub open spec fn info_of(h: crate::hat::HatView) -> HatInfoView {
    HatInfoView {
        name: h.name,
        subscribes_to: h.subscriptions,
        publishes: h.publishes,
        instructions: h.instructions,
    }
}

fn info_from(hat: &Hat) -> (r: HatInfo)
    ensures
        r@ == info_of(hat@),
{
    let subscribes_to = names_of(&hat.subscriptions);
    let publishes = names_of(&hat.publishes);
    let r = HatInfo {
        name: hat.name.clone(),
        subscribes_to,
        publishes,
        instructions: hat.instructions.clone(),
    };
    assert(r@.subscribes_to =~= hat@.subscriptions);
    assert(r@.publishes =~= hat@.publishes);
    r
}

impl HatTopology {
    /// The topology of the hats in `registry`, in registration order.
    pub fn from_registry(registry: &HatRegistry) -> (t: HatTopology)
        ensures
            t@ == registry@.map_values(|h: crate::hat::HatView| info_of(h)),
    {
        let all = registry.all();
        let mut hats: Vec<HatInfo> = Vec::new();
        let mut i: usize = 0;
        while i < all.len()
            invariant
                i <= all.len(),
                all@.map_values(|h: Hat| h@) == registry@,
                hats@.len() == i,
                forall|k: int| 0 <= k < i ==> (#[trigger] hats@[k])@ == info_of(all@[k]@),
            decreases all.len() - i,
        {
            hats.push(info_from(&all[i]));
            i = i + 1;
        }
        let t = HatTopology { hats };
        assert(t@ =~= registry@.map_values(|h: crate::hat::HatView| info_of(h)));
        t
    }
}

/// `s` ends with a line break.
pub open spec fn ends_with_newline(s: Seq<char>) -> bool {
    s.len() > 0 && s.last() == '\n'
}

/// The table row of a hat.
pub open spec fn hat_row(h: HatInfoView) -> Seq<char> {
    "| "@ + h.name + " | "@ + join(h.subscribes_to, ", "@) + " | "@ + join(h.publishes, ", "@)
        + " |\n"@
}

/// The instructions block of a hat: absent when its instructions are blank.
pub open spec fn hat_block(h: HatInfoView) -> Seq<char> {
    if trim(h.instructions).len() == 0 {
        Seq::empty()
    } else {
        "### "@ + h.name + " Instructions\n\n"@ + h.instructions + (if ends_with_newline(
            h.instructions,
        ) {
            Seq::empty()
        } else {
            "\n"@
        }) + "\n"@
    }
}

/// The table rows of `hats`, in order.
pub open spec fn hat_rows(hats: Seq<HatInfoView>) -> Seq<char>
    decreases hats.len(),
{
    if hats.len() == 0 {
        Seq::empty()
    } else {
        hat_rows(hats.drop_last()) + hat_row(hats.last())
    }
}

/// The instruction blocks of `hats`, in order.
pub open spec fn hat_blocks(hats: Seq<HatInfoView>) -> Seq<char>
    decreases hats.len(),
{
    if hats.len() == 0 {
        Seq::empty()
    } else {
        hat_blocks(hats.drop_last()) + hat_block(hats.last())
    }
}

/// The `HATS` section.
pub open spec fn hats_text(hats: Seq<HatInfoView>, starting_event: Option<Seq<char>>) -> Seq<
    char,
> {
    "## HATS\n\nDelegate via events.\n\n"@ + (match starting_event {
        Some(e) => "**After coordination, publish `"@ + e + "` to start the workflow.**\n\n"@,
        None => Seq::empty(),
    }) + "| Hat | Triggers On | Publishes |\n"@ + "|-----|-------------|----------|\n"@ + hat_rows(
        hats,
    ) + "\n"@ + hat_blocks(hats)
}

/// The guardrail lines, numbered from 999.
pub open spec fn guardrail_lines(guardrails: Seq<Seq<char>>) -> Seq<Seq<char>> {
    Seq::new(guardrails.len(), |i: int| decimal((999 + i) as nat) + ". "@ + guardrails[i])
}

/// The orientation, scratchpad and guardrails sections.
pub open spec fn core_text(
    specs_dir: Seq<char>,
    scratchpad: Seq<char>,
    guardrails: Seq<Seq<char>>,
) -> Seq<char> {
    CORE_INTRO@ + specs_dir + CORE_SCRATCHPAD@ + scratchpad + CORE_MARKERS@ + join(
        guardrail_lines(guardrails),
        "\n"@,
    ) + "\n\n"@
}

/// The `WORKFLOW` section: solo without other hats; with other hats, the fast path on a
/// fresh start and coordinate-and-delegate otherwise.
pub open spec fn workflow_text(
    multi_hat: bool,
    fresh_start: bool,
    scratchpad: Seq<char>,
    starting_event: Seq<char>,
) -> Seq<char> {
    if !multi_hat {
        SOLO_WORKFLOW_HEAD@ + scratchpad + SOLO_WORKFLOW_TAIL@
    } else if fresh_start {
        FAST_WORKFLOW_HEAD@ + starting_event + FAST_WORKFLOW_TAIL@
    } else {
        DELEGATE_WORKFLOW_HEAD@ + scratchpad + DELEGATE_WORKFLOW_TAIL@
    }
}

/// The `DONE` section.
pub open spec fn done_text(promise: Seq<char>) -> Seq<char> {
    "## DONE\n\nOutput "@ + promise + " when all tasks complete.\n"@
}

/// The coordinator as plain values.
pub struct CoordinatorView {
    pub promise: Seq<char>,
    pub specs_dir: Seq<char>,
    pub scratchpad: Seq<char>,
    pub guardrails: Seq<Seq<char>>,
    pub hats: Option<Seq<HatInfoView>>,
    pub starting_event: Option<Seq<char>>,
    pub scratchpad_present: bool,
}

/// Whether the fast path applies: a starting event is configured and the scratchpad is absent.
pub open spec fn fresh_start(c: CoordinatorView) -> bool {
    c.starting_event is Some && !c.scratchpad_present
}

/// The coordinator's prompt for the pending-events text `context`. The `PENDING EVENTS`
/// section is present iff `context` is not blank, and comes before the workflow.
pub open spec fn coordinator_prompt(c: CoordinatorView, context: Seq<char>) -> Seq<char> {
    core_text(c.specs_dir, c.scratchpad, c.guardrails) + (if trim(context).len() == 0 {
        Seq::empty()
    } else {
        "## PENDING EVENTS\n\n"@ + context + "\n\n"@
    }) + workflow_text(
        c.hats is Some,
        fresh_start(c),
        c.scratchpad,
        match c.starting_event {
            Some(e) => e,
            None => Seq::empty(),
        },
    ) + (match c.hats {
        Some(h) => hats_text(h, c.starting_event),
        None => Seq::empty(),
    }) + EVENT_WRITING@ + done_text(c.promise)
}

/// The constant coordinator.
#[derive(Debug)]
pub struct HatlessRalph {
    completion_promise: String,
    core: CoreConfig,
    hat_topology: Option<HatTopology>,
    starting_event: Option<String>,
    scratchpad_present: bool,
}

impl View for HatlessRalph {
    type V = CoordinatorView;

    closed spec fn view(&self) -> CoordinatorView {
        CoordinatorView {
            promise: self.completion_promise@,
            specs_dir: self.core.specs_dir@,
            scratchpad: self.core.scratchpad@,
            guardrails: views(self.core.guardrails@),
            hats: match self.hat_topology {
                Some(t) => Some(t@),
                None => None,
            },
            starting_event: match self.starting_event {
                Some(x) => Some(x@),
                None => None,
            },
            scratchpad_present: self.scratchpad_present,
        }
    }
}

impl HatlessRalph {
    /// A coordinator with the given completion promise, prompt settings, hats and
    /// starting event. It takes the scratchpad to be absent until told otherwise.
    pub fn new(
        completion_promise: &str,
        core: CoreConfig,
        registry: &HatRegistry,
        starting_event: Option<String>,
    ) -> (r: HatlessRalph)
        ensures
            r@.promise == completion_promise@,
            r@.specs_dir == core.specs_dir@,
            r@.scratchpad == core.scratchpad@,
            r@.guardrails == views(core.guardrails@),
            registry@.len() == 0 ==> r@.hats is None,
            registry@.len() > 0 ==> r@.hats == Some(
                registry@.map_values(|h: crate::hat::HatView| info_of(h)),
            ),
            r@.starting_event == match starting_event {
                Some(x) => Some(x@),
                None => None::<Seq<char>>,
            },
            !r@.scratchpad_present,
    {
        let hat_topology = if registry.is_empty() {
            None
        } else {
            Some(HatTopology::from_registry(registry))
        };
        HatlessRalph {
            completion_promise: completion_promise.to_owned(),
            core,
            hat_topology,
            starting_event,
            scratchpad_present: false,
        }
    }

    /// Records whether the scratchpad file exists.
    pub fn set_scratchpad_present(&mut self, present: bool)
        ensures
            final(self)@ == (CoordinatorView { scratchpad_present: present, ..old(self)@ }),
    {
        self.scratchpad_present = present;
    }

    /// The coordinator handles every topic.
    pub fn should_handle(&self, topic: &Topic) -> (r: bool)
        ensures
            r,
    {
        true
    }

    /// Whether the fast path applies.
    pub fn is_fresh_start(&self) -> (r: bool)
        ensures
            r == fresh_start(self@),
    {
        self.starting_event.is_some() && !self.scratchpad_present
    }

    fn core_prompt(&self) -> (r: String)
        ensures
            r@ == core_text(self@.specs_dir, self@.scratchpad, self@.guardrails),
    {
        let gs = &self.core.guardrails;
        let mut lines: Vec<String> = Vec::new();
        let mut i: usize = 0;
        while i < gs.len()
            invariant
                i <= gs.len(),
                views(gs@) == self@.guardrails,
                lines@.len() == i,
                forall|k: int|
                    0 <= k < i ==> (#[trigger] lines@[k])@ == guardrail_lines(views(gs@))[k],
            decreases gs.len() - i,
        {
            let mut line = decimal_string(999 + i as u128);
            line.append(". ");
            line.append(gs[i].as_str());
            lines.push(line);
            i = i + 1;
        }
        assert(views(lines@) =~= guardrail_lines(views(gs@)));
        let guardrails = join_strings(&lines, "\n");
        let mut r = String::new();
        r.append(CORE_INTRO);
        r.append(self.core.specs_dir.as_str());
        r.append(CORE_SCRATCHPAD);
        r.append(self.core.scratchpad.as_str());
        r.append(CORE_MARKERS);
        r.append(guardrails.as_str());
        r.append("\n\n");
        r
    }

    fn workflow_section(&self) -> (r: String)
        ensures
            r@ == workflow_text(
                self@.hats is Some,
                fresh_start(self@),
                self@.scratchpad,
                match self@.starting_event {
                    Some(e) => e,
                    None => Seq::empty(),
                },
            ),
    {
        let mut r = String::new();
        if self.hat_topology.is_none() {
            r.append(SOLO_WORKFLOW_HEAD);
            r.append(self.core.scratchpad.as_str());
            r.append(SOLO_WORKFLOW_TAIL);
        } else if self.is_fresh_start() {
            r.append(FAST_WORKFLOW_HEAD);
            match &self.starting_event {
                Some(e) => r.append(e.as_str()),
                None => {},
            }
            r.append(FAST_WORKFLOW_TAIL);
        } else {
            r.append(DELEGATE_WORKFLOW_HEAD);
            r.append(self.core.scratchpad.as_str());
            r.append(DELEGATE_WORKFLOW_TAIL);
        }
        r
    }

    fn hats_section(&self, topology: &HatTopology) -> (r: String)
        ensures
            r@ == hats_text(topology@, self@.starting_event),
    {
        let mut r = String::new();
        r.append("## HATS\n\nDelegate via events.\n\n");
        match &self.starting_event {
            Some(e) => {
                r.append("**After coordination, publish `");
                r.append(e.as_str());
                r.append("` to start the workflow.**\n\n");
            },
            None => {},
        }
        r.append("| Hat | Triggers On | Publishes |\n");
        r.append("|-----|-------------|----------|\n");
        let hats = &topology.hats;
        let ghost infos = topology@;
        let ghost head = r@;
        let mut i: usize = 0;
        while i < hats.len()
            invariant
                i <= hats.len(),
                infos == hats@.map_values(|h: HatInfo| h@),
                r@ == head + hat_rows(infos.take(i as int)),
            decreases hats.len() - i,
        {
            let h = &hats[i];
            assert(infos.take(i + 1).drop_last() == infos.take(i as int));
            assert(infos.take(i + 1).last() == h@);
            r.append("| ");
            r.append(h.name.as_str());
            r.append(" | ");
            let subs = join_strings(&h.subscribes_to, ", ");
            r.append(subs.as_str());
            r.append(" | ");
            let pubs = join_strings(&h.publishes, ", ");
            r.append(pubs.as_str());
            r.append(" |\n");
            i = i + 1;
        }
        assert(infos.take(hats.len() as int) == infos);
        r.append("\n");
        let ghost mid = r@;
        let mut i: usize = 0;
        while i < hats.len()
            invariant
                i <= hats.len(),
                infos == hats@.map_values(|h: HatInfo| h@),
                r@ == mid + hat_blocks(infos.take(i as int)),
            decreases hats.len() - i,
        {
            let h = &hats[i];
            assert(infos.take(i + 1).drop_last() == infos.take(i as int));
            assert(infos.take(i + 1).last() == h@);
            let ghost before = r@;
            if !is_blank(h.instructions.as_str()) {
                r.append("### ");
                r.append(h.name.as_str());
                r.append(" Instructions\n\n");
                r.append(h.instructions.as_str());
                let cs = chars_of(h.instructions.as_str());
                let ghost with_text = r@;
                if !(cs.len() > 0 && cs[cs.len() - 1] == '\n') {
                    r.append("\n");
                }
                r.append("\n");
            }
            assert(r@ == before + hat_block(h@));
            i = i + 1;
        }
        assert(infos.take(hats.len() as int) == infos);
        r
    }

    fn event_writing_section(&self) -> (r: String)
        ensures
            r@ == EVENT_WRITING@,
    {
        let mut r = String::new();
        r.append(EVENT_WRITING);
        r
    }

    fn done_section(&self) -> (r: String)
        ensures
            r@ == done_text(self@.promise),
    {
        let mut r = String::new();
        r.append("## DONE\n\nOutput ");
        r.append(self.completion_promise.as_str());
        r.append(" when all tasks complete.\n");
        r
    }

    /// The coordinator's prompt, with `context` as the pending events.
    pub fn build_prompt(&self, context: &str) -> (r: String)
        ensures
            r@ == coordinator_prompt(self@, context@),
    {
        let mut prompt = self.core_prompt();
        let ghost core = prompt@;
        if !is_blank(context) {
            prompt.append("## PENDING EVENTS\n\n");
            prompt.append(context);
            prompt.append("\n\n");
        }
        let workflow = self.workflow_section();
        prompt.append(workflow.as_str());
        let ghost upto_workflow = prompt@;
        match &self.hat_topology {
            Some(topology) => {
                let hats = self.hats_section(topology);
                prompt.append(hats.as_str());
            },
            None => {},
        }
        let writing = self.event_writing_section();
        prompt.append(writing.as_str());
        let done = self.done_section();
        prompt.append(done.as_str());
        prompt
    }
}

} // verus!
