use ralph::{HatConfig, HatRegistry, HatlessRalph, RalphConfig, Topic};

fn hat_entry(name: &str, triggers: &[&str], publishes: &[&str], instructions: &str) -> HatConfig {
    HatConfig {
        name: name.to_string(),
        subscriptions: triggers.iter().map(|s| s.to_string()).collect(),
        publishes: publishes.iter().map(|s| s.to_string()).collect(),
        instructions: instructions.to_string(),
    }
}

fn config_with(hats: Vec<(&str, HatConfig)>) -> RalphConfig {
    let mut config = RalphConfig::default();
    config.hats = hats.into_iter().map(|(id, h)| (id.to_string(), h)).collect();
    config
}

#[test]
fn test_prompt_without_hats() {
    let config = RalphConfig::default();
    let registry = HatRegistry::new();
    let ralph = HatlessRalph::new("LOOP_COMPLETE", config.core.clone(), &registry, None);

    let prompt = ralph.build_prompt("");

    assert!(prompt.contains("I'm Ralph. Fresh context each iteration."));
    assert!(prompt.contains("### 0a. ORIENTATION"));
    assert!(prompt.contains("Study"));
    assert!(prompt.contains("Don't assume features aren't implemented"));
    assert!(prompt.contains("### 0b. SCRATCHPAD"));
    assert!(prompt.contains("Task markers:"));
    assert!(prompt.contains("- `[ ]` pending"));
    assert!(prompt.contains("- `[x]` done"));
    assert!(prompt.contains("- `[~]` cancelled"));
    assert!(prompt.contains("## WORKFLOW"));
    assert!(prompt.contains("### 1. Study the prompt"));
    assert!(prompt.contains("Use parallel subagents (up to 10)"));
    assert!(prompt.contains("### 2. PLAN"));
    assert!(prompt.contains("### 3. IMPLEMENT"));
    assert!(prompt.contains("Only 1 subagent for build/tests"));
    assert!(prompt.contains("### 4. COMMIT"));
    assert!(prompt.contains("Capture the why"));
    assert!(prompt.contains("### 5. REPEAT"));
    assert!(!prompt.contains("## HATS"));
    assert!(prompt.contains("## EVENT WRITING"));
    assert!(prompt.contains(".agent/events.jsonl"));
    assert!(prompt.contains("LOOP_COMPLETE"));
}

#[test]
fn test_prompt_with_hats() {
    let config = config_with(vec![
        (
            "planner",
            hat_entry(
                "Planner",
                &["planning.start", "build.done", "build.blocked"],
                &["build.task"],
                "",
            ),
        ),
        ("builder", hat_entry("Builder", &["build.task"], &["build.done", "build.blocked"], "")),
    ]);
    let registry = HatRegistry::from_config(&config).unwrap();
    let ralph = HatlessRalph::new("LOOP_COMPLETE", config.core.clone(), &registry, None);

    let prompt = ralph.build_prompt("");

    assert!(prompt.contains("I'm Ralph. Fresh context each iteration."));
    assert!(prompt.contains("### 0a. ORIENTATION"));
    assert!(prompt.contains("### 0b. SCRATCHPAD"));
    assert!(prompt.contains("## WORKFLOW"));
    assert!(prompt.contains("### 1. PLAN"));
    assert!(prompt.contains("### 2. DELEGATE"), "Multi-hat mode should have DELEGATE step");
    assert!(
        !prompt.contains("### 3. IMPLEMENT"),
        "Multi-hat mode should NOT tell Ralph to implement"
    );
    assert!(
        prompt.contains("CRITICAL: STOP after publishing"),
        "Should explicitly tell Ralph to stop after publishing event"
    );
    assert!(prompt.contains("## HATS"));
    assert!(prompt.contains("Delegate via events"));
    assert!(prompt.contains("| Hat | Triggers On | Publishes |"));
    assert!(prompt.contains("## EVENT WRITING"));
    assert!(prompt.contains("LOOP_COMPLETE"));
}

#[test]
fn test_should_handle_always_true() {
    let config = RalphConfig::default();
    let registry = HatRegistry::new();
    let ralph = HatlessRalph::new("LOOP_COMPLETE", config.core.clone(), &registry, None);

    assert!(ralph.should_handle(&Topic::new("any.topic")));
    assert!(ralph.should_handle(&Topic::new("build.task")));
    assert!(ralph.should_handle(&Topic::new("unknown.event")));
}

#[test]
fn test_ghuntley_patterns_present() {
    let config = RalphConfig::default();
    let registry = HatRegistry::new();
    let ralph = HatlessRalph::new("LOOP_COMPLETE", config.core.clone(), &registry, None);

    let prompt = ralph.build_prompt("");

    assert!(prompt.contains("Study"), "Should use 'study' verb");
    assert!(
        prompt.contains("Don't assume features aren't implemented"),
        "Should have 'don't assume' guardrail"
    );
    assert!(prompt.contains("parallel subagents"), "Should mention parallel subagents for reads");
    assert!(prompt.contains("Only 1 subagent"), "Should limit to 1 subagent for builds");
    assert!(prompt.contains("Capture the why"), "Should emphasize 'why' in commits");
    assert!(prompt.contains("### GUARDRAILS"), "Should have guardrails section");
    assert!(prompt.contains("999."), "Guardrails should use high numbers");
}

#[test]
fn test_scratchpad_format_documented() {
    let config = RalphConfig::default();
    let registry = HatRegistry::new();
    let ralph = HatlessRalph::new("LOOP_COMPLETE", config.core.clone(), &registry, None);

    let prompt = ralph.build_prompt("");

    assert!(prompt.contains("- `[ ]` pending"));
    assert!(prompt.contains("- `[x]` done"));
    assert!(prompt.contains("- `[~]` cancelled (with reason)"));
}

#[test]
fn test_starting_event_in_prompt() {
    let config =
        config_with(vec![("tdd_writer", hat_entry("TDD Writer", &["tdd.start"], &["test.written"], ""))]);
    let registry = HatRegistry::from_config(&config).unwrap();
    let ralph = HatlessRalph::new(
        "LOOP_COMPLETE",
        config.core.clone(),
        &registry,
        Some("tdd.start".to_string()),
    );

    let prompt = ralph.build_prompt("");

    assert!(
        prompt.contains("After coordination, publish `tdd.start` to start the workflow"),
        "Prompt should include starting_event delegation instruction"
    );
}

#[test]
fn test_no_starting_event_instruction_when_none() {
    let config = config_with(vec![("some_hat", hat_entry("Some Hat", &["some.event"], &[], ""))]);
    let registry = HatRegistry::from_config(&config).unwrap();
    let ralph = HatlessRalph::new("LOOP_COMPLETE", config.core.clone(), &registry, None);

    let prompt = ralph.build_prompt("");

    assert!(
        !prompt.contains("After coordination, publish"),
        "Prompt should NOT include starting_event delegation when None"
    );
}

#[test]
fn test_hat_instructions_propagated_to_prompt() {
    let config = config_with(vec![(
        "tdd_writer",
        hat_entry(
            "TDD Writer",
            &["tdd.start"],
            &["test.written"],
            "You are a Test-Driven Development specialist.\nAlways write failing tests before implementation.\nFocus on edge cases and error handling.\n",
        ),
    )]);
    let registry = HatRegistry::from_config(&config).unwrap();
    let ralph = HatlessRalph::new(
        "LOOP_COMPLETE",
        config.core.clone(),
        &registry,
        Some("tdd.start".to_string()),
    );

    let prompt = ralph.build_prompt("");

    assert!(
        prompt.contains("### TDD Writer Instructions"),
        "Prompt should include hat instructions section header"
    );
    assert!(
        prompt.contains("Test-Driven Development specialist"),
        "Prompt should include actual instructions content"
    );
    assert!(prompt.contains("Always write failing tests"), "Prompt should include full instructions");
}

#[test]
fn test_empty_instructions_not_rendered() {
    let config = config_with(vec![("builder", hat_entry("Builder", &["build.task"], &["build.done"], ""))]);
    let registry = HatRegistry::from_config(&config).unwrap();
    let ralph = HatlessRalph::new("LOOP_COMPLETE", config.core.clone(), &registry, None);

    let prompt = ralph.build_prompt("");

    assert!(
        !prompt.contains("### Builder Instructions"),
        "Prompt should NOT include instructions section for hat with empty instructions"
    );
}

#[test]
fn test_multiple_hats_with_instructions() {
    let config = config_with(vec![
        (
            "planner",
            hat_entry(
                "Planner",
                &["planning.start"],
                &["build.task"],
                "Plan carefully before implementation.",
            ),
        ),
        (
            "builder",
            hat_entry("Builder", &["build.task"], &["build.done"], "Focus on clean, testable code."),
        ),
    ]);
    let registry = HatRegistry::from_config(&config).unwrap();
    let ralph = HatlessRalph::new("LOOP_COMPLETE", config.core.clone(), &registry, None);

    let prompt = ralph.build_prompt("");

    assert!(
        prompt.contains("### Planner Instructions"),
        "Prompt should include Planner instructions section"
    );
    assert!(
        prompt.contains("Plan carefully before implementation"),
        "Prompt should include Planner instructions content"
    );
    assert!(
        prompt.contains("### Builder Instructions"),
        "Prompt should include Builder instructions section"
    );
    assert!(
        prompt.contains("Focus on clean, testable code"),
        "Prompt should include Builder instructions content"
    );
}

#[test]
fn test_fast_path_with_starting_event() {
    let mut config =
        config_with(vec![("tdd_writer", hat_entry("TDD Writer", &["tdd.start"], &["test.written"], ""))]);
    config.core.scratchpad = "/nonexistent/path/scratchpad.md".to_string();
    let registry = HatRegistry::from_config(&config).unwrap();
    let ralph = HatlessRalph::new(
        "LOOP_COMPLETE",
        config.core.clone(),
        &registry,
        Some("tdd.start".to_string()),
    );

    let prompt = ralph.build_prompt("");

    assert!(
        prompt.contains("FAST PATH"),
        "Prompt should indicate fast path when starting_event set and no scratchpad"
    );
    assert!(
        prompt.contains("Publish `tdd.start` immediately"),
        "Prompt should instruct immediate event publishing"
    );
    assert!(!prompt.contains("### 1. PLAN"), "Fast path should skip PLAN step");
}

#[test]
fn test_events_context_included_in_prompt() {
    let config = RalphConfig::default();
    let registry = HatRegistry::new();
    let ralph = HatlessRalph::new("LOOP_COMPLETE", config.core.clone(), &registry, None);

    let events_context = r#"[task.start] User's task: Review this code for security vulnerabilities
[build.done] Build completed successfully"#;

    let prompt = ralph.build_prompt(events_context);

    assert!(prompt.contains("## PENDING EVENTS"), "Prompt should contain PENDING EVENTS section");
    assert!(
        prompt.contains("Review this code for security vulnerabilities"),
        "Prompt should contain the user's task"
    );
    assert!(
        prompt.contains("Build completed successfully"),
        "Prompt should contain all events from context"
    );
}

#[test]
fn test_empty_context_no_pending_events_section() {
    let config = RalphConfig::default();
    let registry = HatRegistry::new();
    let ralph = HatlessRalph::new("LOOP_COMPLETE", config.core.clone(), &registry, None);

    let prompt = ralph.build_prompt("");

    assert!(
        !prompt.contains("## PENDING EVENTS"),
        "Empty context should not produce PENDING EVENTS section"
    );
}

#[test]
fn test_whitespace_only_context_no_pending_events_section() {
    let config = RalphConfig::default();
    let registry = HatRegistry::new();
    let ralph = HatlessRalph::new("LOOP_COMPLETE", config.core.clone(), &registry, None);

    let prompt = ralph.build_prompt("   \n\t  ");

    assert!(
        !prompt.contains("## PENDING EVENTS"),
        "Whitespace-only context should not produce PENDING EVENTS section"
    );
}

#[test]
fn test_events_section_before_workflow() {
    let config = RalphConfig::default();
    let registry = HatRegistry::new();
    let ralph = HatlessRalph::new("LOOP_COMPLETE", config.core.clone(), &registry, None);

    let events_context = "[task.start] Implement feature X";
    let prompt = ralph.build_prompt(events_context);

    let events_pos = prompt.find("## PENDING EVENTS").expect("Should have PENDING EVENTS");
    let workflow_pos = prompt.find("## WORKFLOW").expect("Should have WORKFLOW");

    assert!(
        events_pos < workflow_pos,
        "PENDING EVENTS ({}) should come before WORKFLOW ({})",
        events_pos,
        workflow_pos
    );
}

#[test]
fn fast_path_needs_absent_scratchpad() {
    let config =
        config_with(vec![("tdd_writer", hat_entry("TDD Writer", &["tdd.start"], &["test.written"], ""))]);
    let registry = HatRegistry::from_config(&config).unwrap();
    let mut ralph = HatlessRalph::new(
        "LOOP_COMPLETE",
        config.core.clone(),
        &registry,
        Some("tdd.start".to_string()),
    );
    assert!(ralph.is_fresh_start());
    ralph.set_scratchpad_present(true);
    assert!(!ralph.is_fresh_start());
    let prompt = ralph.build_prompt("");
    assert!(!prompt.contains("FAST PATH"));
    assert!(prompt.contains("### 1. PLAN"));
}

#[test]
fn guardrails_are_numbered_from_999() {
    let mut config = RalphConfig::default();
    config.core.guardrails = vec!["first rule".to_string(), "second rule".to_string()];
    let registry = HatRegistry::new();
    let ralph = HatlessRalph::new("DONE", config.core.clone(), &registry, None);
    let prompt = ralph.build_prompt("");
    assert!(prompt.contains("### GUARDRAILS\n999. first rule\n1000. second rule\n\n"));
    assert!(prompt.ends_with("## DONE\n\nOutput DONE when all tasks complete.\n"));
}

#[test]
fn hats_table_lists_patterns_and_topics() {
    let config = config_with(vec![(
        "impl",
        hat_entry("Implementer", &["task.*", "review.done"], &["impl.done"], "Be careful"),
    )]);
    let registry = HatRegistry::from_config(&config).unwrap();
    let ralph = HatlessRalph::new("LOOP_COMPLETE", config.core.clone(), &registry, None);
    let prompt = ralph.build_prompt("");
    assert!(prompt.contains("| Implementer | task.*, review.done | impl.done |\n"));
    assert!(prompt.contains("### Implementer Instructions\n\nBe careful\n\n"));
}
