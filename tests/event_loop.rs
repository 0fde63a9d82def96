use ralph::{EventLoop, HatConfig, HatId, RalphConfig, TerminationReason};

fn worker(name: &str, subscriptions: &[&str], publishes: &[&str]) -> HatConfig {
    HatConfig {
        name: name.to_string(),
        subscriptions: subscriptions.iter().map(|s| s.to_string()).collect(),
        publishes: publishes.iter().map(|s| s.to_string()).collect(),
        instructions: String::new(),
    }
}

fn multi_config() -> RalphConfig {
    let mut config = RalphConfig::default();
    config.mode = "multi".to_string();
    config.hats = vec![
        ("impl".to_string(), worker("Implementer", &["task.*"], &["impl.done"])),
        ("checker".to_string(), worker("Checker", &["impl.*"], &[])),
    ];
    config
}

#[test]
fn solo_completion_stops_before_counting() {
    let mut config = RalphConfig::default();
    config.event_loop.max_iterations = 3;
    let mut lp = EventLoop::new(&config, 0).unwrap();
    assert!(lp.is_single_mode());
    lp.initialize("Do the thing");

    assert_eq!(lp.check_termination(0), None);
    let hat = lp.next_hat().expect("the coordinator has the task");
    assert_eq!(hat.as_str(), "ralph");
    let prompt = lp.build_single_prompt("Do the thing");
    assert!(prompt.contains("LOOP_COMPLETE"));

    let reason = lp.process_output(&hat, "done LOOP_COMPLETE", true, 0, 1);
    assert_eq!(reason, Some(TerminationReason::CompletionPromise));
    assert_eq!(lp.state().iteration, 0);
}

#[test]
fn multi_hat_handoff_selects_checker_next() {
    let mut lp = EventLoop::new(&multi_config(), 0).unwrap();
    lp.initialize("Build the feature");

    let first = lp.next_hat().unwrap();
    assert_eq!(first.as_str(), "impl");
    let prompt = lp.build_prompt(&first).unwrap();
    assert!(prompt.contains("You are the Implementer agent"));
    assert!(prompt.contains("[task.start] Build the feature"));

    let reason = lp.process_output(&first, "<event topic=\"impl.done\">ok</event>", true, 0, 5);
    assert_eq!(reason, None);
    assert_eq!(lp.state().iteration, 1);
    assert_eq!(lp.bus().pending_len(&HatId::new("checker")), 1);
    assert_eq!(lp.bus().pending_len(&HatId::new("impl")), 0);

    let second = lp.next_hat().unwrap();
    assert_eq!(second.as_str(), "checker");
}

#[test]
fn coordinator_prompt_takes_its_pending_events() {
    let mut config = multi_config();
    config.hats.clear();
    config.hats.push(("impl".to_string(), worker("Implementer", &["build.*"], &[])));
    let mut lp = EventLoop::new(&config, 0).unwrap();
    lp.initialize("Plan the work");
    let hat = lp.next_hat().unwrap();
    assert_eq!(hat.as_str(), "ralph");
    let prompt = lp.build_prompt(&hat).unwrap();
    assert!(prompt.contains("## PENDING EVENTS\n\n[task.start] Plan the work\n\n"));
    assert!(lp.next_hat().is_none());
    assert!(lp.build_prompt(&HatId::new("missing")).is_none());
}

#[test]
fn empty_output_publishes_nothing() {
    let mut lp = EventLoop::new(&multi_config(), 0).unwrap();
    lp.initialize("task");
    let hat = lp.next_hat().unwrap();
    lp.build_prompt(&hat).unwrap();
    let before = lp.bus().pending_len(&HatId::new("ralph"));
    assert_eq!(lp.process_output(&hat, "", true, 0, 1), None);
    assert_eq!(lp.bus().pending_len(&HatId::new("ralph")), before);
    assert_eq!(lp.bus().pending_len(&HatId::new("checker")), 0);
    assert_eq!(lp.state().iteration, 1);
}

#[test]
fn promise_ends_before_publishing() {
    let mut lp = EventLoop::new(&multi_config(), 0).unwrap();
    lp.initialize("task");
    let hat = lp.next_hat().unwrap();
    lp.build_prompt(&hat).unwrap();
    let output = "<event topic=\"impl.done\">ok</event> LOOP_COMPLETE";
    assert_eq!(
        lp.process_output(&hat, output, false, 250, 1),
        Some(TerminationReason::CompletionPromise)
    );
    assert_eq!(lp.bus().pending_len(&HatId::new("checker")), 0);
    assert_eq!(lp.state().consecutive_failures, 0);
    assert_eq!(lp.state().cumulative_cost, 0);
}

#[test]
fn failure_at_threshold_terminates() {
    let mut config = RalphConfig::default();
    config.event_loop.max_consecutive_failures = 3;
    let mut lp = EventLoop::new(&config, 0).unwrap();
    lp.initialize("task");
    let hat = HatId::new("ralph");
    assert_eq!(lp.process_output(&hat, "oops", false, 0, 1), None);
    assert_eq!(lp.process_output(&hat, "oops", false, 0, 2), None);
    assert_eq!(lp.state().consecutive_failures, 2);
    assert_eq!(
        lp.process_output(&hat, "oops", false, 0, 3),
        Some(TerminationReason::ConsecutiveFailures)
    );
    assert_eq!(lp.check_termination(3), Some(TerminationReason::ConsecutiveFailures));
}

#[test]
fn success_resets_failures_and_adds_cost() {
    let mut lp = EventLoop::new(&RalphConfig::default(), 0).unwrap();
    let hat = HatId::new("ralph");
    lp.process_output(&hat, "x", false, 1_500_000, 1);
    assert_eq!(lp.state().consecutive_failures, 1);
    lp.process_output(&hat, "x", true, 500_000, 2);
    assert_eq!(lp.state().consecutive_failures, 0);
    assert_eq!(lp.state().cumulative_cost, 2_000_000);
    assert_eq!(lp.state().iteration_started_at, 2);
}

#[test]
fn termination_order_and_bounds() {
    let mut config = RalphConfig::default();
    config.event_loop.max_iterations = 2;
    config.event_loop.max_runtime_seconds = 100;
    config.event_loop.max_cost_micros = Some(1_000);
    let mut lp = EventLoop::new(&config, 10).unwrap();
    let hat = HatId::new("ralph");
    assert_eq!(lp.check_termination(10), None);
    assert_eq!(lp.check_termination(110), Some(TerminationReason::MaxRuntime));
    lp.process_output(&hat, "a", true, 0, 11);
    lp.process_output(&hat, "b", true, 0, 12);
    assert_eq!(lp.check_termination(12), Some(TerminationReason::MaxIterations));
    lp.process_output(&hat, "c", true, 1_000, 13);
    assert_eq!(lp.check_termination(13), Some(TerminationReason::MaxCost));
    lp.stop();
    assert_eq!(lp.check_termination(13), Some(TerminationReason::Stopped));
}

#[test]
fn loop_with_bounded_iterations_terminates() {
    let mut config = RalphConfig::default();
    config.event_loop.max_iterations = 4;
    let mut lp = EventLoop::new(&config, 0).unwrap();
    lp.initialize("never done");
    let mut rounds = 0;
    loop {
        if let Some(reason) = lp.check_termination(0) {
            assert_eq!(reason, TerminationReason::MaxIterations);
            break;
        }
        let hat = lp.next_hat().expect("the task stays pending in single mode");
        let _ = lp.build_single_prompt("never done");
        assert_eq!(lp.process_output(&hat, "still working", true, 0, 0), None);
        rounds += 1;
        assert!(rounds <= 4);
    }
    assert_eq!(rounds, 4);
}

#[test]
fn checkpoint_every_interval() {
    let mut config = RalphConfig::default();
    config.event_loop.checkpoint_interval = 2;
    let mut lp = EventLoop::new(&config, 0).unwrap();
    let hat = HatId::new("ralph");
    assert!(!lp.should_checkpoint());
    lp.process_output(&hat, "a", true, 0, 0);
    assert!(!lp.should_checkpoint());
    lp.process_output(&hat, "b", true, 0, 0);
    assert!(lp.should_checkpoint());
}

#[test]
fn configured_coordinator_id_is_refused() {
    let mut config = multi_config();
    config.hats.push(("ralph".to_string(), worker("Impostor", &["*"], &[])));
    assert!(EventLoop::new(&config, 0).is_err());
}

#[test]
fn starting_hat_directs_seed_event() {
    let mut config = multi_config();
    config.event_loop.starting_hat = Some("checker".to_string());
    let mut lp = EventLoop::new(&config, 0).unwrap();
    lp.initialize("review it");
    assert_eq!(lp.bus().pending_len(&HatId::new("checker")), 1);
    assert_eq!(lp.bus().pending_len(&HatId::new("impl")), 0);
    assert_eq!(lp.bus().pending_len(&HatId::new("ralph")), 0);
}

#[test]
fn fast_path_prompt_for_fresh_start() {
    let mut config = multi_config();
    config.event_loop.starting_event = Some("tdd.start".to_string());
    config.event_loop.coordinator_priority = true;
    let mut lp = EventLoop::new(&config, 0).unwrap();
    lp.set_scratchpad_present(false);
    lp.initialize("task");
    let hat = lp.next_hat().unwrap();
    assert_eq!(hat.as_str(), "ralph");
    let prompt = lp.build_prompt(&hat).unwrap();
    assert!(prompt.contains("FAST PATH"));
    assert!(prompt.contains("Publish `tdd.start` immediately"));
    assert!(!prompt.contains("### 1. PLAN"));
}
