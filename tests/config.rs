use ralph::config::{
    default_backend, default_checkpoint_interval, default_completion_promise, default_max_failures,
    default_max_iterations, default_max_runtime, default_mode, default_prompt_file,
    default_prompt_mode,
};
use ralph::status::format_duration;
use ralph::text::{decimal_string, join_strings, trimmed};
use ralph::{HatConfig, HatRegistry, RalphConfig};

#[test]
fn test_default_config() {
    let config = RalphConfig::default();
    assert_eq!(config.mode, "single");
    assert!(config.is_single_mode());
    assert_eq!(config.event_loop.max_iterations, 100);
}

#[test]
fn defaults_have_documented_values() {
    assert_eq!(default_mode(), "single");
    assert_eq!(default_prompt_file(), "PROMPT.md");
    assert_eq!(default_completion_promise(), "LOOP_COMPLETE");
    assert_eq!(default_max_iterations(), 100);
    assert_eq!(default_max_runtime(), 14400);
    assert_eq!(default_max_failures(), 5);
    assert_eq!(default_checkpoint_interval(), 5);
    assert_eq!(default_backend(), "gemini");
    assert_eq!(default_prompt_mode(), "arg");
    let config = RalphConfig::default();
    assert_eq!(config.cli.backend, "gemini");
    assert_eq!(config.core.scratchpad, ".agent/scratchpad.md");
    assert_eq!(config.core.specs_dir, "specs/");
}

#[test]
fn multi_mode_is_not_single() {
    let mut config = RalphConfig::default();
    config.mode = "multi".to_string();
    assert!(!config.is_single_mode());
}

#[test]
fn hat_config_topics() {
    let hat = HatConfig {
        name: "Implementer".to_string(),
        subscriptions: vec!["task.*".to_string(), "review.done".to_string()],
        publishes: vec!["impl.done".to_string()],
        instructions: String::new(),
    };
    let subs = hat.subscription_topics();
    assert_eq!(subs.len(), 2);
    assert_eq!(subs[1].as_str(), "review.done");
    assert_eq!(hat.publish_topics()[0].as_str(), "impl.done");
}

#[test]
fn registry_refuses_duplicate_ids() {
    let entry = |name: &str| HatConfig {
        name: name.to_string(),
        subscriptions: vec![],
        publishes: vec![],
        instructions: String::new(),
    };
    let mut config = RalphConfig::default();
    config.hats = vec![("a".to_string(), entry("A")), ("a".to_string(), entry("B"))];
    assert!(HatRegistry::from_config(&config).is_err());
    config.hats = vec![("a".to_string(), entry("A")), ("b".to_string(), entry("B"))];
    let registry = HatRegistry::from_config(&config).unwrap();
    assert_eq!(registry.len(), 2);
    assert_eq!(registry.all()[1].name, "B");
}

#[test]
fn durations_are_zero_padded() {
    assert_eq!(format_duration(0), "00:00:00");
    assert_eq!(format_duration(3661), "01:01:01");
    assert_eq!(format_duration(59), "00:00:59");
    assert_eq!(format_duration(360_000), "100:00:00");
}

#[test]
fn text_helpers() {
    assert_eq!(decimal_string(0), "0");
    assert_eq!(decimal_string(1000), "1000");
    assert_eq!(trimmed("\u{a0} x y \n"), "x y");
    assert_eq!(join_strings(&vec!["a".to_string(), "b".to_string()], ", "), "a, b");
    assert_eq!(join_strings(&vec![], ", "), "");
}
