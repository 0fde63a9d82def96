use ralph::topic::TopicError;
use ralph::{Hat, HatId, Topic};

#[test]
fn test_subscription_matching() {
    let hat = Hat::new("impl", "Implementer").subscribe("impl.*").subscribe("task.start");

    assert!(hat.is_subscribed(&Topic::new("impl.done")));
    assert!(hat.is_subscribed(&Topic::new("task.start")));
    assert!(!hat.is_subscribed(&Topic::new("review.done")));
}

#[test]
fn test_default_single_hat() {
    let hat = Hat::default_single();
    assert!(hat.is_subscribed(&Topic::new("anything")));
    assert!(hat.is_subscribed(&Topic::new("impl.done")));
}

#[test]
fn default_single_hat_fields() {
    let hat = Hat::default_single();
    assert_eq!(hat.id.as_str(), "default");
    assert_eq!(hat.name, "Default");
    assert_eq!(hat.publishes.len(), 1);
    assert_eq!(hat.publishes[0].as_str(), "task.done");
}

#[test]
fn star_alone_matches_any_arity() {
    let p = Topic::new("*");
    assert!(p.matches(&Topic::new("a")));
    assert!(p.matches(&Topic::new("a.b.c")));
}

#[test]
fn star_segment_matches_exactly_one_segment() {
    let p = Topic::new("a.*");
    assert!(p.matches(&Topic::new("a.x")));
    assert!(!p.matches(&Topic::new("a")));
    assert!(!p.matches(&Topic::new("a.y.z")));
    assert!(!p.matches(&Topic::new("b.x")));
    assert!(Topic::new("*.done").matches(&Topic::new("impl.done")));
}

#[test]
fn literal_pattern_matches_only_itself() {
    let p = Topic::new("a.b");
    assert!(p.matches(&Topic::new("a.b")));
    assert!(!p.matches(&Topic::new("a.bc")));
    assert!(!p.matches(&Topic::new("a.b.c")));
}

#[test]
fn empty_sides_are_invalid() {
    assert_eq!(Topic::new("").try_matches(&Topic::new("a")), Err(TopicError::InvalidTopic));
    assert_eq!(Topic::new("a").try_matches(&Topic::new("")), Err(TopicError::InvalidTopic));
    assert_eq!(Topic::new("a").try_matches(&Topic::new("a")), Ok(true));
    assert!(!Topic::new("*").matches(&Topic::new("")));
}

#[test]
fn hat_ids_compare_by_text() {
    assert_eq!(HatId::new("x"), HatId::new("x"));
    assert_ne!(HatId::new("x"), HatId::new("y"));
    assert!(HatId::new("x").same(&HatId::new("x")));
}

#[test]
fn builders_set_fields() {
    let hat = Hat::new("impl", "Implementer")
        .with_instructions("Write code.")
        .publish_topic("impl.done");
    assert_eq!(hat.instructions, "Write code.");
    assert_eq!(hat.publishes[0].as_str(), "impl.done");
    assert!(hat.subscriptions.is_empty());
}
