use ralph::EventParser;

#[test]
fn test_parse_single_event() {
    let output = r#"
Some preamble text.
<event topic="impl.done">
Implemented the authentication module.
</event>
Some trailing text.
"#;
    let parser = EventParser::new();
    let events = parser.parse(output);

    assert_eq!(events.len(), 1);
    assert_eq!(events[0].topic.as_str(), "impl.done");
    assert!(events[0].payload.contains("authentication module"));
}

#[test]
fn test_parse_event_with_target() {
    let output = r#"<event topic="handoff" target="checker">Please review</event>"#;
    let parser = EventParser::new();
    let events = parser.parse(output);

    assert_eq!(events.len(), 1);
    assert_eq!(events[0].target.as_ref().unwrap().as_str(), "checker");
}

#[test]
fn test_parse_multiple_events() {
    let output = r#"
<event topic="impl.started">Starting work</event>
Working on implementation...
<event topic="impl.done">Finished</event>
"#;
    let parser = EventParser::new();
    let events = parser.parse(output);

    assert_eq!(events.len(), 2);
    assert_eq!(events[0].topic.as_str(), "impl.started");
    assert_eq!(events[1].topic.as_str(), "impl.done");
}

#[test]
fn test_parse_with_source() {
    let output = r#"<event topic="impl.done">Done</event>"#;
    let parser = EventParser::new().with_source("implementer");
    let events = parser.parse(output);

    assert_eq!(events[0].source.as_ref().unwrap().as_str(), "implementer");
}

#[test]
fn test_no_events() {
    let output = "Just regular output with no events.";
    let parser = EventParser::new();
    let events = parser.parse(output);

    assert!(events.is_empty());
}

#[test]
fn test_contains_promise() {
    assert!(EventParser::contains_promise("LOOP_COMPLETE", "LOOP_COMPLETE"));
    assert!(EventParser::contains_promise("prefix LOOP_COMPLETE suffix", "LOOP_COMPLETE"));
    assert!(!EventParser::contains_promise("No promise here", "LOOP_COMPLETE"));
}

#[test]
fn parse_trims_payload_exactly() {
    let events = EventParser::new().parse("<event topic=\"a.b\">\n\t  hello world \n</event>");
    assert_eq!(events.len(), 1);
    assert_eq!(events[0].payload, "hello world");
    assert!(events[0].source.is_none());
    assert!(events[0].target.is_none());
}

#[test]
fn parse_round_trip_of_rendered_tag() {
    let rendered = "<event topic=\"build.done\" target=\"checker\">  all green  </event>";
    let events = EventParser::new().with_source("builder").parse(rendered);
    assert_eq!(events.len(), 1);
    assert_eq!(events[0].topic.as_str(), "build.done");
    assert_eq!(events[0].target.as_ref().unwrap().as_str(), "checker");
    assert_eq!(events[0].source.as_ref().unwrap().as_str(), "builder");
    assert_eq!(events[0].payload, "all green");
}

#[test]
fn parse_skips_tag_without_closing_angle() {
    let events = EventParser::new().parse("<event topic=\"x\" and no end");
    assert!(events.is_empty());
}

#[test]
fn parse_skips_tag_without_topic_and_resumes() {
    let output = "<event target=\"a\">lost</event><event topic=\"kept\">yes</event>";
    let events = EventParser::new().parse(output);
    assert_eq!(events.len(), 1);
    assert_eq!(events[0].topic.as_str(), "kept");
    assert_eq!(events[0].payload, "yes");
}

#[test]
fn parse_skips_tag_without_closer() {
    let events = EventParser::new().parse("<event topic=\"open\">never closed");
    assert!(events.is_empty());
}

#[test]
fn parse_truncates_payload_at_first_closer() {
    let events = EventParser::new().parse("<event topic=\"t\">a</event>b</event>");
    assert_eq!(events.len(), 1);
    assert_eq!(events[0].payload, "a");
}

#[test]
fn parse_empty_output_yields_nothing() {
    assert!(EventParser::new().parse("").is_empty());
}

#[test]
fn empty_promise_is_always_contained() {
    assert!(EventParser::contains_promise("", ""));
    assert!(!EventParser::contains_promise("", "LOOP_COMPLETE"));
}
