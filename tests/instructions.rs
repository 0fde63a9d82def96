use ralph::{Hat, InstructionBuilder};

#[test]
fn test_single_hat_instructions() {
    let builder = InstructionBuilder::new("LOOP_COMPLETE");
    let instructions = builder.build_single_hat("Implement feature X");

    assert!(instructions.contains("LOOP_COMPLETE"));
    assert!(instructions.contains("Implement feature X"));
    assert!(instructions.contains("AGENT SCRATCHPAD"));
}

#[test]
fn test_multi_hat_instructions() {
    let builder = InstructionBuilder::new("DONE");
    let hat = Hat::new("impl", "Implementer").with_instructions("Write clean, tested code.");

    let instructions = builder.build_multi_hat(&hat, "Event: task.start - Begin work");

    assert!(instructions.contains("Implementer agent"));
    assert!(instructions.contains("Write clean, tested code"));
    assert!(instructions.contains("DONE"));
    assert!(instructions.contains("task.start"));
}

#[test]
fn single_hat_prompt_ends_with_task_prompt() {
    let text = InstructionBuilder::new("FIN").build_single_hat("the task");
    assert!(text.starts_with("ORCHESTRATION CONTEXT:\n"));
    assert!(text.ends_with("output:\nFIN\n\n---\nTASK PROMPT:\nthe task"));
}

#[test]
fn multi_hat_prompt_exact_text() {
    let hat = Hat::new("r", "Checker").publish_topic("review.done").publish_topic("review.fail");
    let text = InstructionBuilder::new("DONE").build_multi_hat(&hat, "[impl.done] ok");
    let expected = "ORCHESTRATION CONTEXT:\nYou are the Checker agent in a multi-agent system.\n\n\
EVENT COMMUNICATION:\nUse <event> tags to communicate with other agents:\n\
<event topic=\"your.topic\">Your message</event>\n\n\
You typically publish to: review.done, review.fail\n\n\
COMPLETION:\nWhen the overall task is complete, output:\nDONE\n\n\
---\nINCOMING EVENTS:\n[impl.done] ok";
    assert_eq!(text, expected);
}

#[test]
fn multi_hat_prompt_omits_empty_role() {
    let hat = Hat::new("r", "Checker");
    let text = InstructionBuilder::new("DONE").build_multi_hat(&hat, "");
    assert!(!text.contains("YOUR ROLE"));
    assert!(!text.contains("You typically publish to"));
    assert!(text.ends_with("INCOMING EVENTS:\n"));
}
