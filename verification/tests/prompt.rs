use ragent::prompt::AgentPrompt;

#[test]
fn new_seeds_default_template() {
    let p = AgentPrompt::new();
    assert!(p.template.contains("Question: {}"));
    assert!(p.template.ends_with("Thought:"));
    assert_eq!(p.question, "");
    assert_eq!(p.rendered, p.template);
}

#[test]
fn set_question_renders_question_then_trailer() {
    let mut p = AgentPrompt::new();
    p.set_question(String::from("What is the capital of France?"));
    assert!(p
        .rendered
        .ends_with("What is the capital of France?\n                    Thought:"));
    assert!(!p.rendered.contains("{}"));
    assert_eq!(p.question, "What is the capital of France?");
}

#[test]
fn set_question_leaves_no_residue() {
    let mut p = AgentPrompt::new();
    p.set_question(String::from("first question"));
    p.set_question(String::from("second question"));
    let mut fresh = AgentPrompt::new();
    fresh.set_question(String::from("second question"));
    assert_eq!(p.rendered, fresh.rendered);
    assert!(!p.rendered.contains("first question"));
}

#[test]
fn set_prompt_replaces_template_verbatim() {
    let mut p = AgentPrompt::new();
    p.set_prompt(String::from("Say hi to {}."));
    assert_eq!(p.rendered, "Say hi to {}.");
    assert_eq!(p.template, "Say hi to {}.");
    p.set_question(String::from("Ada"));
    assert_eq!(p.rendered, "Say hi to Ada.");
}

#[test]
fn set_question_without_placeholder_keeps_template() {
    let mut p = AgentPrompt::new();
    p.set_prompt(String::from("No placeholder here."));
    p.set_question(String::from("ignored"));
    assert_eq!(p.rendered, "No placeholder here.");
}
