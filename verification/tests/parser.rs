use ragent::parser::{parse, render_continue, Step};

#[test]
fn parse_continue_step() {
    let r = parse("Thought: x\nAction: search\nAction Input: cats\n");
    match r {
        Ok(Step::Continue { thought, action, action_input }) => {
            assert_eq!(thought, "x");
            assert_eq!(action, "search");
            assert_eq!(action_input, "cats");
        }
        other => panic!("expected a continue step, got {:?}", other),
    }
}

#[test]
fn parse_final_step() {
    let r = parse("Thought: done\nFinal Answer: 42\n");
    match r {
        Ok(Step::Final { thought, final_answer }) => {
            assert_eq!(thought, "done");
            assert_eq!(final_answer, "42");
        }
        other => panic!("expected a final step, got {:?}", other),
    }
}

#[test]
fn parse_neither_marker_fails() {
    let text = "I have no idea what to do next.";
    let r = parse(text);
    match r {
        Err(e) => assert_eq!(e.raw_text, text),
        other => panic!("expected a parse error, got {:?}", other),
    }
}

#[test]
fn parse_ignores_surrounding_whitespace() {
    let r = parse("Thought:    x  \nAction:   search \nAction Input:   cats  \n");
    match r {
        Ok(Step::Continue { thought, action, action_input }) => {
            assert_eq!(thought, "x");
            assert_eq!(action, "search");
            assert_eq!(action_input, "cats");
        }
        other => panic!("expected a continue step, got {:?}", other),
    }
}

#[test]
fn parse_first_action_pair_wins() {
    let text = "Thought: a\nAction: one\nAction Input: in1\nObservation: r1\nAction: two\nAction Input: in2\n";
    match parse(text) {
        Ok(Step::Continue { thought, action, action_input }) => {
            assert_eq!(thought, "a");
            assert_eq!(action, "one");
            assert_eq!(action_input, "in1");
        }
        other => panic!("expected a continue step, got {:?}", other),
    }
}

#[test]
fn parse_first_final_marker_splits() {
    match parse("Final Answer: first\nFinal Answer: second") {
        Ok(Step::Final { thought, final_answer }) => {
            assert_eq!(thought, "");
            assert_eq!(final_answer, "first\nFinal Answer: second");
        }
        other => panic!("expected a final step, got {:?}", other),
    }
}

#[test]
fn parse_final_takes_precedence_over_action() {
    match parse("Thought: t\nAction: search\nAction Input: q\nFinal Answer: done\n") {
        Ok(Step::Final { final_answer, .. }) => assert_eq!(final_answer, "done"),
        other => panic!("expected a final step, got {:?}", other),
    }
}

#[test]
fn parse_action_without_input_fails() {
    let text = "Thought: t\nAction: search\n";
    match parse(text) {
        Err(e) => assert_eq!(e.raw_text, text),
        other => panic!("expected a parse error, got {:?}", other),
    }
}

#[test]
fn parse_input_runs_to_observation_marker() {
    let text = "Action: calc\nAction Input: 1 +\n2\nObservation: 3\n";
    match parse(text) {
        Ok(Step::Continue { action, action_input, thought }) => {
            assert_eq!(thought, "");
            assert_eq!(action, "calc");
            assert_eq!(action_input, "1 +\n2");
        }
        other => panic!("expected a continue step, got {:?}", other),
    }
}

#[test]
fn parse_empty_text_fails() {
    match parse("") {
        Err(e) => assert_eq!(e.raw_text, ""),
        other => panic!("expected a parse error, got {:?}", other),
    }
}

#[test]
fn parse_final_ignores_surrounding_whitespace() {
    match parse("Thought:  done \nFinal Answer:   42  \n") {
        Ok(Step::Final { thought, final_answer }) => {
            assert_eq!(thought, "done");
            assert_eq!(final_answer, "42");
        }
        other => panic!("expected a final step, got {:?}", other),
    }
}

#[test]
fn render_then_parse_round_trips() {
    let seg = render_continue("x", "search", "cats", "many results");
    assert_eq!(
        seg,
        "Thought: x\nAction: search\nAction Input: cats\nObservation: many results"
    );
    match parse(&seg) {
        Ok(Step::Continue { thought, action, action_input }) => {
            assert_eq!(thought, "x");
            assert_eq!(action, "search");
            assert_eq!(action_input, "cats");
        }
        other => panic!("expected a continue step, got {:?}", other),
    }
}
