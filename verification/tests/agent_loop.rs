use ragent::agent::{AgentError, AgentLoop, Limits, LoopStatus};
use ragent::client::UpstreamError;
use ragent::tools::{Tool, ToolRegistry, UnknownToolError};

struct EchoTool;

impl Tool for EchoTool {
    fn invoke(&self, input: &str) -> Result<String, String> {
        Ok(format!("echo: {}", input))
    }
}

struct FailTool;

struct ConstTool(&'static str);

impl Tool for ConstTool {
    fn invoke(&self, _input: &str) -> Result<String, String> {
        Ok(String::from(self.0))
    }
}

impl Tool for FailTool {
    fn invoke(&self, _input: &str) -> Result<String, String> {
        Err(String::from("boom"))
    }
}

fn limits(max_iterations: u64) -> Limits {
    Limits { max_iterations, max_parse_retries: 2, max_transport_retries: 2 }
}

fn echo_registry() -> ToolRegistry<EchoTool> {
    let mut registry = ToolRegistry::new();
    registry.register(String::from("search"), EchoTool);
    registry
}

const CONTINUE_TEXT: &str = "Thought: t\nAction: search\nAction Input: q\n";

#[test]
fn iteration_limit_stops_after_exactly_three_dispatches() {
    let mut agent = AgentLoop::new(String::from("q?"), echo_registry(), limits(3));
    for k in 0..3u64 {
        agent.on_completion(CONTINUE_TEXT);
        assert!(matches!(agent.status, LoopStatus::Running));
        assert_eq!(agent.iterations, k + 1);
        assert_eq!(agent.transcript.len() as u64, k + 1);
    }
    // the fourth continue step is never dispatched
    agent.on_completion(CONTINUE_TEXT);
    assert!(matches!(
        agent.status,
        LoopStatus::Failed { error: AgentError::IterationLimitExceeded }
    ));
    assert_eq!(agent.iterations, 3);
    assert_eq!(agent.transcript.len(), 3);
}

#[test]
fn dispatch_appends_rendered_segment() {
    let mut agent = AgentLoop::new(String::from("q?"), echo_registry(), limits(3));
    agent.on_completion(CONTINUE_TEXT);
    assert_eq!(
        agent.transcript[0],
        "Thought: t\nAction: search\nAction Input: q\nObservation: echo: q"
    );
}

#[test]
fn unknown_tool_becomes_observation_and_run_continues() {
    let registry: ToolRegistry<EchoTool> = ToolRegistry::new();
    let mut agent = AgentLoop::new(String::from("q?"), registry, limits(3));
    agent.on_completion(CONTINUE_TEXT);
    assert!(matches!(agent.status, LoopStatus::Running));
    assert_eq!(agent.transcript.len(), 1);
    assert!(agent.transcript[0]
        .ends_with("Observation: Error: no tool is registered under the name search"));
    assert_eq!(agent.iterations, 1);
}

#[test]
fn tool_failure_becomes_observation() {
    let mut registry = ToolRegistry::new();
    registry.register(String::from("search"), FailTool);
    let mut agent = AgentLoop::new(String::from("q?"), registry, limits(3));
    agent.on_completion(CONTINUE_TEXT);
    assert!(matches!(agent.status, LoopStatus::Running));
    assert!(agent.transcript[0].ends_with("Observation: Error: boom"));
}

#[test]
fn final_answer_terminates_the_run() {
    let mut agent = AgentLoop::new(String::from("q?"), echo_registry(), limits(3));
    agent.on_completion("Thought: done\nFinal Answer: 42\n");
    match &agent.status {
        LoopStatus::Done { thought, final_answer } => {
            assert_eq!(thought, "done");
            assert_eq!(final_answer, "42");
        }
        other => panic!("expected the run to be done, got {:?}", other),
    }
    assert_eq!(agent.transcript.len(), 0);
}

#[test]
fn unparsable_output_is_retried_then_fatal() {
    let mut agent = AgentLoop::new(
        String::from("q?"),
        echo_registry(),
        Limits { max_iterations: 3, max_parse_retries: 1, max_transport_retries: 2 },
    );
    agent.on_completion("gibberish");
    assert!(matches!(agent.status, LoopStatus::Running));
    assert_eq!(agent.parse_failures, 1);
    assert_eq!(agent.transcript.len(), 1);
    assert!(agent.transcript[0].starts_with("Observation: the last reply could not be parsed"));
    agent.on_completion("more gibberish");
    match &agent.status {
        LoopStatus::Failed { error: AgentError::UnparsableOutput { raw_text } } => {
            assert_eq!(raw_text, "more gibberish");
        }
        other => panic!("expected unparsable-output failure, got {:?}", other),
    }
    assert_eq!(agent.transcript.len(), 1);
}

#[test]
fn transport_failures_are_retried_then_fatal() {
    let mut agent = AgentLoop::new(
        String::from("q?"),
        echo_registry(),
        Limits { max_iterations: 3, max_parse_retries: 2, max_transport_retries: 1 },
    );
    let retry = agent.on_upstream_failure(UpstreamError::Transport {
        message: String::from("timeout"),
    });
    assert!(retry);
    assert!(matches!(agent.status, LoopStatus::Running));
    let retry = agent.on_upstream_failure(UpstreamError::Api {
        status: 500,
        body: String::from("oops"),
    });
    assert!(!retry);
    match &agent.status {
        LoopStatus::Failed { error: AgentError::Upstream { error: UpstreamError::Api { status, .. } } } => {
            assert_eq!(*status, 500);
        }
        other => panic!("expected an upstream failure, got {:?}", other),
    }
}

#[test]
fn decode_failure_is_never_retried() {
    let mut agent = AgentLoop::new(String::from("q?"), echo_registry(), limits(3));
    let retry = agent.on_upstream_failure(UpstreamError::Decode {
        message: String::from("bad json"),
    });
    assert!(!retry);
    assert!(matches!(
        agent.status,
        LoopStatus::Failed { error: AgentError::Upstream { error: UpstreamError::Decode { .. } } }
    ));
}

#[test]
fn cancellation_fails_the_run() {
    let mut agent = AgentLoop::new(String::from("q?"), echo_registry(), limits(3));
    agent.cancel();
    assert!(matches!(
        agent.status,
        LoopStatus::Failed { error: AgentError::Cancelled }
    ));
}

#[test]
fn next_prompt_embeds_question_and_transcript() {
    let mut agent = AgentLoop::new(String::from("What is 2+2?"), echo_registry(), limits(3));
    let base = agent.next_prompt();
    assert!(base.contains("Question: What is 2+2?"));
    assert!(base.ends_with("Thought:"));
    agent.on_completion(CONTINUE_TEXT);
    let grown = agent.next_prompt();
    assert_eq!(
        grown,
        format!(
            "{}\nThought: t\nAction: search\nAction Input: q\nObservation: echo: q",
            base
        )
    );
}

#[test]
fn dispatch_reports_unknown_tool_name() {
    let registry = echo_registry();
    match registry.dispatch("calculator", "1+1") {
        Err(UnknownToolError { name }) => assert_eq!(name, "calculator"),
        Ok(_) => panic!("an unregistered name must not dispatch"),
    }
}

#[test]
fn dispatch_runs_the_tool() {
    let registry = echo_registry();
    match registry.dispatch("search", "cats") {
        Ok(obs) => assert_eq!(obs, "echo: cats"),
        Err(_) => panic!("a registered tool must dispatch"),
    }
}

#[test]
fn first_registered_tool_wins() {
    let mut registry = ToolRegistry::new();
    registry.register(String::from("t"), ConstTool("one"));
    registry.register(String::from("t"), ConstTool("two"));
    match registry.dispatch("t", "") {
        Ok(obs) => assert_eq!(obs, "one"),
        Err(_) => panic!("a registered tool must dispatch"),
    }
}
