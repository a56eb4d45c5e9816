use autoagents::agent::{Agent, ExecutorConfig, Strategy, DEFAULT_MAX_ITERATIONS};
use autoagents::engine::Run;
use autoagents::handle::{AgentBuilder, AgentHandle};
use autoagents::memory::{Content, Memory, MemoryTurn, Role};
use autoagents::model::Phase;
use autoagents::protocol::{
    Action, BackendReply, BackendRequest, ErrorKind, Event, HookPoint, Output, ReplyContent,
    RunError, Step, Task,
};
use autoagents::schema::Violation;
use autoagents::tool::{ToolCall, ToolChoice, ToolRegistry, ToolSpec};
use autoagents::value::{Field, Kind, Property, Record, Schema, Value};

fn add_tool() -> ToolSpec {
    ToolSpec {
        name: "add".to_string(),
        description: "adds two numbers".to_string(),
        input_schema: Schema {
            properties: vec![
                Property { name: "a".to_string(), kind: Kind::Integer, required: true },
                Property { name: "b".to_string(), kind: Kind::Integer, required: true },
            ],
            closed: true,
        },
    }
}

fn result_schema() -> Schema {
    Schema {
        properties: vec![Property {
            name: "result".to_string(),
            kind: Kind::Text,
            required: true,
        }],
        closed: true,
    }
}

fn agent(strategy: Strategy, max_iterations: usize) -> Agent {
    let mut tools = ToolRegistry::new();
    tools.register(add_tool()).unwrap();
    Agent {
        name: "math_agent".to_string(),
        description: "You are a Math agent".to_string(),
        output_schema: None,
        tools,
        strategy,
        config: ExecutorConfig {
            max_iterations,
            tool_choice: ToolChoice::Auto,
            require_structured_output: false,
        },
    }
}

fn handle(agent: Agent, capacity: usize) -> AgentHandle<&'static str> {
    AgentBuilder::new(agent).llm("backend").memory(Memory::new(capacity)).build().unwrap()
}

fn task(prompt: &str) -> Task {
    Task::new("task-1".to_string(), prompt.to_string())
}

fn text_reply(text: &str, done: bool) -> Event {
    Event::Reply(Ok(BackendReply { content: ReplyContent::Text(text.to_string()), done }))
}

fn add_call(a: i64, b: i64) -> ToolCall {
    ToolCall {
        name: "add".to_string(),
        arguments: Record {
            fields: vec![
                Field { name: "a".to_string(), value: Value::Integer(a) },
                Field { name: "b".to_string(), value: Value::Integer(b) },
            ],
        },
    }
}

fn tool_reply(calls: Vec<ToolCall>) -> Event {
    Event::Reply(Ok(BackendReply { content: ReplyContent::ToolCalls(calls), done: false }))
}

fn sum(value: i64) -> Record {
    Record { fields: vec![Field { name: "sum".to_string(), value: Value::Integer(value) }] }
}

fn contents(turns: &[MemoryTurn]) -> Vec<(Role, Content)> {
    turns.iter().map(|turn| (turn.role, turn.content.clone())).collect()
}

fn text(content: &str) -> Content {
    Content::Text(content.to_string())
}

fn request_of(step: &Step) -> &BackendRequest {
    match &step.action {
        Action::CallBackend(request) => request,
        other => panic!("expected a request to the backend, got {:?}", other),
    }
}

#[derive(Debug, PartialEq)]
enum TestError {
    TestError(String),
}

struct MockAgentImpl {
    should_fail: bool,
}

impl MockAgentImpl {
    fn answer(&self, request: &BackendRequest) -> Result<BackendReply, String> {
        if self.should_fail {
            return Err("Mock execution failed".to_string());
        }
        let prompt = request.prompt.clone().unwrap_or_default();
        Ok(BackendReply {
            content: ReplyContent::Text(format!("Processed: {}", prompt)),
            done: true,
        })
    }

    fn run(
        &self,
        handle: &mut AgentHandle<&'static str>,
        task: Task,
    ) -> Result<Output, TestError> {
        let mut run = handle.begin(task);
        let mut step = handle.advance(&mut run, Event::Start);
        loop {
            step = match step.action {
                Action::CallBackend(request) => {
                    handle.advance(&mut run, Event::Reply(self.answer(&request)))
                }
                Action::InvokeTool(_) => {
                    handle.advance(&mut run, Event::ToolOutcome(Err("no tools".to_string())))
                }
                Action::Finish(output) => return Ok(output),
                Action::Fail(RunError::Backend { cause }) => {
                    return Err(TestError::TestError(cause))
                }
                Action::Fail(other) => panic!("unexpected failure {:?}", other),
                Action::Idle => panic!("the run waits for nothing"),
            };
        }
    }
}

#[test]
fn mock_agent_that_fails_returns_its_error_and_appends_no_turn() {
    let mut handle = handle(agent(Strategy::Direct, 1), 10);
    let mock = MockAgentImpl { should_fail: true };
    let result = mock.run(&mut handle, task("What is 20 + 10?"));
    assert_eq!(result, Err(TestError::TestError("Mock execution failed".to_string())));
    assert!(handle.memory().is_empty());
}

#[test]
fn mock_agent_processes_the_prompt() {
    let mut handle = handle(agent(Strategy::Direct, 1), 10);
    let mock = MockAgentImpl { should_fail: false };
    let result = mock.run(&mut handle, task("What is 20 + 10?"));
    assert_eq!(
        result,
        Ok(Output {
            response: "Processed: What is 20 + 10?".to_string(),
            structured: None,
            done: true,
        })
    );
    assert_eq!(
        contents(&handle.memory().snapshot()),
        vec![(Role::Assistant, text("Processed: What is 20 + 10?"))]
    );
}

#[test]
fn begin_changes_nothing_but_the_count_of_runs() {
    let mut handle = handle(agent(Strategy::Iterative, 3), 10);
    let first = handle.begin(task("a"));
    let second = handle.begin(task("b"));
    assert_eq!(first.run_id(), 0);
    assert_eq!(second.run_id(), 1);
    assert_eq!(first.phase(), Phase::Init);
    assert_eq!(first.iterations(), 0);
    assert!(!first.is_over());
    assert_eq!(first.task().prompt, "a");
    assert!(handle.memory().is_empty());
}

#[test]
fn direct_run_asks_once_with_the_prompt_beside_the_history() {
    let mut handle = handle(agent(Strategy::Direct, 5), 10);
    let mut run = handle.begin(task("What is 20 + 10?"));
    let step = handle.advance(&mut run, Event::Start);
    assert_eq!(step.notices, vec![HookPoint::BeforeTask, HookPoint::BeforeBackendCall]);
    assert_eq!(step.chunk, None);
    let request = request_of(&step);
    assert_eq!(request.prompt, Some("What is 20 + 10?".to_string()));
    assert!(request.history.is_empty());
    assert!(request.tools.is_empty());
    assert_eq!(run.phase(), Phase::AwaitingModel);
    assert_eq!(run.iterations(), 1);
    assert!(handle.memory().is_empty());

    let step = handle.advance(&mut run, text_reply("30", false));
    assert_eq!(step.notices, vec![HookPoint::AfterBackendCall, HookPoint::AfterTaskSuccess]);
    assert_eq!(
        step.action,
        Action::Finish(Output { response: "30".to_string(), structured: None, done: true })
    );
    assert_eq!(run.phase(), Phase::Completed);
    assert_eq!(run.iterations(), 1);
    assert!(run.is_over());
    assert_eq!(contents(&handle.memory().snapshot()), vec![(Role::Assistant, text("30"))]);
}

#[test]
fn direct_run_does_not_ask_again_whatever_comes() {
    let mut handle = handle(agent(Strategy::Direct, 5), 10);
    let mut run = handle.begin(task("hello"));
    let events = vec![
        Event::Start,
        tool_reply(vec![add_call(1, 2)]),
        Event::ToolOutcome(Ok(sum(3))),
        text_reply("again", true),
        Event::Start,
    ];
    let steps = handle.replay(&mut run, events);
    let calls = steps
        .iter()
        .filter(|step| matches!(step.action, Action::CallBackend(_)))
        .count();
    assert_eq!(calls, 1);
    assert_eq!(
        steps[1].action,
        Action::Finish(Output { response: String::new(), structured: None, done: true })
    );
    for step in &steps[2..] {
        assert_eq!(step.action, Action::Idle);
        assert!(step.notices.is_empty());
    }
    assert_eq!(run.iterations(), 1);
    assert_eq!(contents(&handle.memory().snapshot()), vec![(Role::Assistant, text(""))]);
}

#[test]
fn direct_run_surfaces_a_backend_failure() {
    let mut handle = handle(agent(Strategy::Direct, 5), 10);
    let mut run = handle.begin(task("hello"));
    handle.advance(&mut run, Event::Start);
    let step = handle.advance(&mut run, Event::Reply(Err("connection reset".to_string())));
    assert_eq!(step.notices, vec![HookPoint::AfterBackendCall, HookPoint::AfterTaskFailure]);
    let Action::Fail(error) = &step.action else { panic!("expected a failure") };
    assert_eq!(error, &RunError::Backend { cause: "connection reset".to_string() });
    assert_eq!(error.kind(), ErrorKind::Backend);
    assert_eq!(error.cause(), Some("connection reset".to_string()));
    assert_eq!(run.phase(), Phase::Failed(ErrorKind::Backend));
    assert!(handle.memory().is_empty());
}

#[test]
fn direct_run_keeps_a_structured_value_that_conforms() {
    let mut agent = agent(Strategy::Direct, 1);
    agent.output_schema = Some(result_schema());
    let mut handle = handle(agent, 10);
    let mut run = handle.begin(task("hello"));
    let step = handle.advance(&mut run, Event::Start);
    assert_eq!(request_of(&step).output_schema, Some(result_schema()));
    let value = Record {
        fields: vec![Field { name: "result".to_string(), value: Value::Text("30".to_string()) }],
    };
    let reply = BackendReply {
        content: ReplyContent::Structured { text: "{\"result\":\"30\"}".to_string(), value: value.clone() },
        done: true,
    };
    let step = handle.advance(&mut run, Event::Reply(Ok(reply)));
    assert_eq!(
        step.action,
        Action::Finish(Output {
            response: "{\"result\":\"30\"}".to_string(),
            structured: Some(value.clone()),
            done: true,
        })
    );
    assert_eq!(
        contents(&handle.memory().snapshot()),
        vec![(Role::Assistant, Content::Structured(value))]
    );
}

#[test]
fn direct_run_drops_a_structured_value_that_does_not_conform() {
    let mut agent = agent(Strategy::Direct, 1);
    agent.output_schema = Some(result_schema());
    agent.config.require_structured_output = true;
    let mut handle = handle(agent, 10);
    let mut run = handle.begin(task("hello"));
    handle.advance(&mut run, Event::Start);
    let reply = BackendReply {
        content: ReplyContent::Structured { text: "{}".to_string(), value: Record { fields: vec![] } },
        done: true,
    };
    let step = handle.advance(&mut run, Event::Reply(Ok(reply)));
    assert_eq!(
        step.action,
        Action::Finish(Output { response: "{}".to_string(), structured: None, done: true })
    );
}

#[test]
fn iterative_run_seeds_the_memory_with_the_prompt() {
    let mut handle = handle(agent(Strategy::Iterative, 3), 10);
    let mut run = handle.begin(task("What is 20 + 10?"));
    let step = handle.advance(&mut run, Event::Start);
    assert_eq!(step.notices, vec![HookPoint::BeforeTask, HookPoint::BeforeBackendCall]);
    let request = request_of(&step);
    assert_eq!(request.prompt, None);
    assert_eq!(contents(&request.history), vec![(Role::User, text("What is 20 + 10?"))]);
    assert_eq!(request.tools, vec![add_tool()]);
    assert_eq!(run.iterations(), 1);
    assert_eq!(run.phase(), Phase::AwaitingModel);
}

#[test]
fn iterative_run_runs_a_tool_and_completes() {
    let mut handle = handle(agent(Strategy::Iterative, 3), 10);
    let mut run = handle.begin(task("What is 20 + 10?"));
    handle.advance(&mut run, Event::Start);

    let step = handle.advance(&mut run, tool_reply(vec![add_call(20, 10)]));
    assert_eq!(step.notices, vec![HookPoint::AfterBackendCall, HookPoint::BeforeToolCall]);
    assert_eq!(step.action, Action::InvokeTool(add_call(20, 10)));
    assert_eq!(run.phase(), Phase::InvokingTools);

    let step = handle.advance(&mut run, Event::ToolOutcome(Ok(sum(30))));
    assert_eq!(step.notices, vec![HookPoint::AfterToolCall, HookPoint::BeforeBackendCall]);
    let request = request_of(&step);
    assert_eq!(
        contents(&request.history),
        vec![(Role::User, text("What is 20 + 10?")), (Role::Tool, Content::Structured(sum(30)))]
    );
    assert_eq!(run.iterations(), 2);

    let step = handle.advance(&mut run, text_reply("The answer is 30", true));
    assert_eq!(step.notices, vec![HookPoint::AfterBackendCall, HookPoint::AfterTaskSuccess]);
    assert_eq!(
        step.action,
        Action::Finish(Output {
            response: "The answer is 30".to_string(),
            structured: None,
            done: true,
        })
    );
    assert_eq!(run.phase(), Phase::Completed);
    assert_eq!(
        contents(&handle.memory().snapshot()),
        vec![
            (Role::User, text("What is 20 + 10?")),
            (Role::Tool, Content::Structured(sum(30))),
            (Role::Assistant, text("The answer is 30")),
        ]
    );
}

#[test]
fn iterative_run_fails_after_exactly_the_allowed_requests() {
    for limit in 1..5usize {
        let mut handle = handle(agent(Strategy::Iterative, limit), 100);
        let mut run = handle.begin(task("loop"));
        let mut step = handle.advance(&mut run, Event::Start);
        let mut calls = 0;
        let failure = loop {
            step = match step.action {
                Action::CallBackend(_) => {
                    calls += 1;
                    assert!(calls <= limit);
                    handle.advance(&mut run, tool_reply(vec![add_call(1, 2)]))
                }
                Action::InvokeTool(_) => handle.advance(&mut run, Event::ToolOutcome(Ok(sum(3)))),
                Action::Fail(error) => break error,
                other => panic!("unexpected action {:?}", other),
            };
        };
        assert_eq!(failure, RunError::IterationLimitExceeded { limit });
        assert_eq!(failure.kind(), ErrorKind::IterationLimitExceeded);
        assert_eq!(failure.cause(), None);
        assert_eq!(calls, limit);
        assert_eq!(run.iterations(), limit);
        assert_eq!(run.phase(), Phase::Failed(ErrorKind::IterationLimitExceeded));
        assert_eq!(handle.memory().len(), 1 + limit);
    }
}

#[test]
fn tools_are_run_in_the_order_of_the_reply() {
    let mut handle = handle(agent(Strategy::Iterative, 3), 10);
    let mut run = handle.begin(task("two sums"));
    handle.advance(&mut run, Event::Start);
    let step = handle.advance(&mut run, tool_reply(vec![add_call(1, 2), add_call(3, 4)]));
    assert_eq!(step.action, Action::InvokeTool(add_call(1, 2)));
    let step = handle.advance(&mut run, Event::ToolOutcome(Ok(sum(3))));
    assert_eq!(step.notices, vec![HookPoint::AfterToolCall, HookPoint::BeforeToolCall]);
    assert_eq!(step.action, Action::InvokeTool(add_call(3, 4)));
    assert_eq!(run.iterations(), 1);
    let step = handle.advance(&mut run, Event::ToolOutcome(Err("overflow".to_string())));
    assert_eq!(step.notices, vec![HookPoint::AfterToolCall, HookPoint::BeforeBackendCall]);
    assert_eq!(
        contents(&request_of(&step).history),
        vec![
            (Role::User, text("two sums")),
            (Role::Tool, Content::Structured(sum(3))),
            (Role::Tool, text("tool add failed: overflow")),
        ]
    );
    assert_eq!(run.iterations(), 2);
}

#[test]
fn refused_requests_are_answered_and_never_run() {
    let mut handle = handle(agent(Strategy::Iterative, 3), 10);
    let mut run = handle.begin(task("bad"));
    handle.advance(&mut run, Event::Start);
    let bad = ToolCall {
        name: "add".to_string(),
        arguments: Record {
            fields: vec![Field { name: "a".to_string(), value: Value::Text("x".to_string()) }],
        },
    };
    let unknown = ToolCall { name: "div".to_string(), arguments: Record { fields: vec![] } };
    let step = handle.advance(&mut run, tool_reply(vec![bad, unknown, add_call(1, 2)]));
    assert_eq!(
        step.notices,
        vec![
            HookPoint::AfterBackendCall,
            HookPoint::BeforeToolCall,
            HookPoint::AfterToolCall,
            HookPoint::BeforeToolCall,
            HookPoint::AfterToolCall,
            HookPoint::BeforeToolCall,
        ]
    );
    assert_eq!(step.action, Action::InvokeTool(add_call(1, 2)));
    assert_eq!(
        contents(&handle.memory().snapshot()),
        vec![
            (Role::User, text("bad")),
            (Role::Tool, text("invalid arguments for tool add: field a must be integer, not text")),
            (Role::Tool, text("unknown tool div")),
        ]
    );
}

#[test]
fn reply_with_only_refused_requests_goes_back_to_the_backend() {
    let mut handle = handle(agent(Strategy::Iterative, 3), 10);
    let mut run = handle.begin(task("bad"));
    handle.advance(&mut run, Event::Start);
    let unknown = ToolCall { name: "div".to_string(), arguments: Record { fields: vec![] } };
    let step = handle.advance(&mut run, tool_reply(vec![unknown]));
    assert_eq!(
        step.notices,
        vec![
            HookPoint::AfterBackendCall,
            HookPoint::BeforeToolCall,
            HookPoint::AfterToolCall,
            HookPoint::BeforeBackendCall,
        ]
    );
    assert_eq!(
        contents(&request_of(&step).history),
        vec![(Role::User, text("bad")), (Role::Tool, text("unknown tool div"))]
    );
    assert_eq!(run.iterations(), 2);
}

#[test]
fn answer_that_is_not_final_goes_out_as_a_chunk() {
    let mut handle = handle(agent(Strategy::Iterative, 3), 10);
    let mut run = handle.begin(task("think"));
    handle.advance(&mut run, Event::Start);
    let step = handle.advance(&mut run, text_reply("thinking", false));
    assert_eq!(
        step.chunk,
        Some(Output { response: "thinking".to_string(), structured: None, done: false })
    );
    assert_eq!(step.notices, vec![HookPoint::AfterBackendCall, HookPoint::BeforeBackendCall]);
    assert_eq!(
        contents(&request_of(&step).history),
        vec![(Role::User, text("think")), (Role::Assistant, text("thinking"))]
    );
    assert_eq!(
        step.items(),
        vec![Ok(Output { response: "thinking".to_string(), structured: None, done: false })]
    );
    let step = handle.advance(&mut run, text_reply("done", true));
    assert_eq!(step.chunk, None);
    assert_eq!(
        step.items(),
        vec![Ok(Output { response: "done".to_string(), structured: None, done: true })]
    );
}

#[test]
fn chunk_at_the_limit_is_followed_by_the_error() {
    let mut handle = handle(agent(Strategy::Iterative, 1), 10);
    let mut run = handle.begin(task("think"));
    handle.advance(&mut run, Event::Start);
    let step = handle.advance(&mut run, text_reply("thinking", false));
    assert_eq!(
        step.items(),
        vec![
            Ok(Output { response: "thinking".to_string(), structured: None, done: false }),
            Err(RunError::IterationLimitExceeded { limit: 1 }),
        ]
    );
    assert_eq!(step.notices, vec![HookPoint::AfterBackendCall, HookPoint::AfterTaskFailure]);
    assert!(run.is_over());
}

#[test]
fn empty_list_of_requests_asks_for_nothing() {
    let mut handle = handle(agent(Strategy::Iterative, 3), 10);
    let mut run = handle.begin(task("x"));
    handle.advance(&mut run, Event::Start);
    let step = handle.advance(&mut run, tool_reply(vec![]));
    assert_eq!(step.chunk, None);
    assert_eq!(step.notices, vec![HookPoint::AfterBackendCall, HookPoint::BeforeBackendCall]);
    assert_eq!(contents(&handle.memory().snapshot()), vec![(Role::User, text("x"))]);
    let done = Event::Reply(Ok(BackendReply { content: ReplyContent::ToolCalls(vec![]), done: true }));
    let step = handle.advance(&mut run, done);
    assert_eq!(
        step.action,
        Action::Finish(Output { response: String::new(), structured: None, done: true })
    );
}

#[test]
fn required_structured_output_is_validated() {
    let mut agent = agent(Strategy::Iterative, 3);
    agent.output_schema = Some(result_schema());
    agent.config.require_structured_output = true;
    let mut handle = handle(agent, 10);
    let mut run = handle.begin(task("x"));
    handle.advance(&mut run, Event::Start);
    let value = Record {
        fields: vec![Field { name: "result".to_string(), value: Value::Text("30".to_string()) }],
    };
    let reply = BackendReply {
        content: ReplyContent::Structured { text: "raw".to_string(), value: value.clone() },
        done: true,
    };
    let step = handle.advance(&mut run, Event::Reply(Ok(reply)));
    assert_eq!(
        step.action,
        Action::Finish(Output { response: "raw".to_string(), structured: Some(value), done: true })
    );
}

#[test]
fn structured_output_that_does_not_conform_fails_the_run() {
    let mut agent = agent(Strategy::Iterative, 3);
    agent.output_schema = Some(result_schema());
    agent.config.require_structured_output = true;
    let mut handle = handle(agent, 10);
    let mut run = handle.begin(task("x"));
    handle.advance(&mut run, Event::Start);
    let value = Record {
        fields: vec![Field { name: "result".to_string(), value: Value::Integer(30) }],
    };
    let reply = BackendReply {
        content: ReplyContent::Structured { text: "raw".to_string(), value },
        done: true,
    };
    let step = handle.advance(&mut run, Event::Reply(Ok(reply)));
    let expected = RunError::StructuredOutput {
        violation: Some(Violation::Mismatch {
            field: "result".to_string(),
            expected: Kind::Text,
            found: Kind::Integer,
        }),
    };
    assert_eq!(step.action, Action::Fail(expected.clone()));
    assert_eq!(expected.kind(), ErrorKind::StructuredOutput);
    assert_eq!(expected.cause(), Some("field result must be text, not integer".to_string()));
    assert_eq!(step.notices, vec![HookPoint::AfterBackendCall, HookPoint::AfterTaskFailure]);
    assert_eq!(run.phase(), Phase::Failed(ErrorKind::StructuredOutput));
    assert_eq!(contents(&handle.memory().snapshot()), vec![(Role::User, text("x"))]);
    assert_eq!(step.items(), vec![Err(expected)]);
}

#[test]
fn plain_text_is_no_structured_output() {
    let mut agent = agent(Strategy::Iterative, 3);
    agent.config.require_structured_output = true;
    let mut handle = handle(agent, 10);
    let mut run = handle.begin(task("x"));
    handle.advance(&mut run, Event::Start);
    let step = handle.advance(&mut run, text_reply("30", true));
    let expected = RunError::StructuredOutput { violation: None };
    assert_eq!(expected.cause(), None);
    assert_eq!(step.action, Action::Fail(expected));
}

#[test]
fn cancelled_run_discards_what_arrives_later() {
    let mut handle = handle(agent(Strategy::Iterative, 3), 10);
    let mut run = handle.begin(task("stream"));
    handle.advance(&mut run, Event::Start);
    handle.advance(&mut run, text_reply("first chunk", false));
    let before = handle.memory().snapshot();
    let step = handle.advance(&mut run, Event::Cancel);
    assert_eq!(step.action, Action::Idle);
    assert_eq!(run.phase(), Phase::Cancelled);
    assert!(run.is_over());
    let step = handle.advance(&mut run, text_reply("in flight", true));
    assert_eq!(step.action, Action::Idle);
    assert_eq!(step.chunk, None);
    assert!(step.items().is_empty());
    let step = handle.advance(&mut run, Event::ToolOutcome(Ok(sum(1))));
    assert_eq!(step.action, Action::Idle);
    assert_eq!(handle.memory().snapshot(), before);
    assert_eq!(run.phase(), Phase::Cancelled);
}

#[test]
fn cancelling_a_finished_run_changes_nothing() {
    let mut handle = handle(agent(Strategy::Direct, 1), 10);
    let mut run = handle.begin(task("x"));
    handle.advance(&mut run, Event::Start);
    handle.advance(&mut run, text_reply("y", true));
    handle.advance(&mut run, Event::Cancel);
    assert_eq!(run.phase(), Phase::Completed);
}

#[test]
fn events_that_nothing_waits_for_are_ignored() {
    let mut handle = handle(agent(Strategy::Iterative, 3), 10);
    let mut run = handle.begin(task("x"));
    let step = handle.advance(&mut run, text_reply("early", true));
    assert_eq!(step.action, Action::Idle);
    assert_eq!(run.phase(), Phase::Init);
    let step = handle.advance(&mut run, Event::ToolOutcome(Ok(sum(1))));
    assert_eq!(step.action, Action::Idle);
    handle.advance(&mut run, Event::Start);
    let step = handle.advance(&mut run, Event::Start);
    assert_eq!(step.action, Action::Idle);
    assert_eq!(run.iterations(), 1);
    assert_eq!(handle.memory().len(), 1);
}

#[test]
fn hook_failures_are_noted_and_change_nothing() {
    let mut handle = handle(agent(Strategy::Iterative, 3), 10);
    let mut run = handle.begin(task("x"));
    handle.advance(&mut run, Event::Start);
    run.report_hook_failure(HookPoint::BeforeBackendCall, "observer broke".to_string());
    assert_eq!(run.phase(), Phase::AwaitingModel);
    assert_eq!(run.iterations(), 1);
    assert_eq!(run.hook_failures().len(), 1);
    assert_eq!(run.hook_failures()[0].point, HookPoint::BeforeBackendCall);
    assert_eq!(run.hook_failures()[0].message, "observer broke");
    let step = handle.advance(&mut run, text_reply("fine", true));
    assert_eq!(
        step.action,
        Action::Finish(Output { response: "fine".to_string(), structured: None, done: true })
    );
    assert_eq!(run.hook_failures().len(), 1);
}

#[test]
fn replay_is_the_same_as_advancing_event_by_event() {
    let events = || {
        vec![
            Event::Start,
            tool_reply(vec![add_call(1, 2)]),
            Event::ToolOutcome(Ok(sum(3))),
            text_reply("3", true),
        ]
    };
    let mut one = handle(agent(Strategy::Iterative, 3), 10);
    let mut run_one = one.begin(task("x"));
    let replayed = one.replay(&mut run_one, events());

    let mut two = handle(agent(Strategy::Iterative, 3), 10);
    let mut run_two = two.begin(task("x"));
    let stepped: Vec<Step> =
        events().into_iter().map(|event| two.advance(&mut run_two, event)).collect();

    assert_eq!(replayed, stepped);
    assert_eq!(replayed.len(), 4);
    assert_eq!(one.memory().snapshot(), two.memory().snapshot());
    assert_eq!(run_one.phase(), Phase::Completed);
}

#[test]
fn runs_on_one_handle_share_its_memory() {
    let mut handle = handle(agent(Strategy::Iterative, 3), 10);
    let mut first = handle.begin(task("one"));
    let mut second = handle.begin(task("two"));
    handle.advance(&mut first, Event::Start);
    let step = handle.advance(&mut second, Event::Start);
    assert_eq!(
        contents(&request_of(&step).history),
        vec![(Role::User, text("one")), (Role::User, text("two"))]
    );
    let context = handle.context(&second);
    assert_eq!(context.run_id, 1);
    assert_eq!(context.memory.len(), 2);
    assert_eq!(context.tools.len(), 1);
    assert_eq!(*context.backend, "backend");
}

#[test]
fn forced_choice_offers_one_tool() {
    let mut agent = agent(Strategy::Iterative, 3);
    agent.config.tool_choice = ToolChoice::Forced("add".to_string());
    let mut forced = handle(agent, 10);
    let mut run = forced.begin(task("x"));
    let step = forced.advance(&mut run, Event::Start);
    assert_eq!(request_of(&step).tools, vec![add_tool()]);

    let mut agent = self::agent(Strategy::Iterative, 3);
    agent.config.tool_choice = ToolChoice::Disabled;
    let mut disabled = handle(agent, 10);
    let mut run = disabled.begin(task("x"));
    let step = disabled.advance(&mut run, Event::Start);
    assert!(request_of(&step).tools.is_empty());
}

#[test]
fn default_config_allows_ten_requests() {
    let config = ExecutorConfig::default();
    assert_eq!(config.max_iterations, DEFAULT_MAX_ITERATIONS);
    assert_eq!(config.max_iterations, 10);
    assert_eq!(config.tool_choice, ToolChoice::Auto);
    assert!(!config.require_structured_output);
}

#[test]
fn task_carries_its_metadata_in_order() {
    let task = Task::new("id".to_string(), "prompt".to_string())
        .with_metadata("k1".to_string(), "v1".to_string())
        .with_metadata("k2".to_string(), "v2".to_string());
    assert_eq!(task.id, "id");
    assert_eq!(task.prompt, "prompt");
    assert_eq!(
        task.metadata,
        vec![("k1".to_string(), "v1".to_string()), ("k2".to_string(), "v2".to_string())]
    );
}

#[test]
fn new_run_has_not_started() {
    let run = Run::new(7, task("x"));
    assert_eq!(run.run_id(), 7);
    assert_eq!(run.phase(), Phase::Init);
    assert!(run.hook_failures().is_empty());
}
