//! What the engine does, as mathematics: from an agent, a memory, a run and
//! an event to the memory and the run afterwards and what is to be done next.

use crate::agent::{AgentView, Strategy};
use crate::memory::{ContentView, MemoryView, Role};
use crate::protocol::{
    kind_of_error, ActionView, ErrorKind, EventView, HookPoint, OutputView, ReplyContentView,
    ReplyView, RequestView, RunErrorView, StepView, TaskView,
};
use crate::schema::{conforms, first_violation};
use crate::tool::{offered_tools, outcome_content, screening, ToolCallView, ToolSpecView};
use crate::value::{RecordView, SchemaView};
use vstd::prelude::*;

verus! {

/// Where a run stands.
#[derive(Clone, Copy, Debug, PartialEq, Eq, Structural)]
pub enum Phase {
    /// Nothing has happened yet.
    Init,
    /// The backend was asked and has not answered.
    AwaitingModel,
    /// A tool that the backend asked for is being run.
    InvokingTools,
    /// The run is complete.
    Completed,
    /// The run failed, for a reason of this kind.
    Failed(ErrorKind),
    /// Nobody waits for the run any more.
    Cancelled,
}

/// A run as a plain value.
pub struct RunView {
    pub run_id: u64,
    pub task: TaskView,
    pub phase: Phase,
    /// How often the backend was asked.
    pub iterations: nat,
    /// The requests of the backend's last answer, in its order.
    pub calls: Seq<ToolCallView>,
    /// How many of them are dealt with.
    pub resolved: nat,
    /// Which observers failed, and how.
    pub hook_failures: Seq<(HookPoint, Seq<char>)>,
}

/// What an event comes to.
pub struct Outcome {
    pub memory: MemoryView,
    pub run: RunView,
    pub step: StepView,
}

/// Nothing happens.
pub open spec fn idle(memory: MemoryView, run: RunView) -> Outcome {
    Outcome {
        memory,
        run,
        step: StepView { notices: Seq::empty(), chunk: None, action: ActionView::Idle },
    }
}

/// The text of an answer. Requests for tools have none.
pub open spec fn reply_text(content: ReplyContentView) -> Seq<char> {
    match content {
        ReplyContentView::Text(text) => text,
        ReplyContentView::Structured { text, .. } => text,
        ReplyContentView::ToolCalls(_) => Seq::empty(),
    }
}

/// What an answer is in the conversation.
pub open spec fn reply_turn(content: ReplyContentView) -> ContentView {
    match content {
        ReplyContentView::Text(text) => ContentView::Text(text),
        ReplyContentView::Structured { value, .. } => ContentView::Structured(value),
        ReplyContentView::ToolCalls(_) => ContentView::Text(Seq::empty()),
    }
}

/// The structured value of an answer, if it has one that conforms to the
/// schema, where there is a schema.
pub open spec fn conforming_value(schema: Option<SchemaView>, content: ReplyContentView) -> Option<
    RecordView,
> {
    match content {
        ReplyContentView::Structured { value, .. } => match schema {
            Some(schema) => if conforms(schema, value) {
                Some(value)
            } else {
                None
            },
            None => Some(value),
        },
        _ => None,
    }
}

/// Why an answer is not the structured output that is required: that it is
/// no structured value, or the first violation of the schema.
pub open spec fn structured_error(schema: Option<SchemaView>, content: ReplyContentView)
    -> RunErrorView {
    match content {
        ReplyContentView::Structured { value, .. } => match schema {
            Some(schema) => RunErrorView::StructuredOutput {
                violation: first_violation(schema, value),
            },
            None => RunErrorView::StructuredOutput { violation: None },
        },
        _ => RunErrorView::StructuredOutput { violation: None },
    }
}

/// The output that a final answer makes, or the error where structured
/// output is required and the answer has none that conforms.
pub open spec fn final_output(agent: AgentView, content: ReplyContentView) -> Result<
    OutputView,
    RunErrorView,
> {
    let structured = conforming_value(agent.output_schema, content);
    if agent.config.require_structured_output && structured is None {
        Err(structured_error(agent.output_schema, content))
    } else {
        Ok(OutputView { response: reply_text(content), structured, done: true })
    }
}

/// The request that goes to the backend.
pub open spec fn request_of(
    agent: AgentView,
    memory: MemoryView,
    prompt: Option<Seq<char>>,
    tools: Seq<ToolSpecView>,
) -> RequestView {
    RequestView { history: memory.turns, prompt, tools, output_schema: agent.output_schema }
}

/// The run fails.
pub open spec fn fail(
    memory: MemoryView,
    run: RunView,
    notices: Seq<HookPoint>,
    error: RunErrorView,
) -> Outcome {
    Outcome {
        memory,
        run: RunView { phase: Phase::Failed(kind_of_error(error)), ..run },
        step: StepView {
            notices: notices.push(HookPoint::AfterTaskFailure),
            chunk: None,
            action: ActionView::Fail(error),
        },
    }
}

/// The run is about to ask the backend once more: it does, unless it has
/// asked as often as the agent allows, in which case it fails.
pub open spec fn enter_awaiting(
    agent: AgentView,
    memory: MemoryView,
    run: RunView,
    notices: Seq<HookPoint>,
    chunk: Option<OutputView>,
) -> Outcome {
    if run.iterations >= agent.config.max_iterations {
        let failed = fail(
            memory,
            run,
            notices,
            RunErrorView::IterationLimitExceeded { limit: agent.config.max_iterations },
        );
        Outcome { step: StepView { chunk, ..failed.step }, ..failed }
    } else {
        Outcome {
            memory,
            run: RunView { phase: Phase::AwaitingModel, iterations: run.iterations + 1, ..run },
            step: StepView {
                notices: notices.push(HookPoint::BeforeBackendCall),
                chunk,
                action: ActionView::CallBackend(
                    request_of(
                        agent,
                        memory,
                        None,
                        offered_tools(agent.tools, agent.config.tool_choice),
                    ),
                ),
            },
        }
    }
}

/// The requests that are not dealt with yet are taken in their order. One
/// that is refused is answered in the conversation at once and the next is
/// taken; one that passes is to be run. When none is left the backend is
/// asked again.
pub open spec fn resolve_calls(
    agent: AgentView,
    memory: MemoryView,
    run: RunView,
    notices: Seq<HookPoint>,
) -> Outcome
    decreases run.calls.len() - run.resolved,
{
    if run.resolved >= run.calls.len() {
        enter_awaiting(agent, memory, run, notices, None)
    } else {
        let call = run.calls[run.resolved as int];
        let (screened, error) = screening(agent.tools, call, memory);
        if error is None {
            Outcome {
                memory: screened,
                run: RunView { phase: Phase::InvokingTools, ..run },
                step: StepView {
                    notices: notices.push(HookPoint::BeforeToolCall),
                    chunk: None,
                    action: ActionView::InvokeTool(call),
                },
            }
        } else {
            resolve_calls(
                agent,
                screened,
                RunView { resolved: run.resolved + 1, ..run },
                notices.push(HookPoint::BeforeToolCall).push(HookPoint::AfterToolCall),
            )
        }
    }
}

/// The run starts, and its count of requests with it. A direct run asks the
/// backend with the prompt beside the conversation; an iterative run puts
/// the prompt into the conversation as a user turn first.
pub open spec fn on_start(agent: AgentView, memory: MemoryView, run: RunView) -> Outcome {
    if run.phase != Phase::Init {
        idle(memory, run)
    } else {
        match agent.strategy {
            Strategy::Direct => Outcome {
                memory,
                run: RunView { phase: Phase::AwaitingModel, iterations: 1, ..run },
                step: StepView {
                    notices: seq![HookPoint::BeforeTask, HookPoint::BeforeBackendCall],
                    chunk: None,
                    action: ActionView::CallBackend(
                        request_of(agent, memory, Some(run.task.prompt), Seq::empty()),
                    ),
                },
            },
            Strategy::Iterative => enter_awaiting(
                agent,
                memory.append(Role::User, ContentView::Text(run.task.prompt)),
                RunView { iterations: 0, ..run },
                seq![HookPoint::BeforeTask],
                None,
            ),
        }
    }
}

/// The run completes with the output of a final answer, which becomes an
/// assistant turn; or fails, and the conversation stays as it is.
pub open spec fn complete(
    agent: AgentView,
    memory: MemoryView,
    run: RunView,
    notices: Seq<HookPoint>,
    output: Result<OutputView, RunErrorView>,
    content: ReplyContentView,
) -> Outcome {
    match output {
        Ok(output) => Outcome {
            memory: memory.append(Role::Assistant, reply_turn(content)),
            run: RunView { phase: Phase::Completed, ..run },
            step: StepView {
                notices: notices.push(HookPoint::AfterTaskSuccess),
                chunk: None,
                action: ActionView::Finish(output),
            },
        },
        Err(error) => fail(memory, run, notices, error),
    }
}

/// The backend answered an iterative run: with requests for tools, which
/// are taken up; with its final answer, which completes the run; or with
/// something in between, which goes out as a chunk before the backend is
/// asked again.
pub open spec fn on_iterative_reply(
    agent: AgentView,
    memory: MemoryView,
    run: RunView,
    reply: ReplyView,
) -> Outcome {
    let notices = seq![HookPoint::AfterBackendCall];
    match reply.content {
        ReplyContentView::ToolCalls(calls) => if calls.len() > 0 {
            resolve_calls(agent, memory, RunView { calls, resolved: 0, ..run }, notices)
        } else if reply.done {
            complete(agent, memory, run, notices, final_output(agent, reply.content), reply.content)
        } else {
            enter_awaiting(agent, memory, run, notices, None)
        },
        _ => if reply.done {
            complete(agent, memory, run, notices, final_output(agent, reply.content), reply.content)
        } else {
            enter_awaiting(
                agent,
                memory.append(Role::Assistant, reply_turn(reply.content)),
                run,
                notices,
                Some(
                    OutputView {
                        response: reply_text(reply.content),
                        structured: None,
                        done: false,
                    },
                ),
            )
        },
    }
}

/// The backend answered, or failed. A failure ends the run. The answer to a
/// direct run is its output, whatever it is.
pub open spec fn on_reply(
    agent: AgentView,
    memory: MemoryView,
    run: RunView,
    reply: Result<ReplyView, Seq<char>>,
) -> Outcome {
    if run.phase != Phase::AwaitingModel {
        idle(memory, run)
    } else {
        match reply {
            Err(cause) => fail(
                memory,
                run,
                seq![HookPoint::AfterBackendCall],
                RunErrorView::Backend { cause },
            ),
            Ok(reply) => match agent.strategy {
                Strategy::Direct => complete(
                    agent,
                    memory,
                    run,
                    seq![HookPoint::AfterBackendCall],
                    Ok(
                        OutputView {
                            response: reply_text(reply.content),
                            structured: conforming_value(agent.output_schema, reply.content),
                            done: true,
                        },
                    ),
                    reply.content,
                ),
                Strategy::Iterative => on_iterative_reply(agent, memory, run, reply),
            },
        }
    }
}

/// The tool that was being run returned or failed: either way its outcome
/// becomes a tool turn, and the next request is taken.
pub open spec fn on_tool_outcome(
    agent: AgentView,
    memory: MemoryView,
    run: RunView,
    outcome: Result<RecordView, Seq<char>>,
) -> Outcome {
    if run.phase != Phase::InvokingTools || run.resolved >= run.calls.len() {
        idle(memory, run)
    } else {
        resolve_calls(
            agent,
            memory.append(Role::Tool, outcome_content(run.calls[run.resolved as int].name, outcome)),
            RunView { resolved: run.resolved + 1, ..run },
            seq![HookPoint::AfterToolCall],
        )
    }
}

/// Whether a run is over.
pub open spec fn is_over(phase: Phase) -> bool {
    phase is Completed || phase is Failed || phase is Cancelled
}

/// The run is cancelled, unless it is over already.
pub open spec fn on_cancel(memory: MemoryView, run: RunView) -> Outcome {
    if is_over(run.phase) {
        idle(memory, run)
    } else {
        idle(memory, RunView { phase: Phase::Cancelled, ..run })
    }
}

/// What an event comes to.
pub open spec fn step(agent: AgentView, memory: MemoryView, run: RunView, event: EventView)
    -> Outcome {
    match event {
        EventView::Start => on_start(agent, memory, run),
        EventView::Reply(reply) => on_reply(agent, memory, run, reply),
        EventView::ToolOutcome(outcome) => on_tool_outcome(agent, memory, run, outcome),
        EventView::Cancel => on_cancel(memory, run),
    }
}

/// What a succession of events comes to.
pub struct Trace {
    pub memory: MemoryView,
    pub run: RunView,
    pub steps: Seq<StepView>,
}

/// Takes the events one by one, each on what the one before left.
pub open spec fn play(agent: AgentView, memory: MemoryView, run: RunView, events: Seq<EventView>)
    -> Trace
    decreases events.len(),
{
    if events.len() == 0 {
        Trace { memory, run, steps: Seq::empty() }
    } else {
        let first = step(agent, memory, run, events.first());
        let rest = play(agent, first.memory, first.run, events.drop_first());
        Trace { memory: rest.memory, run: rest.run, steps: seq![first.step] + rest.steps }
    }
}

} // verus!
