//! The engine: a run, and what each event does to it.

use crate::agent::{Agent, Strategy};
use crate::memory::{Content, Memory, Role};
use crate::model::{self, Phase, RunView};
use crate::protocol::{
    call_views, output_view, record_view, schema_view, text_view, Action, BackendReply,
    BackendRequest, Event, HookPoint, Output, ReplyContent, RunError, Step, Task,
};
use crate::tool::{tool_views, ToolCall, ToolSpec};
use crate::value::{Record, Schema};
use vstd::prelude::*;

verus! {

/// An observer that failed, and what it said.
#[derive(Debug, PartialEq, Eq)]
pub struct HookFailure {
    pub point: HookPoint,
    pub message: String,
}

/// The failures of a list, as plain values.
pub open spec fn failure_views(failures: Seq<HookFailure>) -> Seq<(HookPoint, Seq<char>)> {
    failures.map_values(|failure: HookFailure| (failure.point, failure.message@))
}

/// One run of an agent on a task.
pub struct Run {
    run_id: u64,
    task: Task,
    phase: Phase,
    iterations: usize,
    calls: Vec<ToolCall>,
    resolved: usize,
    hook_failures: Vec<HookFailure>,
}

impl View for Run {
    type V = RunView;

    closed spec fn view(&self) -> RunView {
        RunView {
            run_id: self.run_id,
            task: self.task@,
            phase: self.phase,
            iterations: self.iterations as nat,
            calls: call_views(self.calls@),
            resolved: self.resolved as nat,
            hook_failures: failure_views(self.hook_failures@),
        }
    }
}

impl Run {
    /// A run that has not started.
    pub fn new(run_id: u64, task: Task) -> (run: Run)
        ensures
            run@ == (RunView {
                run_id,
                task: task@,
                phase: Phase::Init,
                iterations: 0,
                calls: Seq::empty(),
                resolved: 0,
                hook_failures: Seq::empty(),
            }),
    {
        let run = Run {
            run_id,
            task,
            phase: Phase::Init,
            iterations: 0,
            calls: Vec::new(),
            resolved: 0,
            hook_failures: Vec::new(),
        };
        assert(run@.calls =~= Seq::empty());
        assert(run@.hook_failures =~= Seq::empty());
        run
    }

    /// The number under which the handle started this run.
    pub fn run_id(&self) -> (run_id: u64)
        ensures
            run_id == self@.run_id,
    {
        self.run_id
    }

    /// The task of this run.
    pub fn task(&self) -> (task: &Task)
        ensures
            task@ == self@.task,
    {
        &self.task
    }

    /// Where the run stands.
    pub fn phase(&self) -> (phase: Phase)
        ensures
            phase == self@.phase,
    {
        self.phase
    }

    /// Whether the run is over.
    pub fn is_over(&self) -> (over: bool)
        ensures
            over == model::is_over(self@.phase),
    {
        match self.phase {
            Phase::Completed => true,
            Phase::Failed(_) => true,
            Phase::Cancelled => true,
            _ => false,
        }
    }

    /// How often the backend was asked.
    pub fn iterations(&self) -> (iterations: usize)
        ensures
            iterations == self@.iterations,
    {
        self.iterations
    }

    /// The observers that failed so far.
    pub fn hook_failures(&self) -> (failures: &Vec<HookFailure>)
        ensures
            failure_views(failures@) == self@.hook_failures,
    {
        &self.hook_failures
    }

    /// Takes note that an observer failed. The run goes on as if it had not.
    pub fn report_hook_failure(&mut self, point: HookPoint, message: String)
        ensures
            final(self)@ == (RunView {
                hook_failures: old(self)@.hook_failures.push((point, message@)),
                ..old(self)@
            }),
    {
        self.hook_failures.push(HookFailure { point, message });
        assert(self@.hook_failures =~= old(self)@.hook_failures.push((point, message@)));
    }
}

fn copy_schema(schema: &Option<Schema>) -> (copy: Option<Schema>)
    ensures
        schema_view(copy) == schema_view(*schema),
{
    match schema {
        Some(schema) => Some(schema.clone()),
        None => None,
    }
}

fn request(agent: &Agent, memory: &Memory, prompt: Option<String>, tools: Vec<ToolSpec>) -> (out:
    BackendRequest)
    ensures
        out@ == model::request_of(agent@, memory@, text_view(prompt), tool_views(tools@)),
{
    BackendRequest {
        history: memory.snapshot(),
        prompt,
        tools,
        output_schema: copy_schema(&agent.output_schema),
    }
}

fn reply_text(content: &ReplyContent) -> (text: String)
    ensures
        text@ == model::reply_text(content@),
{
    match content {
        ReplyContent::Text(text) => text.clone(),
        ReplyContent::Structured { text, .. } => text.clone(),
        ReplyContent::ToolCalls(_) => String::new(),
    }
}

fn reply_turn(content: &ReplyContent) -> (turn: Content)
    ensures
        turn@ == model::reply_turn(content@),
{
    match content {
        ReplyContent::Text(text) => Content::Text(text.clone()),
        ReplyContent::Structured { value, .. } => Content::Structured(value.clone()),
        ReplyContent::ToolCalls(_) => Content::Text(String::new()),
    }
}

fn conforming_value(schema: &Option<Schema>, content: &ReplyContent) -> (value: Option<Record>)
    ensures
        record_view(value) == model::conforming_value(schema_view(*schema), content@),
{
    match content {
        ReplyContent::Structured { value, .. } => match schema {
            Some(schema) => match schema.check(value) {
                Ok(()) => Some(value.clone()),
                Err(_) => None,
            },
            None => Some(value.clone()),
        },
        _ => None,
    }
}

fn structured_error(schema: &Option<Schema>, content: &ReplyContent) -> (error: RunError)
    ensures
        error@ == model::structured_error(schema_view(*schema), content@),
{
    match content {
        ReplyContent::Structured { value, .. } => match schema {
            Some(schema) => match schema.check(value) {
                Ok(()) => RunError::StructuredOutput { violation: None },
                Err(violation) => RunError::StructuredOutput { violation: Some(violation) },
            },
            None => RunError::StructuredOutput { violation: None },
        },
        _ => RunError::StructuredOutput { violation: None },
    }
}

fn final_output(agent: &Agent, content: &ReplyContent) -> (output: Result<Output, RunError>)
    ensures
        match model::final_output(agent@, content@) {
            Ok(view) => output is Ok && output->Ok_0@ == view,
            Err(view) => output is Err && output->Err_0@ == view,
        },
{
    let structured = conforming_value(&agent.output_schema, content);
    if agent.config.require_structured_output && structured.is_none() {
        Err(structured_error(&agent.output_schema, content))
    } else {
        Ok(Output { response: reply_text(content), structured, done: true })
    }
}

fn notice(point: HookPoint) -> (notices: Vec<HookPoint>)
    ensures
        notices@ == seq![point],
{
    let mut notices: Vec<HookPoint> = Vec::new();
    notices.push(point);
    assert(notices@ =~= seq![point]);
    notices
}

fn fail(memory: &Memory, run: &mut Run, notices: Vec<HookPoint>, error: RunError) -> (step: Step)
    ensures
        ({
            let out = model::fail(memory@, old(run)@, notices@, error@);
            final(run)@ == out.run && step@ == out.step
        }),
{
    let mut notices = notices;
    notices.push(HookPoint::AfterTaskFailure);
    run.phase = Phase::Failed(error.kind());
    Step { notices, chunk: None, action: Action::Fail(error) }
}

fn enter_awaiting(
    agent: &Agent,
    memory: &Memory,
    run: &mut Run,
    notices: Vec<HookPoint>,
    chunk: Option<Output>,
) -> (step: Step)
    ensures
        ({
            let out = model::enter_awaiting(
                agent@,
                memory@,
                old(run)@,
                notices@,
                output_view(chunk),
            );
            final(run)@ == out.run && step@ == out.step
        }),
{
    if run.iterations >= agent.config.max_iterations {
        let failed = fail(
            memory,
            run,
            notices,
            RunError::IterationLimitExceeded { limit: agent.config.max_iterations },
        );
        Step { notices: failed.notices, chunk, action: failed.action }
    } else {
        let mut notices = notices;
        notices.push(HookPoint::BeforeBackendCall);
        run.phase = Phase::AwaitingModel;
        run.iterations = run.iterations + 1;
        let tools = agent.tools.offered(&agent.config.tool_choice);
        Step { notices, chunk, action: Action::CallBackend(request(agent, memory, None, tools)) }
    }
}

fn resolve_calls(agent: &Agent, memory: &mut Memory, run: &mut Run, notices: Vec<HookPoint>) -> (step:
    Step)
    ensures
        ({
            let out = model::resolve_calls(agent@, old(memory)@, old(run)@, notices@);
            final(memory)@ == out.memory && final(run)@ == out.run && step@ == out.step
        }),
{
    let mut told = notices;
    while run.resolved < run.calls.len()
        invariant
            model::resolve_calls(agent@, memory@, run@, told@) == model::resolve_calls(
                agent@,
                old(memory)@,
                old(run)@,
                notices@,
            ),
        decreases run.calls.len() - run.resolved,
    {
        told.push(HookPoint::BeforeToolCall);
        assert(run@.calls[run.resolved as int] == run.calls@[run.resolved as int]@);
        match agent.tools.screen(&run.calls[run.resolved], memory) {
            Ok(()) => {
                run.phase = Phase::InvokingTools;
                let call = run.calls[run.resolved].clone();
                return Step { notices: told, chunk: None, action: Action::InvokeTool(call) };
            },
            Err(_) => {
                told.push(HookPoint::AfterToolCall);
                run.resolved = run.resolved + 1;
            },
        }
    }
    enter_awaiting(agent, memory, run, told, None)
}

fn complete(
    agent: &Agent,
    memory: &mut Memory,
    run: &mut Run,
    notices: Vec<HookPoint>,
    output: Result<Output, RunError>,
    content: &ReplyContent,
) -> (step: Step)
    ensures
        ({
            let out = model::complete(
                agent@,
                old(memory)@,
                old(run)@,
                notices@,
                match output {
                    Ok(output) => Ok(output@),
                    Err(error) => Err(error@),
                },
                content@,
            );
            final(memory)@ == out.memory && final(run)@ == out.run && step@ == out.step
        }),
{
    match output {
        Ok(output) => {
            memory.append(Role::Assistant, reply_turn(content));
            let mut notices = notices;
            notices.push(HookPoint::AfterTaskSuccess);
            run.phase = Phase::Completed;
            Step { notices, chunk: None, action: Action::Finish(output) }
        },
        Err(error) => fail(memory, run, notices, error),
    }
}

fn on_start(agent: &Agent, memory: &mut Memory, run: &mut Run) -> (step: Step)
    ensures
        ({
            let out = model::on_start(agent@, old(memory)@, old(run)@);
            final(memory)@ == out.memory && final(run)@ == out.run && step@ == out.step
        }),
{
    match run.phase {
        Phase::Init => {},
        _ => {
            return idle();
        },
    }
    match agent.strategy {
        Strategy::Direct => {
            let mut notices = notice(HookPoint::BeforeTask);
            notices.push(HookPoint::BeforeBackendCall);
            assert(notices@ =~= seq![HookPoint::BeforeTask, HookPoint::BeforeBackendCall]);
            run.iterations = 1;
            run.phase = Phase::AwaitingModel;
            let prompt = Some(run.task.prompt.clone());
            let tools: Vec<ToolSpec> = Vec::new();
            assert(tool_views(tools@) =~= Seq::empty());
            Step {
                notices,
                chunk: None,
                action: Action::CallBackend(request(agent, memory, prompt, tools)),
            }
        },
        Strategy::Iterative => {
            memory.append(Role::User, Content::Text(run.task.prompt.clone()));
            run.iterations = 0;
            enter_awaiting(agent, memory, run, notice(HookPoint::BeforeTask), None)
        },
    }
}

fn idle() -> (step: Step)
    ensures
        step@.notices == Seq::<HookPoint>::empty(),
        step@.chunk is None,
        step@.action is Idle,
{
    Step { notices: Vec::new(), chunk: None, action: Action::Idle }
}

fn on_reply(agent: &Agent, memory: &mut Memory, run: &mut Run, reply: Result<BackendReply, String>)
    -> (step: Step)
    ensures
        ({
            let out = model::on_reply(
                agent@,
                old(memory)@,
                old(run)@,
                match reply {
                    Ok(reply) => Ok(reply@),
                    Err(cause) => Err(cause@),
                },
            );
            final(memory)@ == out.memory && final(run)@ == out.run && step@ == out.step
        }),
{
    match run.phase {
        Phase::AwaitingModel => {},
        _ => {
            return idle();
        },
    }
    let notices = notice(HookPoint::AfterBackendCall);
    let reply = match reply {
        Ok(reply) => reply,
        Err(cause) => {
            return fail(memory, run, notices, RunError::Backend { cause });
        },
    };
    match agent.strategy {
        Strategy::Direct => {
            let output = Output {
                response: reply_text(&reply.content),
                structured: conforming_value(&agent.output_schema, &reply.content),
                done: true,
            };
            complete(agent, memory, run, notices, Ok(output), &reply.content)
        },
        Strategy::Iterative => {
            let BackendReply { content, done } = reply;
            match content {
                ReplyContent::ToolCalls(calls) => {
                    if calls.len() > 0 {
                        run.calls = calls;
                        run.resolved = 0;
                        resolve_calls(agent, memory, run, notices)
                    } else {
                        let content = ReplyContent::ToolCalls(calls);
                        if done {
                            let output = final_output(agent, &content);
                            complete(agent, memory, run, notices, output, &content)
                        } else {
                            enter_awaiting(agent, memory, run, notices, None)
                        }
                    }
                },
                content => {
                    if done {
                        let output = final_output(agent, &content);
                        complete(agent, memory, run, notices, output, &content)
                    } else {
                        memory.append(Role::Assistant, reply_turn(&content));
                        let chunk = Output {
                            response: reply_text(&content),
                            structured: None,
                            done: false,
                        };
                        enter_awaiting(agent, memory, run, notices, Some(chunk))
                    }
                },
            }
        },
    }
}

fn on_tool_outcome(
    agent: &Agent,
    memory: &mut Memory,
    run: &mut Run,
    outcome: Result<Record, String>,
) -> (step: Step)
    ensures
        ({
            let out = model::on_tool_outcome(
                agent@,
                old(memory)@,
                old(run)@,
                match outcome {
                    Ok(value) => Ok(value@),
                    Err(cause) => Err(cause@),
                },
            );
            final(memory)@ == out.memory && final(run)@ == out.run && step@ == out.step
        }),
{
    match run.phase {
        Phase::InvokingTools => {},
        _ => {
            return idle();
        },
    }
    if run.resolved >= run.calls.len() {
        return idle();
    }
    assert(run@.calls[run.resolved as int] == run.calls@[run.resolved as int]@);
    let _ = agent.tools.settle(&run.calls[run.resolved], outcome, memory);
    run.resolved = run.resolved + 1;
    resolve_calls(agent, memory, run, notice(HookPoint::AfterToolCall))
}

impl Agent {
    /// Takes a run one event further: changes the run and the memory as the
    /// event demands, and says whom to tell, what to hand to a consumer of
    /// the stream, and what to do next. An event that the run does not wait
    /// for changes nothing.
    pub fn advance(&self, memory: &mut Memory, run: &mut Run, event: Event) -> (step: Step)
        ensures
            ({
                let out = model::step(self@, old(memory)@, old(run)@, event@);
                final(memory)@ == out.memory && final(run)@ == out.run && step@ == out.step
            }),
    {
        match event {
            Event::Start => on_start(self, memory, run),
            Event::Reply(reply) => on_reply(self, memory, run, reply),
            Event::ToolOutcome(outcome) => on_tool_outcome(self, memory, run, outcome),
            Event::Cancel => {
                if !run.is_over() {
                    run.phase = Phase::Cancelled;
                }
                idle()
            },
        }
    }
}

} // verus!
