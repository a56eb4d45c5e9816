//! What holds of every run.

use crate::agent::{AgentView, Strategy};
use crate::memory::{ContentView, MemoryView, Role};
use crate::model::{idle, is_over, play, resolve_calls, step, Phase, RunView};
use crate::protocol::{
    kind_of_error, stream_items, ActionView, ErrorKind, EventView, HookPoint, ItemView,
    ReplyContentView, ReplyView, RunErrorView, StepView,
};
use crate::schema::conforms;
use crate::tool::{
    law_refusal, lookup, outcome_content, refusal, screening, tool_error_text, ToolCallView,
    ToolSpecView,
};
use crate::value::RecordView;
use vstd::prelude::*;

verus! {

/// How many of the steps ask the backend.
pub open spec fn backend_calls(steps: Seq<StepView>) -> nat
    decreases steps.len(),
{
    if steps.len() == 0 {
        0
    } else {
        backend_calls(steps.drop_first()) + if steps.first().action is CallBackend {
            1nat
        } else {
            0nat
        }
    }
}

/// The phases that a run reaches only by asking the backend: it waits for
/// the answer, or completed or failed on it.
pub open spec fn has_asked(phase: Phase) -> bool {
    phase is AwaitingModel || phase is Completed || phase is Failed
}

/// A run as `begin` makes it.
pub open spec fn is_fresh(run: RunView) -> bool {
    run.phase == Phase::Init && run.iterations == 0
}

/// How often an agent asks the backend at most: once if it is direct, as
/// often as it is configured if it is iterative.
pub open spec fn call_limit(agent: AgentView) -> nat {
    match agent.strategy {
        Strategy::Direct => 1,
        Strategy::Iterative => agent.config.max_iterations as nat,
    }
}

/// Every reply of the backend among the events asks for at least one tool.
pub open spec fn always_requests_tools(events: Seq<EventView>) -> bool {
    forall|i: int|
        0 <= i < events.len() ==> match #[trigger] events[i] {
            EventView::Reply(Ok(reply)) => reply.content is ToolCalls
                && reply.content->ToolCalls_0.len() > 0,
            EventView::Reply(Err(_)) => false,
            _ => true,
        }
}

/// What taking up the requests of a reply comes to: a tool that passed is to
/// be run, or the backend is asked once more, or the limit is reached.
proof fn lemma_resolve_calls(
    agent: AgentView,
    memory: MemoryView,
    run: RunView,
    notices: Seq<HookPoint>,
)
    ensures
        ({
            let out = resolve_calls(agent, memory, run, notices);
            &&& out.step.chunk is None
            &&& out.run.run_id == run.run_id && out.run.task == run.task && out.run.hook_failures
                == run.hook_failures
            &&& out.memory.limit == memory.limit
            &&& out.run.calls == run.calls
            &&& out.run.resolved >= run.resolved
            &&& match out.step.action {
                ActionView::InvokeTool(call) => out.run.phase == Phase::InvokingTools
                    && out.run.iterations == run.iterations && refusal(agent.tools, call) is None
                    && out.run.resolved < out.run.calls.len(),
                ActionView::CallBackend(_) => out.run.phase == Phase::AwaitingModel
                    && out.run.iterations == run.iterations + 1 && out.run.iterations
                    <= agent.config.max_iterations,
                ActionView::Fail(error) => out.run.phase == Phase::Failed(
                    ErrorKind::IterationLimitExceeded,
                ) && out.run.iterations == run.iterations && run.iterations
                    >= agent.config.max_iterations && error == (
                RunErrorView::IterationLimitExceeded { limit: agent.config.max_iterations }),
                _ => false,
            }
        }),
    decreases run.calls.len() - run.resolved,
{
    if run.resolved < run.calls.len() {
        let call = run.calls[run.resolved as int];
        let (screened, error) = screening(agent.tools, call, memory);
        if error is Some {
            lemma_resolve_calls(
                agent,
                screened,
                RunView { resolved: run.resolved + 1, ..run },
                notices.push(HookPoint::BeforeToolCall).push(HookPoint::AfterToolCall),
            );
        }
    }
}

/// What holds of one step, whatever the agent, the run and the event: who a
/// run is does not change; the count of requests grows by one exactly when
/// the backend is asked; a tool is run only on a request that passed; a
/// chunk is never final; an output is always final; and a run that fails or
/// completes says so in its phase.
pub proof fn law_step(agent: AgentView, memory: MemoryView, run: RunView, event: EventView)
    requires
        run.phase == Phase::Init ==> run.iterations == 0,
    ensures
        ({
            let out = step(agent, memory, run, event);
            &&& out.run.run_id == run.run_id && out.run.task == run.task && out.run.hook_failures
                == run.hook_failures
            &&& out.memory.limit == memory.limit
            &&& out.run.phase == Phase::Init ==> out.run.iterations == 0
            &&& out.run.iterations == run.iterations + if out.step.action is CallBackend {
                1nat
            } else {
                0nat
            }
            &&& out.step.action matches ActionView::InvokeTool(call) ==> refusal(agent.tools, call)
                is None && out.run.phase == Phase::InvokingTools
            &&& out.step.action is CallBackend ==> out.run.phase == Phase::AwaitingModel
            &&& out.step.action matches ActionView::Finish(output) ==> output.done && out.run.phase
                == Phase::Completed
            &&& out.step.action matches ActionView::Fail(error) ==> out.run.phase == Phase::Failed(
                kind_of_error(error),
            )
            &&& out.step.chunk matches Some(chunk) ==> !chunk.done && agent.strategy
                == Strategy::Iterative
            &&& out.step.action is Idle ==> out.memory == memory && out.step == idle(
                memory,
                run,
            ).step
            &&& !is_over(run.phase) && out.run.phase is Completed ==> out.step.action is Finish
            &&& !is_over(run.phase) && out.run.phase is Failed ==> out.step.action is Fail
            &&& is_over(run.phase) ==> out == idle(memory, run)
        }),
{
    match event {
        EventView::Start => {},
        EventView::Reply(Ok(reply)) => {
            if run.phase == Phase::AwaitingModel && agent.strategy == Strategy::Iterative {
                match reply.content {
                    ReplyContentView::ToolCalls(calls) => {
                        lemma_resolve_calls(
                            agent,
                            memory,
                            RunView { calls, resolved: 0, ..run },
                            seq![HookPoint::AfterBackendCall],
                        );
                    },
                    _ => {},
                }
            }
        },
        EventView::Reply(Err(_)) => {},
        EventView::ToolOutcome(outcome) => {
            if run.phase == Phase::InvokingTools && run.resolved < run.calls.len() {
                lemma_resolve_calls(
                    agent,
                    memory.append(
                        Role::Tool,
                        outcome_content(run.calls[run.resolved as int].name, outcome),
                    ),
                    RunView { resolved: run.resolved + 1, ..run },
                    seq![HookPoint::AfterToolCall],
                );
            }
        },
        EventView::Cancel => {},
    }
}

/// A tool is run only on a request whose tool is registered and whose
/// arguments conform to that tool's schema.
pub proof fn law_tools_run_on_conforming_arguments(
    agent: AgentView,
    memory: MemoryView,
    run: RunView,
    event: EventView,
)
    requires
        run.phase == Phase::Init ==> run.iterations == 0,
    ensures
        step(agent, memory, run, event).step.action matches ActionView::InvokeTool(call) ==> lookup(
            agent.tools,
            call.name,
        ) is Some && conforms(lookup(agent.tools, call.name)->Some_0.input_schema, call.arguments),
{
    law_step(agent, memory, run, event);
    if let ActionView::InvokeTool(call) = step(agent, memory, run, event).step.action {
        law_refusal(agent.tools, call);
    }
}

/// A run that is over stays as it is, and so does the memory, whatever comes:
/// nothing is appended for a reply or an outcome that arrives after the run
/// was cancelled, completed or failed.
pub proof fn law_over_is_inert(
    agent: AgentView,
    memory: MemoryView,
    run: RunView,
    events: Seq<EventView>,
)
    requires
        is_over(run.phase),
    ensures
        ({
            let trace = play(agent, memory, run, events);
            &&& trace.memory == memory
            &&& trace.run == run
            &&& trace.steps.len() == events.len()
            &&& forall|i: int|
                0 <= i < trace.steps.len() ==> #[trigger] trace.steps[i] == idle(memory, run).step
        }),
    decreases events.len(),
{
    if events.len() > 0 {
        let first = step(agent, memory, run, events.first());
        assert(first == idle(memory, run));
        law_over_is_inert(agent, memory, run, events.drop_first());
    }
}

/// Cancelling appends nothing to the memory, and neither does anything that
/// comes after it.
pub proof fn law_cancel_discards(
    agent: AgentView,
    memory: MemoryView,
    run: RunView,
    events: Seq<EventView>,
)
    ensures
        ({
            let cancelled = step(agent, memory, run, EventView::Cancel);
            let trace = play(agent, cancelled.memory, cancelled.run, events);
            &&& is_over(cancelled.run.phase)
            &&& !is_over(run.phase) ==> cancelled.run.phase == Phase::Cancelled
            &&& cancelled.memory == memory
            &&& trace.memory == memory
            &&& backend_calls(trace.steps) == 0
        }),
{
    let cancelled = step(agent, memory, run, EventView::Cancel);
    law_over_is_inert(agent, cancelled.memory, cancelled.run, events);
    lemma_idle_steps_ask_nothing(play(agent, cancelled.memory, cancelled.run, events).steps);
}

proof fn lemma_idle_steps_ask_nothing(steps: Seq<StepView>)
    requires
        forall|i: int| 0 <= i < steps.len() ==> (#[trigger] steps[i]).action is Idle,
    ensures
        backend_calls(steps) == 0,
    decreases steps.len(),
{
    if steps.len() > 0 {
        assert(steps.first().action is Idle);
        assert forall|i: int| 0 <= i < steps.drop_first().len() implies (
        #[trigger] steps.drop_first()[i]).action is Idle by {
            assert(steps.drop_first()[i] == steps[i + 1]);
        }
        lemma_idle_steps_ask_nothing(steps.drop_first());
    }
}

/// The count of requests of a run is the number of times that its steps
/// asked the backend.
pub proof fn law_requests_are_counted(
    agent: AgentView,
    memory: MemoryView,
    run: RunView,
    events: Seq<EventView>,
)
    requires
        run.phase == Phase::Init ==> run.iterations == 0,
    ensures
        ({
            let trace = play(agent, memory, run, events);
            &&& trace.run.iterations == run.iterations + backend_calls(trace.steps)
            &&& trace.run.phase == Phase::Init ==> trace.run.iterations == 0
            &&& trace.steps.len() == events.len()
        }),
    decreases events.len(),
{
    if events.len() > 0 {
        let first = step(agent, memory, run, events.first());
        law_step(agent, memory, run, events.first());
        law_requests_are_counted(agent, first.memory, first.run, events.drop_first());
        let rest = play(agent, first.memory, first.run, events.drop_first());
        let steps = seq![first.step] + rest.steps;
        assert(steps.drop_first() =~= rest.steps);
    }
}

/// Where a direct run can stand.
spec fn direct_phase(run: RunView) -> bool {
    &&& run.phase != Phase::InvokingTools
    &&& run.iterations <= 1
    &&& run.phase == Phase::Init ==> run.iterations == 0
    &&& has_asked(run.phase) ==> run.iterations == 1
}

proof fn lemma_direct(agent: AgentView, memory: MemoryView, run: RunView, events: Seq<EventView>)
    requires
        agent.strategy == Strategy::Direct,
        direct_phase(run),
    ensures
        ({
            let trace = play(agent, memory, run, events);
            &&& direct_phase(trace.run)
            &&& forall|i: int|
                0 <= i < trace.steps.len() ==> (#[trigger] trace.steps[i]).chunk is None
        }),
    decreases events.len(),
{
    if events.len() > 0 {
        let first = step(agent, memory, run, events.first());
        law_step(agent, memory, run, events.first());
        lemma_direct(agent, first.memory, first.run, events.drop_first());
        let rest = play(agent, first.memory, first.run, events.drop_first());
        let steps = seq![first.step] + rest.steps;
        assert forall|i: int| 0 <= i < steps.len() implies (#[trigger] steps[i]).chunk is None by {
            if i > 0 {
                assert(steps[i] == rest.steps[i - 1]);
            }
        }
    }
}

/// An output is always final.
proof fn lemma_outputs_are_final(
    agent: AgentView,
    memory: MemoryView,
    run: RunView,
    events: Seq<EventView>,
)
    requires
        run.phase == Phase::Init ==> run.iterations == 0,
    ensures
        ({
            let trace = play(agent, memory, run, events);
            forall|i: int|
                0 <= i < trace.steps.len() ==> ((#[trigger] trace.steps[i]).action matches ActionView::Finish(
                    output,
                ) ==> output.done)
        }),
    decreases events.len(),
{
    if events.len() > 0 {
        let first = step(agent, memory, run, events.first());
        law_step(agent, memory, run, events.first());
        lemma_outputs_are_final(agent, first.memory, first.run, events.drop_first());
        let rest = play(agent, first.memory, first.run, events.drop_first());
        let steps = seq![first.step] + rest.steps;
        assert forall|i: int| 0 <= i < steps.len() implies ((#[trigger] steps[i]).action matches ActionView::Finish(
            output,
        ) ==> output.done) by {
            if i > 0 {
                assert(steps[i] == rest.steps[i - 1]);
            }
        }
    }
}

/// A direct run asks the backend once, whatever its task and whatever comes
/// back: never twice, and once if it was not cancelled before it started.
/// What it hands out is its output, which is final; it hands out no chunk
/// before.
pub proof fn law_direct_asks_once(
    agent: AgentView,
    memory: MemoryView,
    run: RunView,
    events: Seq<EventView>,
)
    requires
        agent.strategy == Strategy::Direct,
        is_fresh(run),
    ensures
        ({
            let trace = play(agent, memory, run, events);
            &&& backend_calls(trace.steps) <= 1
            &&& has_asked(trace.run.phase) ==> backend_calls(trace.steps) == 1
            &&& forall|i: int|
                0 <= i < trace.steps.len() ==> (#[trigger] trace.steps[i]).chunk is None
            &&& forall|i: int|
                0 <= i < trace.steps.len() ==> ((#[trigger] trace.steps[i]).action matches ActionView::Finish(
                    output,
                ) ==> output.done)
        }),
{
    lemma_direct(agent, memory, run, events);
    law_requests_are_counted(agent, memory, run, events);
    lemma_outputs_are_final(agent, memory, run, events);
}

/// Where an iterative run can stand while the backend only ever asks for
/// tools.
spec fn looping_phase(agent: AgentView, run: RunView) -> bool {
    &&& run.iterations <= agent.config.max_iterations
    &&& run.phase == Phase::Init ==> run.iterations == 0
    &&& match run.phase {
        Phase::Completed => false,
        Phase::Failed(kind) => kind == ErrorKind::IterationLimitExceeded && run.iterations
            == agent.config.max_iterations,
        _ => true,
    }
}

proof fn lemma_looping(agent: AgentView, memory: MemoryView, run: RunView, events: Seq<EventView>)
    requires
        agent.strategy == Strategy::Iterative,
        looping_phase(agent, run),
        always_requests_tools(events),
    ensures
        looping_phase(agent, play(agent, memory, run, events).run),
    decreases events.len(),
{
    if events.len() > 0 {
        let first = step(agent, memory, run, events.first());
        assert(events[0] == events.first());
        law_step(agent, memory, run, events.first());
        match events.first() {
            EventView::Reply(Ok(reply)) => {
                if run.phase == Phase::AwaitingModel {
                    lemma_resolve_calls(
                        agent,
                        memory,
                        RunView { calls: reply.content->ToolCalls_0, resolved: 0, ..run },
                        seq![HookPoint::AfterBackendCall],
                    );
                }
            },
            EventView::ToolOutcome(outcome) => {
                if run.phase == Phase::InvokingTools && run.resolved < run.calls.len() {
                    lemma_resolve_calls(
                        agent,
                        memory.append(
                            Role::Tool,
                            outcome_content(
                                run.calls[run.resolved as int].name,
                                outcome,
                            ),
                        ),
                        RunView { resolved: run.resolved + 1, ..run },
                        seq![HookPoint::AfterToolCall],
                    );
                }
            },
            _ => {},
        }
        assert(looping_phase(agent, first.run));
        assert forall|i: int| 0 <= i < events.drop_first().len() implies match #[trigger] events.drop_first()[i] {
            EventView::Reply(Ok(reply)) => reply.content is ToolCalls
                && reply.content->ToolCalls_0.len() > 0,
            EventView::Reply(Err(_)) => false,
            _ => true,
        } by {
            assert(events.drop_first()[i] == events[i + 1]);
        }
        lemma_looping(agent, first.memory, first.run, events.drop_first());
    }
}

/// An iterative run whose backend only ever asks for tools never completes
/// and never asks the backend more often than the agent allows; and if it
/// fails, it fails because the limit is reached, after exactly as many
/// requests as the agent allows.
pub proof fn law_iteration_limit(
    agent: AgentView,
    memory: MemoryView,
    run: RunView,
    events: Seq<EventView>,
)
    requires
        agent.strategy == Strategy::Iterative,
        agent.config.max_iterations >= 1,
        is_fresh(run),
        always_requests_tools(events),
    ensures
        ({
            let trace = play(agent, memory, run, events);
            &&& backend_calls(trace.steps) <= agent.config.max_iterations
            &&& !(trace.run.phase is Completed)
            &&& trace.run.phase is Failed ==> trace.run.phase == Phase::Failed(
                ErrorKind::IterationLimitExceeded,
            ) && backend_calls(trace.steps) == agent.config.max_iterations
        }),
{
    lemma_looping(agent, memory, run, events);
    law_requests_are_counted(agent, memory, run, events);
}

/// No run asks the backend more often than its agent allows.
pub proof fn law_requests_are_bounded(
    agent: AgentView,
    memory: MemoryView,
    run: RunView,
    events: Seq<EventView>,
)
    requires
        is_fresh(run),
    ensures
        backend_calls(play(agent, memory, run, events).steps) <= call_limit(agent),
{
    law_requests_are_counted(agent, memory, run, events);
    match agent.strategy {
        Strategy::Direct => {
            lemma_direct(agent, memory, run, events);
        },
        Strategy::Iterative => {
            lemma_bounded(agent, memory, run, events);
        },
    }
}

/// Where an iterative run can stand.
spec fn bounded_phase(agent: AgentView, run: RunView) -> bool {
    &&& run.iterations <= agent.config.max_iterations
    &&& run.phase == Phase::Init ==> run.iterations == 0
}

proof fn lemma_bounded(agent: AgentView, memory: MemoryView, run: RunView, events: Seq<EventView>)
    requires
        agent.strategy == Strategy::Iterative,
        bounded_phase(agent, run),
    ensures
        bounded_phase(agent, play(agent, memory, run, events).run),
    decreases events.len(),
{
    if events.len() > 0 {
        let first = step(agent, memory, run, events.first());
        law_step(agent, memory, run, events.first());
        match events.first() {
            EventView::Reply(Ok(reply)) => {
                if run.phase == Phase::AwaitingModel {
                    if let ReplyContentView::ToolCalls(calls) = reply.content {
                        lemma_resolve_calls(
                            agent,
                            memory,
                            RunView { calls, resolved: 0, ..run },
                            seq![HookPoint::AfterBackendCall],
                        );
                    }
                }
            },
            EventView::ToolOutcome(outcome) => {
                if run.phase == Phase::InvokingTools && run.resolved < run.calls.len() {
                    lemma_resolve_calls(
                        agent,
                        memory.append(
                            Role::Tool,
                            outcome_content(
                                run.calls[run.resolved as int].name,
                                outcome,
                            ),
                        ),
                        RunView { resolved: run.resolved + 1, ..run },
                        seq![HookPoint::AfterToolCall],
                    );
                }
            },
            _ => {},
        }
        lemma_bounded(agent, first.memory, first.run, events.drop_first());
    }
}

/// What the observers reported does not bear on what a run does.
pub proof fn law_hook_failures_change_nothing(
    agent: AgentView,
    memory: MemoryView,
    run: RunView,
    event: EventView,
    failures: Seq<(HookPoint, Seq<char>)>,
)
    requires
        run.phase == Phase::Init ==> run.iterations == 0,
    ensures
        ({
            let plain = step(agent, memory, run, event);
            let noted = step(agent, memory, RunView { hook_failures: failures, ..run }, event);
            &&& noted.memory == plain.memory
            &&& noted.step == plain.step
            &&& noted.run == (RunView { hook_failures: failures, ..plain.run })
        }),
{
    match event {
        EventView::Reply(Ok(reply)) => {
            if let ReplyContentView::ToolCalls(calls) = reply.content {
                lemma_resolve_calls_ignores_failures(
                    agent,
                    memory,
                    RunView { calls, resolved: 0, ..run },
                    seq![HookPoint::AfterBackendCall],
                    failures,
                );
            }
        },
        EventView::ToolOutcome(outcome) => {
            if run.resolved < run.calls.len() {
                lemma_resolve_calls_ignores_failures(
                    agent,
                    memory.append(
                        Role::Tool,
                        outcome_content(run.calls[run.resolved as int].name, outcome),
                    ),
                    RunView { resolved: run.resolved + 1, ..run },
                    seq![HookPoint::AfterToolCall],
                    failures,
                );
            }
        },
        _ => {},
    }
}

proof fn lemma_resolve_calls_ignores_failures(
    agent: AgentView,
    memory: MemoryView,
    run: RunView,
    notices: Seq<HookPoint>,
    failures: Seq<(HookPoint, Seq<char>)>,
)
    ensures
        ({
            let plain = resolve_calls(agent, memory, run, notices);
            let noted = resolve_calls(
                agent,
                memory,
                RunView { hook_failures: failures, ..run },
                notices,
            );
            &&& noted.memory == plain.memory
            &&& noted.step == plain.step
            &&& noted.run == (RunView { hook_failures: failures, ..plain.run })
        }),
    decreases run.calls.len() - run.resolved,
{
    if run.resolved < run.calls.len() {
        let call = run.calls[run.resolved as int];
        let (screened, error) = screening(agent.tools, call, memory);
        if error is Some {
            lemma_resolve_calls_ignores_failures(
                agent,
                screened,
                RunView { resolved: run.resolved + 1, ..run },
                notices.push(HookPoint::BeforeToolCall).push(HookPoint::AfterToolCall),
                failures,
            );
        }
    }
}

/// What the steps hand to the consumer of the stream, one after the other.
pub open spec fn stream_of(steps: Seq<StepView>) -> Seq<ItemView>
    decreases steps.len(),
{
    if steps.len() == 0 {
        Seq::empty()
    } else {
        stream_items(steps.first()) + stream_of(steps.drop_first())
    }
}

/// A chunk: an output that is not final.
pub open spec fn is_chunk(item: ItemView) -> bool {
    item matches Ok(output) && !output.done
}

/// What a stream looks like when the run stands at `phase`: chunks, and at
/// the end the output if the run completed, or the error if it failed.
pub open spec fn stream_shape(items: Seq<ItemView>, phase: Phase) -> bool {
    &&& forall|i: int| 0 <= i < items.len() - 1 ==> is_chunk(#[trigger] items[i])
    &&& match phase {
        Phase::Completed => items.len() > 0 && (items.last() matches Ok(output) && output.done),
        Phase::Failed(kind) => items.len() > 0 && (items.last() matches Err(error)
            && kind_of_error(error) == kind),
        _ => items.len() > 0 ==> is_chunk(items.last()),
    }
}

proof fn lemma_stream(agent: AgentView, memory: MemoryView, run: RunView, events: Seq<EventView>)
    requires
        run.phase == Phase::Init ==> run.iterations == 0,
    ensures
        ({
            let trace = play(agent, memory, run, events);
            let items = stream_of(trace.steps);
            &&& is_over(run.phase) ==> items.len() == 0
            &&& !is_over(run.phase) ==> stream_shape(items, trace.run.phase)
            &&& agent.strategy == Strategy::Direct && !is_over(run.phase) ==> items.len() <= 1
            &&& agent.strategy == Strategy::Direct && !is_over(run.phase) && (trace.run.phase
                is Completed || trace.run.phase is Failed) ==> items.len() == 1
        }),
    decreases events.len(),
{
    if events.len() > 0 {
        let first = step(agent, memory, run, events.first());
        law_step(agent, memory, run, events.first());
        lemma_stream(agent, first.memory, first.run, events.drop_first());
        let rest = play(agent, first.memory, first.run, events.drop_first());
        let steps = seq![first.step] + rest.steps;
        assert(steps.drop_first() =~= rest.steps);
        let head = stream_items(first.step);
        let tail = stream_of(rest.steps);
        let items = head + tail;
        assert(stream_of(steps) == items);
        if is_over(run.phase) {
            assert(first == idle(memory, run));
            assert(items =~= Seq::<ItemView>::empty());
        } else if is_over(first.run.phase) {
            law_over_is_inert(agent, first.memory, first.run, events.drop_first());
            assert(items =~= head);
            assert(play(agent, memory, run, events).run == first.run);
            assert(stream_shape(head, first.run.phase));
        } else {
            assert(!(first.step.action is Finish));
            assert(!(first.step.action is Fail));
            assert forall|i: int| 0 <= i < head.len() implies is_chunk(#[trigger] head[i]) by {}
            assert forall|i: int| 0 <= i < items.len() - 1 implies is_chunk(#[trigger] items[i]) by {
                if i >= head.len() {
                    assert(items[i] == tail[i - head.len()]);
                }
            }
            if tail.len() > 0 {
                assert(items.last() == tail.last());
            } else {
                assert(items =~= head);
            }
        }
    }
}

/// What a consumer of the stream of a run gets, from the start of the run
/// on: chunks, none of them final; then, if the run completed, its output,
/// which is final; or, if it failed, the error. Nothing comes after either.
/// A direct run hands out no chunk: its stream is the one output, or the one
/// error.
pub proof fn law_stream_shape(
    agent: AgentView,
    memory: MemoryView,
    run: RunView,
    events: Seq<EventView>,
)
    requires
        is_fresh(run),
    ensures
        ({
            let trace = play(agent, memory, run, events);
            let items = stream_of(trace.steps);
            &&& stream_shape(items, trace.run.phase)
            &&& agent.strategy == Strategy::Direct ==> items.len() <= 1
            &&& agent.strategy == Strategy::Direct && (trace.run.phase is Completed
                || trace.run.phase is Failed) ==> items.len() == 1
        }),
{
    lemma_stream(agent, memory, run, events);
}

/// The requests from `at` on that pass, in their order.
pub open spec fn passing_calls(tools: Seq<ToolSpecView>, calls: Seq<ToolCallView>, at: int) -> Seq<
    ToolCallView,
>
    decreases calls.len() - at,
{
    if at < 0 || at >= calls.len() {
        Seq::empty()
    } else if refusal(tools, calls[at]) is None {
        seq![calls[at]] + passing_calls(tools, calls, at + 1)
    } else {
        passing_calls(tools, calls, at + 1)
    }
}

/// The tool turns that the requests from `at` on come to, in the order of
/// the requests: for one that is refused the text of the error, for one
/// that passes its outcome, the outcomes taken in the order in which they
/// came.
pub open spec fn tool_entries(
    tools: Seq<ToolSpecView>,
    calls: Seq<ToolCallView>,
    at: int,
    outcomes: Seq<Result<RecordView, Seq<char>>>,
) -> Seq<(Role, ContentView)>
    decreases calls.len() - at,
{
    if at < 0 || at >= calls.len() {
        Seq::empty()
    } else {
        match refusal(tools, calls[at]) {
            Some(error) => seq![(Role::Tool, ContentView::Text(tool_error_text(error)))]
                + tool_entries(tools, calls, at + 1, outcomes),
            None => if outcomes.len() == 0 {
                Seq::empty()
            } else {
                seq![(Role::Tool, outcome_content(calls[at].name, outcomes.first()))]
                    + tool_entries(tools, calls, at + 1, outcomes.drop_first())
            },
        }
    }
}

/// The tools that the steps ask to have run, in their order.
pub open spec fn invoked(steps: Seq<StepView>) -> Seq<ToolCallView>
    decreases steps.len(),
{
    if steps.len() == 0 {
        Seq::empty()
    } else {
        (match steps.first().action {
            ActionView::InvokeTool(call) => seq![call],
            _ => Seq::empty(),
        }) + invoked(steps.drop_first())
    }
}

/// The outcomes of tools as the events that bring them.
pub open spec fn outcome_events(outcomes: Seq<Result<RecordView, Seq<char>>>) -> Seq<EventView> {
    outcomes.map_values(|outcome: Result<RecordView, Seq<char>>| EventView::ToolOutcome(outcome))
}

/// What a round of tools comes to: the steps ask for the passing requests in
/// their order and for nothing else, until the last, which asks the backend
/// again, with all the tool turns in the request, or fails at the limit; and
/// the memory has got the tool turns of all the requests, in the order of
/// the requests.
pub open spec fn round_in_order(
    tools: Seq<ToolSpecView>,
    calls: Seq<ToolCallView>,
    at: int,
    outcomes: Seq<Result<RecordView, Seq<char>>>,
    memory: MemoryView,
    after: MemoryView,
    steps: Seq<StepView>,
) -> bool {
    &&& after == memory.append_all(tool_entries(tools, calls, at, outcomes))
    &&& invoked(steps) == passing_calls(tools, calls, at)
    &&& steps.len() == outcomes.len() + 1
    &&& forall|i: int| 0 <= i < steps.len() - 1 ==> (#[trigger] steps[i]).action is InvokeTool
    &&& match steps.last().action {
        ActionView::CallBackend(request) => request.history == after.turns,
        ActionView::Fail(error) => error is IterationLimitExceeded,
        _ => false,
    }
}

proof fn lemma_round(
    agent: AgentView,
    memory: MemoryView,
    run: RunView,
    notices: Seq<HookPoint>,
    outcomes: Seq<Result<RecordView, Seq<char>>>,
)
    requires
        run.resolved <= run.calls.len(),
        outcomes.len() == passing_calls(agent.tools, run.calls, run.resolved as int).len(),
    ensures
        ({
            let first = resolve_calls(agent, memory, run, notices);
            let rest = play(agent, first.memory, first.run, outcome_events(outcomes));
            round_in_order(
                agent.tools,
                run.calls,
                run.resolved as int,
                outcomes,
                memory,
                rest.memory,
                seq![first.step] + rest.steps,
            )
        }),
    decreases run.calls.len() - run.resolved,
{
    let tools = agent.tools;
    let calls = run.calls;
    let at = run.resolved as int;
    let first = resolve_calls(agent, memory, run, notices);
    let rest = play(agent, first.memory, first.run, outcome_events(outcomes));
    let steps = seq![first.step] + rest.steps;
    if at >= calls.len() {
        assert(outcome_events(outcomes) =~= Seq::<EventView>::empty());
        assert(steps =~= seq![first.step]);
        assert(steps.drop_first() =~= Seq::<StepView>::empty());
        assert(invoked(steps.drop_first()) =~= Seq::<ToolCallView>::empty());
        assert(!(steps.first().action is InvokeTool));
        assert(invoked(steps) =~= Seq::<ToolCallView>::empty());
    } else {
        let (screened, error) = screening(tools, calls[at], memory);
        let next = RunView { resolved: run.resolved + 1, ..run };
        if error is Some {
            lemma_round(
                agent,
                screened,
                next,
                notices.push(HookPoint::BeforeToolCall).push(HookPoint::AfterToolCall),
                outcomes,
            );
            let entries = tool_entries(tools, calls, at, outcomes);
            assert(entries.drop_first() =~= tool_entries(tools, calls, at + 1, outcomes));
        } else {
            let events = outcome_events(outcomes);
            assert(outcomes.len() > 0);
            assert(events.first() == EventView::ToolOutcome(outcomes.first()));
            assert(events.drop_first() =~= outcome_events(outcomes.drop_first()));
            let told = memory.append(Role::Tool, outcome_content(calls[at].name, outcomes.first()));
            let waiting = RunView { phase: Phase::InvokingTools, ..run };
            assert(first.run == waiting);
            let second = step(agent, first.memory, first.run, events.first());
            assert(second == resolve_calls(
                agent,
                told,
                RunView { resolved: run.resolved + 1, ..waiting },
                seq![HookPoint::AfterToolCall],
            ));
            lemma_round(
                agent,
                told,
                RunView { resolved: run.resolved + 1, ..waiting },
                seq![HookPoint::AfterToolCall],
                outcomes.drop_first(),
            );
            let tail = play(agent, second.memory, second.run, events.drop_first());
            let later = seq![second.step] + tail.steps;
            assert(rest.steps == later);
            assert(steps.drop_first() =~= later);
            assert(passing_calls(tools, calls, at).drop_first() =~= passing_calls(
                tools,
                calls,
                at + 1,
            ));
            let entries = tool_entries(tools, calls, at, outcomes);
            assert(entries.drop_first() =~= tool_entries(
                tools,
                calls,
                at + 1,
                outcomes.drop_first(),
            ));
            assert forall|i: int| 0 <= i < steps.len() - 1 implies (#[trigger] steps[i]).action is InvokeTool by {
                if i > 0 {
                    assert(steps[i] == later[i - 1]);
                }
            }
            assert(steps.last() == later.last());
        }
    }
}

/// When the backend asks for several tools in one reply, they are run in the
/// order in which it listed them, those that are refused are not run, and
/// the tool turns of all of them stand in the memory in that same order
/// before the backend is asked again: its next request holds them all.
pub proof fn law_tools_in_order(
    agent: AgentView,
    memory: MemoryView,
    run: RunView,
    calls: Seq<ToolCallView>,
    done: bool,
    outcomes: Seq<Result<RecordView, Seq<char>>>,
)
    requires
        agent.strategy == Strategy::Iterative,
        run.phase == Phase::AwaitingModel,
        calls.len() > 0,
        outcomes.len() == passing_calls(agent.tools, calls, 0).len(),
    ensures
        ({
            let reply = EventView::Reply(
                Ok(ReplyView { content: ReplyContentView::ToolCalls(calls), done }),
            );
            let trace = play(agent, memory, run, seq![reply] + outcome_events(outcomes));
            round_in_order(agent.tools, calls, 0, outcomes, memory, trace.memory, trace.steps)
        }),
{
    let reply = EventView::Reply(
        Ok(ReplyView { content: ReplyContentView::ToolCalls(calls), done }),
    );
    let events = seq![reply] + outcome_events(outcomes);
    assert(events.first() == reply);
    assert(events.drop_first() =~= outcome_events(outcomes));
    lemma_round(
        agent,
        memory,
        RunView { calls, resolved: 0, ..run },
        seq![HookPoint::AfterBackendCall],
        outcomes,
    );
}

/// How many requests to the backend a run has left, with one more for a
/// run that has not started.
pub open spec fn remaining_requests(agent: AgentView, run: RunView) -> nat {
    if run.phase is Init {
        agent.config.max_iterations as nat + 1
    } else if is_over(run.phase) || run.iterations >= agent.config.max_iterations {
        0
    } else {
        (agent.config.max_iterations - run.iterations) as nat
    }
}

/// How far a phase is from the end of a run.
pub open spec fn phase_rank(phase: Phase) -> nat {
    match phase {
        Phase::Init => 3,
        Phase::AwaitingModel => 2,
        Phase::InvokingTools => 1,
        _ => 0,
    }
}

/// How many requests for tools a run has before it that it has not dealt
/// with.
pub open spec fn remaining_calls(run: RunView) -> nat {
    if run.phase is InvokingTools && run.resolved <= run.calls.len() {
        (run.calls.len() - run.resolved) as nat
    } else {
        0
    }
}

/// Every event that a run waits for takes it nearer to its end: it leaves
/// fewer requests to the backend, or as many and an earlier phase behind, or
/// the same of both and fewer tools to run. So a run ends, whatever the
/// backend and the tools answer, as long as they answer. An event that the
/// run does not wait for leaves it where it is.
pub proof fn law_progress(agent: AgentView, memory: MemoryView, run: RunView, event: EventView)
    ensures
        ({
            let out = step(agent, memory, run, event);
            ||| out == idle(memory, run)
            ||| decreases_to!(
                remaining_requests(agent, run),
                phase_rank(run.phase),
                remaining_calls(run) =>
                remaining_requests(agent, out.run),
                phase_rank(out.run.phase),
                remaining_calls(out.run)
            )
        }),
{
    match event {
        EventView::Reply(Ok(reply)) => {
            if run.phase == Phase::AwaitingModel && agent.strategy == Strategy::Iterative {
                if let ReplyContentView::ToolCalls(calls) = reply.content {
                    lemma_resolve_calls(
                        agent,
                        memory,
                        RunView { calls, resolved: 0, ..run },
                        seq![HookPoint::AfterBackendCall],
                    );
                }
            }
        },
        EventView::ToolOutcome(outcome) => {
            if run.phase == Phase::InvokingTools && run.resolved < run.calls.len() {
                lemma_resolve_calls(
                    agent,
                    memory.append(
                        Role::Tool,
                        outcome_content(run.calls[run.resolved as int].name, outcome),
                    ),
                    RunView { resolved: run.resolved + 1, ..run },
                    seq![HookPoint::AfterToolCall],
                );
            }
        },
        _ => {},
    }
}

} // verus!
