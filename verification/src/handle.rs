//! Assembling an agent with a backend and a memory, and the handle through
//! which the assembled agent is run.

use crate::agent::{Agent, AgentView, Strategy};
use crate::engine::Run;
use crate::memory::{Memory, MemoryView};
use crate::model::{self, Phase, RunView};
use crate::protocol::{Event, EventView, Step, StepView, Task};
use crate::tool::ToolRegistry;
use vstd::prelude::*;

verus! {

/// Why an agent cannot be assembled.
#[derive(Clone, Copy, Debug, PartialEq, Eq, Structural)]
pub enum BuildError {
    /// No backend was given.
    MissingBackend,
    /// The agent is iterative and may not ask the backend even once.
    InvalidConfig,
    /// No memory was given.
    MissingMemory,
}

/// What is wrong with an assembly, if anything. The backend is looked for
/// first, then the configuration is examined, then the memory is looked for.
pub open spec fn build_error(agent: AgentView, has_backend: bool, has_memory: bool) -> Option<
    BuildError,
> {
    if !has_backend {
        Some(BuildError::MissingBackend)
    } else if agent.strategy == Strategy::Iterative && agent.config.max_iterations < 1 {
        Some(BuildError::InvalidConfig)
    } else if !has_memory {
        Some(BuildError::MissingMemory)
    } else {
        None
    }
}

/// Collects what a handle is made of. `B` is the handle to the backend,
/// which the engine carries and never looks into.
pub struct AgentBuilder<B> {
    agent: Agent,
    backend: Option<B>,
    memory: Option<Memory>,
}

impl<B> AgentBuilder<B> {
    /// The agent that is being assembled.
    pub closed spec fn given_agent(&self) -> AgentView {
        self.agent@
    }

    /// The backend that was given.
    pub closed spec fn given_backend(&self) -> Option<B> {
        self.backend
    }

    /// The memory that was given.
    pub closed spec fn given_memory(&self) -> Option<MemoryView> {
        match self.memory {
            Some(memory) => Some(memory@),
            None => None,
        }
    }

    /// Starts the assembly of `agent`.
    pub fn new(agent: Agent) -> (builder: Self)
        ensures
            builder.given_agent() == agent@,
            builder.given_backend() is None,
            builder.given_memory() is None,
    {
        AgentBuilder { agent, backend: None, memory: None }
    }

    /// Gives the backend.
    pub fn llm(self, backend: B) -> (builder: Self)
        ensures
            builder.given_agent() == self.given_agent(),
            builder.given_backend() == Some(backend),
            builder.given_memory() == self.given_memory(),
    {
        AgentBuilder { agent: self.agent, backend: Some(backend), memory: self.memory }
    }

    /// Gives the memory.
    pub fn memory(self, memory: Memory) -> (builder: Self)
        ensures
            builder.given_agent() == self.given_agent(),
            builder.given_backend() == self.given_backend(),
            builder.given_memory() == Some(memory@),
    {
        AgentBuilder { agent: self.agent, backend: self.backend, memory: Some(memory) }
    }

    /// Finishes the assembly: a handle, or what is wrong.
    pub fn build(self) -> (out: Result<AgentHandle<B>, BuildError>)
        ensures
            match build_error(
                self.given_agent(),
                self.given_backend() is Some,
                self.given_memory() is Some,
            ) {
                Some(error) => out is Err && out->Err_0 == error,
                None => out is Ok && out->Ok_0.agent_view() == self.given_agent()
                    && out->Ok_0.backend_value() == self.given_backend()->Some_0
                    && out->Ok_0.memory_view() == self.given_memory()->Some_0
                    && out->Ok_0.started() == 0,
            },
    {
        let backend = match self.backend {
            Some(backend) => backend,
            None => {
                return Err(BuildError::MissingBackend);
            },
        };
        match self.agent.strategy {
            Strategy::Iterative => {
                if self.agent.config.max_iterations < 1 {
                    return Err(BuildError::InvalidConfig);
                }
            },
            Strategy::Direct => {},
        }
        let memory = match self.memory {
            Some(memory) => memory,
            None => {
                return Err(BuildError::MissingMemory);
            },
        };
        Ok(AgentHandle { agent: self.agent, backend, memory, started: 0 })
    }
}

/// What one run sees of the handle it runs on.
pub struct Context<'a, B> {
    pub memory: &'a Memory,
    pub tools: &'a ToolRegistry,
    pub backend: &'a B,
    pub run_id: u64,
}

/// An assembled agent. Its agent and its backend stay as they were built;
/// its memory is what the runs on it share.
pub struct AgentHandle<B> {
    agent: Agent,
    backend: B,
    memory: Memory,
    started: u64,
}

impl<B> AgentHandle<B> {
    /// The agent.
    pub closed spec fn agent_view(&self) -> AgentView {
        self.agent@
    }

    /// The backend.
    pub closed spec fn backend_value(&self) -> B {
        self.backend
    }

    /// The memory.
    pub closed spec fn memory_view(&self) -> MemoryView {
        self.memory@
    }

    /// How many runs were begun, as `u64` counts them.
    pub closed spec fn started(&self) -> u64 {
        self.started
    }

    /// The agent.
    pub fn agent(&self) -> (agent: &Agent)
        ensures
            agent@ == self.agent_view(),
    {
        &self.agent
    }

    /// The backend.
    pub fn backend(&self) -> (backend: &B)
        ensures
            *backend == self.backend_value(),
    {
        &self.backend
    }

    /// The memory.
    pub fn memory(&self) -> (memory: &Memory)
        ensures
            memory@ == self.memory_view(),
    {
        &self.memory
    }

    /// What a run sees of this handle.
    pub fn context<'a>(&'a self, run: &Run) -> (context: Context<'a, B>)
        ensures
            context.memory@ == self.memory_view(),
            context.tools@ == self.agent_view().tools,
            *context.backend == self.backend_value(),
            context.run_id == run@.run_id,
    {
        Context {
            memory: &self.memory,
            tools: &self.agent.tools,
            backend: &self.backend,
            run_id: run.run_id(),
        }
    }

    /// Begins a run on `task`. Nothing happens to the memory before the run
    /// is started.
    pub fn begin(&mut self, task: Task) -> (run: Run)
        ensures
            run@ == (RunView {
                run_id: old(self).started(),
                task: task@,
                phase: Phase::Init,
                iterations: 0,
                calls: Seq::empty(),
                resolved: 0,
                hook_failures: Seq::empty(),
            }),
            final(self).started() == old(self).started().wrapping_add(1),
            final(self).agent_view() == old(self).agent_view(),
            final(self).backend_value() == old(self).backend_value(),
            final(self).memory_view() == old(self).memory_view(),
    {
        let run_id = self.started;
        self.started = self.started.wrapping_add(1);
        Run::new(run_id, task)
    }

    /// Takes a run one event further.
    pub fn advance(&mut self, run: &mut Run, event: Event) -> (step: Step)
        ensures
            ({
                let out = model::step(
                    old(self).agent_view(),
                    old(self).memory_view(),
                    old(run)@,
                    event@,
                );
                final(self).memory_view() == out.memory && final(run)@ == out.run && step@
                    == out.step
            }),
            final(self).agent_view() == old(self).agent_view(),
            final(self).backend_value() == old(self).backend_value(),
            final(self).started() == old(self).started(),
    {
        self.agent.advance(&mut self.memory, run, event)
    }

    /// Takes a run through a list of events, in their order, and returns what
    /// each came to.
    pub fn replay(&mut self, run: &mut Run, events: Vec<Event>) -> (steps: Vec<Step>)
        ensures
            ({
                let trace = model::play(
                    old(self).agent_view(),
                    old(self).memory_view(),
                    old(run)@,
                    event_views(events@),
                );
                final(self).memory_view() == trace.memory && final(run)@ == trace.run
                    && step_views(steps@) == trace.steps
            }),
            final(self).agent_view() == old(self).agent_view(),
            final(self).backend_value() == old(self).backend_value(),
            final(self).started() == old(self).started(),
    {
        let ghost agent = self.agent_view();
        let ghost all = event_views(events@);
        let mut events = reversed(events);
        let mut steps: Vec<Step> = Vec::new();
        assert(event_views(events@) =~= all.reverse());
        assert(event_views(events@).reverse() =~= all);
        while events.len() > 0
            invariant
                self.agent_view() == agent,
                self.backend_value() == old(self).backend_value(),
                self.started() == old(self).started(),
                ({
                    let rest = model::play(
                        agent,
                        self.memory_view(),
                        run@,
                        event_views(events@).reverse(),
                    );
                    let whole = model::play(agent, old(self).memory_view(), old(run)@, all);
                    rest.memory == whole.memory && rest.run == whole.run && step_views(steps@)
                        + rest.steps == whole.steps
                }),
            decreases events.len(),
        {
            let ghost before = event_views(events@).reverse();
            let ghost done = step_views(steps@);
            let event = events.pop().unwrap();
            proof {
                assert(before.first() == event@);
                assert(event_views(events@).reverse() =~= before.drop_first());
            }
            let step = self.advance(run, event);
            steps.push(step);
            proof {
                let rest = model::play(agent, self.memory_view(), run@, before.drop_first());
                assert(step_views(steps@) =~= done.push(step@));
                assert(step_views(steps@) + rest.steps =~= done + (seq![step@] + rest.steps));
            }
        }
        proof {
            assert(event_views(events@).reverse() =~= Seq::empty());
            assert(step_views(steps@) + Seq::<StepView>::empty() =~= step_views(steps@));
        }
        steps
    }
}

fn reversed<T>(items: Vec<T>) -> (out: Vec<T>)
    ensures
        out@ == items@.reverse(),
{
    let mut items = items;
    let ghost all = items@;
    let mut out: Vec<T> = Vec::new();
    while items.len() > 0
        invariant
            items@ == all.take(items@.len() as int),
            out@.len() + items@.len() == all.len(),
            forall|i: int| 0 <= i < out@.len() ==> out@[i] == all[all.len() - 1 - i],
        decreases items.len(),
    {
        let item = items.pop().unwrap();
        out.push(item);
        assert(items@ =~= all.take(items@.len() as int));
    }
    assert(out@ =~= all.reverse());
    out
}

/// The events of a list, as plain values.
pub open spec fn event_views(events: Seq<Event>) -> Seq<EventView> {
    events.map_values(|event: Event| event@)
}

/// The steps of a list, as plain values.
pub open spec fn step_views(steps: Seq<Step>) -> Seq<StepView> {
    steps.map_values(|step: Step| step@)
}

} // verus!
