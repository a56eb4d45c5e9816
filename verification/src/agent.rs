//! The agent: a strategy bound to a name, a description, the schema of its
//! output and the tools it declares.

use crate::protocol::schema_view;
use crate::tool::{ToolChoice, ToolChoiceView, ToolRegistry, ToolSpecView};
use crate::value::{Schema, SchemaView};
use vstd::prelude::*;

verus! {

/// How a task becomes an output.
#[derive(Clone, Copy, Debug, PartialEq, Eq, Structural)]
pub enum Strategy {
    /// One request to the backend, whose answer is the output.
    Direct,
    /// Requests to the backend, with the tools it asks for run in between,
    /// until it declares the task complete.
    Iterative,
}

/// How often the backend is asked unless the agent says otherwise.
pub const DEFAULT_MAX_ITERATIONS: usize = 10;

/// What governs a run of an agent.
#[derive(Debug, PartialEq, Eq)]
pub struct ExecutorConfig {
    /// How often the backend may be asked in one run.
    pub max_iterations: usize,
    /// Which tools are put before the backend.
    pub tool_choice: ToolChoice,
    /// Whether the final answer must be a structured value.
    pub require_structured_output: bool,
}

/// A configuration as a plain value.
pub struct ConfigView {
    pub max_iterations: usize,
    pub tool_choice: ToolChoiceView,
    pub require_structured_output: bool,
}

impl View for ExecutorConfig {
    type V = ConfigView;

    open spec fn view(&self) -> ConfigView {
        ConfigView {
            max_iterations: self.max_iterations,
            tool_choice: self.tool_choice@,
            require_structured_output: self.require_structured_output,
        }
    }
}

impl Default for ExecutorConfig {
    fn default() -> (config: Self)
        ensures
            config@ == (ConfigView {
                max_iterations: DEFAULT_MAX_ITERATIONS,
                tool_choice: ToolChoiceView::Auto,
                require_structured_output: false,
            }),
    {
        ExecutorConfig {
            max_iterations: DEFAULT_MAX_ITERATIONS,
            tool_choice: ToolChoice::Auto,
            require_structured_output: false,
        }
    }
}

impl Clone for ExecutorConfig {
    fn clone(&self) -> (copy: Self)
        ensures
            copy == *self,
    {
        ExecutorConfig {
            max_iterations: self.max_iterations,
            tool_choice: self.tool_choice.clone(),
            require_structured_output: self.require_structured_output,
        }
    }
}

/// An agent. None of this changes once a handle is built on it.
pub struct Agent {
    pub name: String,
    pub description: String,
    pub output_schema: Option<Schema>,
    pub tools: ToolRegistry,
    pub strategy: Strategy,
    pub config: ExecutorConfig,
}

/// An agent as a plain value.
pub struct AgentView {
    pub name: Seq<char>,
    pub description: Seq<char>,
    pub output_schema: Option<SchemaView>,
    pub tools: Seq<ToolSpecView>,
    pub strategy: Strategy,
    pub config: ConfigView,
}

impl View for Agent {
    type V = AgentView;

    open spec fn view(&self) -> AgentView {
        AgentView {
            name: self.name@,
            description: self.description@,
            output_schema: schema_view(self.output_schema),
            tools: self.tools@,
            strategy: self.strategy,
            config: self.config@,
        }
    }
}

} // verus!
