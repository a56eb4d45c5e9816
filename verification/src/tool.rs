//! Tools: what the model may ask to have run, the registry that knows them,
//! and the protocol by which a request is screened and its outcome recorded.

use crate::memory::{Content, ContentView, Memory, MemoryView, Role, TurnView};
use crate::schema::{
    conforms, first_violation, lemma_first_violation, violation_text, Violation, ViolationView,
};
use crate::search::{lemma_next_index_of, next_index_of};
use crate::value::{Record, RecordView, Schema, SchemaView};
use vstd::prelude::*;
use vstd::string::*;

verus! {

/// A tool as it is registered. What runs it is held by the caller, under the
/// same name.
#[derive(Debug, PartialEq, Eq)]
pub struct ToolSpec {
    pub name: String,
    pub description: String,
    pub input_schema: Schema,
}

/// A tool as a plain value.
pub struct ToolSpecView {
    pub name: Seq<char>,
    pub description: Seq<char>,
    pub input_schema: SchemaView,
}

impl View for ToolSpec {
    type V = ToolSpecView;

    open spec fn view(&self) -> ToolSpecView {
        ToolSpecView {
            name: self.name@,
            description: self.description@,
            input_schema: self.input_schema@,
        }
    }
}

impl Clone for ToolSpec {
    fn clone(&self) -> (copy: Self)
        ensures
            copy@ == self@,
    {
        ToolSpec {
            name: self.name.clone(),
            description: self.description.clone(),
            input_schema: self.input_schema.clone(),
        }
    }
}

/// A request of the model to run a tool.
#[derive(Debug, PartialEq, Eq)]
pub struct ToolCall {
    pub name: String,
    pub arguments: Record,
}

/// A request for a tool as a plain value.
pub struct ToolCallView {
    pub name: Seq<char>,
    pub arguments: RecordView,
}

impl View for ToolCall {
    type V = ToolCallView;

    open spec fn view(&self) -> ToolCallView {
        ToolCallView { name: self.name@, arguments: self.arguments@ }
    }
}

impl Clone for ToolCall {
    fn clone(&self) -> (copy: Self)
        ensures
            copy@ == self@,
    {
        ToolCall { name: self.name.clone(), arguments: self.arguments.clone() }
    }
}

/// What can go wrong with a tool.
#[derive(Debug, PartialEq, Eq)]
pub enum ToolError {
    /// A tool of this name is registered already.
    Duplicate { tool: String },
    /// No tool of this name is registered.
    Unknown { tool: String },
    /// The arguments do not conform to the tool's schema.
    Argument { tool: String, violation: Violation },
    /// The tool ran and failed.
    Execution { tool: String, cause: String },
}

/// A tool error as a plain value.
pub enum ToolErrorView {
    Duplicate { tool: Seq<char> },
    Unknown { tool: Seq<char> },
    Argument { tool: Seq<char>, violation: ViolationView },
    Execution { tool: Seq<char>, cause: Seq<char> },
}

impl View for ToolError {
    type V = ToolErrorView;

    open spec fn view(&self) -> ToolErrorView {
        match self {
            ToolError::Duplicate { tool } => ToolErrorView::Duplicate { tool: tool@ },
            ToolError::Unknown { tool } => ToolErrorView::Unknown { tool: tool@ },
            ToolError::Argument { tool, violation } => ToolErrorView::Argument {
                tool: tool@,
                violation: violation@,
            },
            ToolError::Execution { tool, cause } => ToolErrorView::Execution {
                tool: tool@,
                cause: cause@,
            },
        }
    }
}

/// The text of a tool error, as it is put before the model.
pub open spec fn tool_error_text(error: ToolErrorView) -> Seq<char> {
    match error {
        ToolErrorView::Duplicate { tool } => "tool "@ + tool + " is already registered"@,
        ToolErrorView::Unknown { tool } => "unknown tool "@ + tool,
        ToolErrorView::Argument { tool, violation } => "invalid arguments for tool "@ + tool + ": "@
            + violation_text(violation),
        ToolErrorView::Execution { tool, cause } => "tool "@ + tool + " failed: "@ + cause,
    }
}

impl ToolError {
    /// The text of this error.
    pub fn message(&self) -> (text: String)
        ensures
            text@ == tool_error_text(self@),
    {
        match self {
            ToolError::Duplicate { tool } => {
                let mut text = String::from_str("tool ");
                text.append(tool.as_str());
                text.append(" is already registered");
                text
            },
            ToolError::Unknown { tool } => {
                let mut text = String::from_str("unknown tool ");
                text.append(tool.as_str());
                text
            },
            ToolError::Argument { tool, violation } => {
                let mut text = String::from_str("invalid arguments for tool ");
                text.append(tool.as_str());
                text.append(": ");
                text.append(violation.message().as_str());
                text
            },
            ToolError::Execution { tool, cause } => {
                let mut text = String::from_str("tool ");
                text.append(tool.as_str());
                text.append(" failed: ");
                text.append(cause.as_str());
                text
            },
        }
    }
}

/// Which tools are put before the model.
#[derive(Debug, PartialEq, Eq)]
pub enum ToolChoice {
    /// All that are registered.
    Auto,
    /// None.
    Disabled,
    /// The one of this name, if it is registered.
    Forced(String),
}

/// A choice of tools as a plain value.
pub enum ToolChoiceView {
    Auto,
    Disabled,
    Forced(Seq<char>),
}

impl View for ToolChoice {
    type V = ToolChoiceView;

    open spec fn view(&self) -> ToolChoiceView {
        match self {
            ToolChoice::Auto => ToolChoiceView::Auto,
            ToolChoice::Disabled => ToolChoiceView::Disabled,
            ToolChoice::Forced(name) => ToolChoiceView::Forced(name@),
        }
    }
}

impl Clone for ToolChoice {
    fn clone(&self) -> (copy: Self)
        ensures
            copy == *self,
    {
        match self {
            ToolChoice::Auto => ToolChoice::Auto,
            ToolChoice::Disabled => ToolChoice::Disabled,
            ToolChoice::Forced(name) => ToolChoice::Forced(name.clone()),
        }
    }
}

/// The tools of a list, as plain values.
pub open spec fn tool_views(tools: Seq<ToolSpec>) -> Seq<ToolSpecView> {
    tools.map_values(|tool: ToolSpec| tool@)
}

/// The names of the tools of a list.
pub open spec fn tool_names(tools: Seq<ToolSpecView>) -> Seq<Seq<char>> {
    tools.map_values(|tool: ToolSpecView| tool.name)
}

/// No two tools have one name.
pub open spec fn names_unique(tools: Seq<ToolSpecView>) -> bool {
    forall|i: int, j: int|
        0 <= i < j < tools.len() ==> (#[trigger] tools[i]).name != (#[trigger] tools[j]).name
}

/// The tool of this name.
pub open spec fn lookup(tools: Seq<ToolSpecView>, name: Seq<char>) -> Option<ToolSpecView> {
    let at = next_index_of(tool_names(tools), 0, name);
    if at < tools.len() {
        Some(tools[at])
    } else {
        None
    }
}

/// The tools after `tool` was offered for registration, and the error if it
/// was refused: a name is taken only once.
pub open spec fn registration(tools: Seq<ToolSpecView>, tool: ToolSpecView) -> (
    Seq<ToolSpecView>,
    Option<ToolErrorView>,
) {
    if lookup(tools, tool.name) is Some {
        (tools, Some(ToolErrorView::Duplicate { tool: tool.name }))
    } else {
        (tools.push(tool), None)
    }
}

/// Why a request is refused, if it is: its tool is not known, or
/// its arguments do not conform to the tool's schema.
pub open spec fn refusal(tools: Seq<ToolSpecView>, call: ToolCallView) -> Option<ToolErrorView> {
    match lookup(tools, call.name) {
        None => Some(ToolErrorView::Unknown { tool: call.name }),
        Some(tool) => match first_violation(tool.input_schema, call.arguments) {
            Some(violation) => Some(ToolErrorView::Argument { tool: call.name, violation }),
            None => None,
        },
    }
}

/// What screening a request comes to: one that is refused is answered in
/// the conversation at once, by one tool turn that holds the text of the
/// error; one that passes leaves the conversation as it is.
pub open spec fn screening(tools: Seq<ToolSpecView>, call: ToolCallView, memory: MemoryView) -> (
    MemoryView,
    Option<ToolErrorView>,
) {
    match refusal(tools, call) {
        None => (memory, None),
        Some(error) => (
            memory.append(Role::Tool, ContentView::Text(tool_error_text(error))),
            Some(error),
        ),
    }
}

/// What a tool's outcome is in the conversation: its result, or the text of
/// its failure.
pub open spec fn outcome_content(tool: Seq<char>, outcome: Result<RecordView, Seq<char>>)
    -> ContentView {
    match outcome {
        Ok(value) => ContentView::Structured(value),
        Err(cause) => ContentView::Text(
            tool_error_text(ToolErrorView::Execution { tool, cause }),
        ),
    }
}

/// The tools that a choice puts before the model.
pub open spec fn offered_tools(tools: Seq<ToolSpecView>, choice: ToolChoiceView) -> Seq<
    ToolSpecView,
> {
    match choice {
        ToolChoiceView::Auto => tools,
        ToolChoiceView::Disabled => Seq::empty(),
        ToolChoiceView::Forced(name) => match lookup(tools, name) {
            Some(tool) => seq![tool],
            None => Seq::empty(),
        },
    }
}

/// The tools that are known, each under a name of its own.
pub struct ToolRegistry {
    tools: Vec<ToolSpec>,
}

impl View for ToolRegistry {
    type V = Seq<ToolSpecView>;

    closed spec fn view(&self) -> Seq<ToolSpecView> {
        tool_views(self.tools@)
    }
}

impl ToolRegistry {
    #[verifier::type_invariant]
    spec fn inv(&self) -> bool {
        names_unique(self@)
    }

    /// A registry without tools.
    pub fn new() -> (registry: ToolRegistry)
        ensures
            registry@ == Seq::<ToolSpecView>::empty(),
    {
        let registry = ToolRegistry { tools: Vec::new() };
        assert(registry@ =~= Seq::<ToolSpecView>::empty());
        registry
    }

    /// The number of tools.
    pub fn len(&self) -> (len: usize)
        ensures
            len == self@.len(),
            names_unique(self@),
    {
        proof {
            use_type_invariant(self);
        }
        self.tools.len()
    }

    fn position(&self, name: &String) -> (at: usize)
        ensures
            at == next_index_of(tool_names(self@), 0, name@),
            at <= self.tools@.len(),
    {
        let mut at: usize = 0;
        while at < self.tools.len() && self.tools[at].name != *name
            invariant
                at <= self.tools.len(),
                next_index_of(tool_names(self@), at as int, name@) == next_index_of(
                    tool_names(self@),
                    0,
                    name@,
                ),
            decreases self.tools.len() - at,
        {
            at = at + 1;
        }
        at
    }

    /// Registers a tool, unless its name is taken.
    pub fn register(&mut self, tool: ToolSpec) -> (out: Result<(), ToolError>)
        ensures
            final(self)@ == registration(old(self)@, tool@).0,
            match registration(old(self)@, tool@).1 {
                None => out is Ok,
                Some(error) => out is Err && out->Err_0@ == error,
            },
    {
        proof {
            use_type_invariant(&*self);
        }
        if self.position(&tool.name) < self.tools.len() {
            return Err(ToolError::Duplicate { tool: tool.name });
        }
        let ghost before = self@;
        let mut tools: Vec<ToolSpec> = Vec::new();
        core::mem::swap(&mut self.tools, &mut tools);
        tools.push(tool);
        proof {
            assert(tool_views(tools@) =~= before.push(tool@));
            lemma_next_index_of(tool_names(before), 0, tool@.name);
            assert forall|i: int, j: int| 0 <= i < j < tool_views(tools@).len() implies (
            #[trigger] tool_views(tools@)[i]).name != (#[trigger] tool_views(tools@)[j]).name by {
                if j == before.len() {
                    assert(tool_names(before)[i] == before[i].name);
                }
            }
        }
        self.tools = tools;
        Ok(())
    }

    /// The tool of this name.
    pub fn resolve(&self, name: &String) -> (out: Result<&ToolSpec, ToolError>)
        ensures
            match lookup(self@, name@) {
                Some(tool) => out is Ok && out->Ok_0@ == tool,
                None => out is Err && out->Err_0@ == (ToolErrorView::Unknown { tool: name@ }),
            },
    {
        let at = self.position(name);
        if at < self.tools.len() {
            Ok(&self.tools[at])
        } else {
            Err(ToolError::Unknown { tool: name.clone() })
        }
    }

    /// The tools that a choice puts before the model.
    pub fn offered(&self, choice: &ToolChoice) -> (tools: Vec<ToolSpec>)
        ensures
            tool_views(tools@) == offered_tools(self@, choice@),
    {
        let mut tools: Vec<ToolSpec> = Vec::new();
        match choice {
            ToolChoice::Auto => {
                let mut at: usize = 0;
                while at < self.tools.len()
                    invariant
                        at <= self.tools@.len(),
                        tools@.len() == at,
                        forall|i: int| 0 <= i < at ==> (#[trigger] tools@[i])@ == self.tools@[i]@,
                    decreases self.tools@.len() - at,
                {
                    tools.push(self.tools[at].clone());
                    at = at + 1;
                }
                assert(tool_views(tools@) =~= self@);
            },
            ToolChoice::Disabled => {
                assert(tool_views(tools@) =~= Seq::<ToolSpecView>::empty());
            },
            ToolChoice::Forced(name) => {
                let at = self.position(name);
                if at < self.tools.len() {
                    tools.push(self.tools[at].clone());
                    assert(tool_views(tools@) =~= seq![self@[at as int]]);
                } else {
                    assert(tool_views(tools@) =~= Seq::<ToolSpecView>::empty());
                }
            },
        }
        tools
    }

    /// Whether a request passes. One that does not is answered in the
    /// conversation at once, by a tool turn that holds the text of the error.
    pub fn screen(&self, call: &ToolCall, memory: &mut Memory) -> (out: Result<(), ToolError>)
        ensures
            final(memory)@ == screening(self@, call@, old(memory)@).0,
            match screening(self@, call@, old(memory)@).1 {
                None => out is Ok,
                Some(error) => out is Err && out->Err_0@ == error,
            },
    {
        let error = match self.resolve(&call.name) {
            Err(error) => error,
            Ok(tool) => match tool.input_schema.check(&call.arguments) {
                Ok(()) => {
                    return Ok(());
                },
                Err(violation) => ToolError::Argument { tool: call.name.clone(), violation },
            },
        };
        memory.append(Role::Tool, Content::Text(error.message()));
        Err(error)
    }

    /// Records the outcome of a request that passed and was run: one tool
    /// turn, with the result or with the text of the failure.
    pub fn settle(
        &self,
        call: &ToolCall,
        outcome: Result<Record, String>,
        memory: &mut Memory,
    ) -> (out: Result<(), ToolError>)
        ensures
            outcome is Ok ==> out is Ok && final(memory)@ == old(memory)@.append(
                Role::Tool,
                ContentView::Structured(outcome->Ok_0@),
            ),
            outcome is Err ==> out is Err && out->Err_0@ == (ToolErrorView::Execution {
                tool: call@.name,
                cause: outcome->Err_0@,
            }) && final(memory)@ == old(memory)@.append(
                Role::Tool,
                ContentView::Text(tool_error_text(out->Err_0@)),
            ),
    {
        match outcome {
            Ok(value) => {
                memory.append(Role::Tool, Content::Structured(value));
                Ok(())
            },
            Err(cause) => {
                let error = ToolError::Execution { tool: call.name.clone(), cause };
                memory.append(Role::Tool, Content::Text(error.message()));
                Err(error)
            },
        }
    }
}

/// A request whose arguments do not conform to the schema of its tool is
/// refused with an argument error, and answered by exactly one turn, a tool
/// turn: the conversation afterwards ends in that turn, and before it holds
/// what it held, less the oldest turn if it was full.
pub proof fn law_bad_arguments_refused(
    tools: Seq<ToolSpecView>,
    call: ToolCallView,
    memory: MemoryView,
)
    requires
        memory.wf(),
        lookup(tools, call.name) is Some,
        !conforms(lookup(tools, call.name)->Some_0.input_schema, call.arguments),
    ensures
        ({
            let (after, error) = screening(tools, call, memory);
            &&& error is Some
            &&& error->Some_0 is Argument
            &&& error->Some_0->Argument_tool == call.name
            &&& after.turns.len() > 0
            &&& after.turns.last() == (TurnView {
                role: Role::Tool,
                content: ContentView::Text(tool_error_text(error->Some_0)),
                sequence: memory.next,
            })
            &&& after.turns.drop_last() == if memory.turns.len() < memory.limit {
                memory.turns
            } else {
                memory.turns.drop_first()
            }
        }),
{
    lemma_first_violation(lookup(tools, call.name)->Some_0.input_schema, call.arguments);
    let (after, error) = screening(tools, call, memory);
    assert(after.turns.drop_last() =~= if memory.turns.len() < memory.limit {
        memory.turns
    } else {
        memory.turns.drop_first()
    });
}

/// A request passes exactly when its tool is known and its arguments
/// conform to the tool's schema.
pub proof fn law_refusal(tools: Seq<ToolSpecView>, call: ToolCallView)
    ensures
        refusal(tools, call) is None <==> lookup(tools, call.name) is Some && conforms(
            lookup(tools, call.name)->Some_0.input_schema,
            call.arguments,
        ),
{
    if lookup(tools, call.name) is Some {
        lemma_first_violation(lookup(tools, call.name)->Some_0.input_schema, call.arguments);
    }
}

/// Of two tools with one name the second is refused as a duplicate, and the
/// registry is as the first left it.
pub proof fn law_second_registration_refused(
    tools: Seq<ToolSpecView>,
    first: ToolSpecView,
    second: ToolSpecView,
)
    requires
        first.name == second.name,
    ensures
        ({
            let after_first = registration(tools, first).0;
            let after_second = registration(after_first, second);
            &&& after_second.0 == after_first
            &&& after_second.1 == Some(ToolErrorView::Duplicate { tool: second.name })
            &&& lookup(after_second.0, second.name) == lookup(after_first, first.name)
            &&& lookup(tools, first.name) is None ==> lookup(after_first, first.name) == Some(first)
        }),
{
    let after_first = registration(tools, first).0;
    lemma_next_index_of(tool_names(tools), 0, first.name);
    lemma_next_index_of(tool_names(after_first), 0, first.name);
    if lookup(tools, first.name) is None {
        let at = tools.len() as int;
        assert(tool_names(after_first)[at] == first.name);
        assert forall|k: int| 0 <= k < at implies tool_names(after_first)[k] != first.name by {
            assert(tool_names(tools)[k] == tool_names(after_first)[k]);
        }
        assert(next_index_of(tool_names(after_first), 0, first.name) == at);
    }
}

} // verus!
