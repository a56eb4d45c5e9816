//! What passes between the engine and the world around it: the task that
//! comes in, the requests that go to the backend and the replies that come
//! back, the output and the errors that go to the caller.

use crate::memory::{turn_views, MemoryTurn, TurnView};
use crate::schema::{violation_text, Violation, ViolationView};
use crate::tool::{tool_views, ToolCall, ToolCallView, ToolSpec, ToolSpecView};
use crate::value::{Record, RecordView, Schema, SchemaView};
use vstd::prelude::*;
use vstd::string::*;

verus! {

/// One unit of work: a prompt, under an identifier that the engine does not
/// read, with whatever the caller attaches to it.
#[derive(Debug, PartialEq, Eq)]
pub struct Task {
    pub id: String,
    pub prompt: String,
    pub metadata: Vec<(String, String)>,
}

/// A task as a plain value.
pub struct TaskView {
    pub id: Seq<char>,
    pub prompt: Seq<char>,
    pub metadata: Seq<(Seq<char>, Seq<char>)>,
}

impl View for Task {
    type V = TaskView;

    open spec fn view(&self) -> TaskView {
        TaskView {
            id: self.id@,
            prompt: self.prompt@,
            metadata: self.metadata@.map_values(|entry: (String, String)| (entry.0@, entry.1@)),
        }
    }
}

impl Task {
    /// A task without metadata.
    pub fn new(id: String, prompt: String) -> (task: Task)
        ensures
            task@ == (TaskView { id: id@, prompt: prompt@, metadata: Seq::empty() }),
    {
        let task = Task { id, prompt, metadata: Vec::new() };
        assert(task@.metadata =~= Seq::empty());
        task
    }

    /// The task with one more entry of metadata, after those it has.
    pub fn with_metadata(self, key: String, value: String) -> (task: Task)
        ensures
            task@ == (TaskView { metadata: self@.metadata.push((key@, value@)), ..self@ }),
    {
        let mut task = self;
        task.metadata.push((key, value));
        assert(task@.metadata =~= self@.metadata.push((key@, value@)));
        task
    }
}

/// What the caller gets: a chunk of a stream while `done` is false, the
/// result when it is true.
#[derive(Debug, PartialEq, Eq)]
pub struct Output {
    pub response: String,
    pub structured: Option<Record>,
    pub done: bool,
}

/// An output as a plain value.
pub struct OutputView {
    pub response: Seq<char>,
    pub structured: Option<RecordView>,
    pub done: bool,
}

/// A structured value that may be absent, as a plain value.
pub open spec fn record_view(record: Option<Record>) -> Option<RecordView> {
    match record {
        Some(record) => Some(record@),
        None => None,
    }
}

/// A schema that may be absent, as a plain value.
pub open spec fn schema_view(schema: Option<Schema>) -> Option<SchemaView> {
    match schema {
        Some(schema) => Some(schema@),
        None => None,
    }
}

/// A text that may be absent, as a plain value.
pub open spec fn text_view(text: Option<String>) -> Option<Seq<char>> {
    match text {
        Some(text) => Some(text@),
        None => None,
    }
}

impl View for Output {
    type V = OutputView;

    open spec fn view(&self) -> OutputView {
        OutputView {
            response: self.response@,
            structured: record_view(self.structured),
            done: self.done,
        }
    }
}

impl Clone for Output {
    fn clone(&self) -> (copy: Self)
        ensures
            copy@ == self@,
    {
        let structured = match &self.structured {
            Some(record) => Some(record.clone()),
            None => None,
        };
        Output { response: self.response.clone(), structured, done: self.done }
    }
}

/// What the backend is asked: the conversation so far, the prompt where it
/// is not part of the conversation, the tools it may ask for, and the schema
/// that its answer should conform to.
#[derive(Debug, PartialEq, Eq)]
pub struct BackendRequest {
    pub history: Vec<MemoryTurn>,
    pub prompt: Option<String>,
    pub tools: Vec<ToolSpec>,
    pub output_schema: Option<Schema>,
}

/// A request as a plain value.
pub struct RequestView {
    pub history: Seq<TurnView>,
    pub prompt: Option<Seq<char>>,
    pub tools: Seq<ToolSpecView>,
    pub output_schema: Option<SchemaView>,
}

impl View for BackendRequest {
    type V = RequestView;

    open spec fn view(&self) -> RequestView {
        RequestView {
            history: turn_views(self.history@),
            prompt: text_view(self.prompt),
            tools: tool_views(self.tools@),
            output_schema: schema_view(self.output_schema),
        }
    }
}

/// What the backend answers with.
#[derive(Debug, PartialEq, Eq)]
pub enum ReplyContent {
    /// Plain text.
    Text(String),
    /// A structured value, and the text it was decoded from.
    Structured { text: String, value: Record },
    /// Requests to run tools, in the order in which they are to be run.
    ToolCalls(Vec<ToolCall>),
}

/// The content of a reply as a plain value.
pub enum ReplyContentView {
    Text(Seq<char>),
    Structured { text: Seq<char>, value: RecordView },
    ToolCalls(Seq<ToolCallView>),
}

/// The requests of a list, as plain values.
pub open spec fn call_views(calls: Seq<ToolCall>) -> Seq<ToolCallView> {
    calls.map_values(|call: ToolCall| call@)
}

impl View for ReplyContent {
    type V = ReplyContentView;

    open spec fn view(&self) -> ReplyContentView {
        match self {
            ReplyContent::Text(text) => ReplyContentView::Text(text@),
            ReplyContent::Structured { text, value } => ReplyContentView::Structured {
                text: text@,
                value: value@,
            },
            ReplyContent::ToolCalls(calls) => ReplyContentView::ToolCalls(call_views(calls@)),
        }
    }
}

/// An answer of the backend. `done` says that the backend considers the task
/// complete.
#[derive(Debug, PartialEq, Eq)]
pub struct BackendReply {
    pub content: ReplyContent,
    pub done: bool,
}

/// A reply as a plain value.
pub struct ReplyView {
    pub content: ReplyContentView,
    pub done: bool,
}

impl View for BackendReply {
    type V = ReplyView;

    open spec fn view(&self) -> ReplyView {
        ReplyView { content: self.content@, done: self.done }
    }
}

/// The kinds of failure that end a run.
#[derive(Clone, Copy, Debug, PartialEq, Eq, Structural)]
pub enum ErrorKind {
    Backend,
    StructuredOutput,
    IterationLimitExceeded,
}

/// Why a run failed.
#[derive(Debug, PartialEq, Eq)]
pub enum RunError {
    /// The backend failed. It is not asked again.
    Backend { cause: String },
    /// The final answer is no structured value, or one that does not conform
    /// to the schema of the agent's output.
    StructuredOutput { violation: Option<Violation> },
    /// The backend was asked as often as the agent allows, and the task is
    /// not complete.
    IterationLimitExceeded { limit: usize },
}

/// An error of a run as a plain value.
pub enum RunErrorView {
    Backend { cause: Seq<char> },
    StructuredOutput { violation: Option<ViolationView> },
    IterationLimitExceeded { limit: usize },
}

/// A violation that may be absent, as a plain value.
pub open spec fn violation_view(violation: Option<Violation>) -> Option<ViolationView> {
    match violation {
        Some(violation) => Some(violation@),
        None => None,
    }
}

impl View for RunError {
    type V = RunErrorView;

    open spec fn view(&self) -> RunErrorView {
        match self {
            RunError::Backend { cause } => RunErrorView::Backend { cause: cause@ },
            RunError::StructuredOutput { violation } => RunErrorView::StructuredOutput {
                violation: violation_view(*violation),
            },
            RunError::IterationLimitExceeded { limit } => RunErrorView::IterationLimitExceeded {
                limit: *limit,
            },
        }
    }
}

impl Clone for RunError {
    fn clone(&self) -> (copy: Self)
        ensures
            copy@ == self@,
    {
        match self {
            RunError::Backend { cause } => RunError::Backend { cause: cause.clone() },
            RunError::StructuredOutput { violation: Some(violation) } => RunError::StructuredOutput {
                violation: Some(violation.clone()),
            },
            RunError::StructuredOutput { violation: None } => RunError::StructuredOutput {
                violation: None,
            },
            RunError::IterationLimitExceeded { limit } => RunError::IterationLimitExceeded {
                limit: *limit,
            },
        }
    }
}

/// The kind of an error.
pub open spec fn kind_of_error(error: RunErrorView) -> ErrorKind {
    match error {
        RunErrorView::Backend { .. } => ErrorKind::Backend,
        RunErrorView::StructuredOutput { .. } => ErrorKind::StructuredOutput,
        RunErrorView::IterationLimitExceeded { .. } => ErrorKind::IterationLimitExceeded,
    }
}

/// The cause of an error, in words, where it has one.
pub open spec fn cause_of_error(error: RunErrorView) -> Option<Seq<char>> {
    match error {
        RunErrorView::Backend { cause } => Some(cause),
        RunErrorView::StructuredOutput { violation: Some(violation) } => Some(
            violation_text(violation),
        ),
        RunErrorView::StructuredOutput { violation: None } => None,
        RunErrorView::IterationLimitExceeded { .. } => None,
    }
}

impl RunError {
    /// The kind of this error.
    pub fn kind(&self) -> (kind: ErrorKind)
        ensures
            kind == kind_of_error(self@),
    {
        match self {
            RunError::Backend { .. } => ErrorKind::Backend,
            RunError::StructuredOutput { .. } => ErrorKind::StructuredOutput,
            RunError::IterationLimitExceeded { .. } => ErrorKind::IterationLimitExceeded,
        }
    }

    /// What caused this error, in words, where something did.
    pub fn cause(&self) -> (cause: Option<String>)
        ensures
            text_view(cause) == cause_of_error(self@),
    {
        match self {
            RunError::Backend { cause } => Some(cause.clone()),
            RunError::StructuredOutput { violation: Some(violation) } => Some(violation.message()),
            RunError::StructuredOutput { violation: None } => None,
            RunError::IterationLimitExceeded { .. } => None,
        }
    }
}

/// The points of a run at which its observers are told.
#[derive(Clone, Copy, Debug, PartialEq, Eq, Structural)]
pub enum HookPoint {
    BeforeTask,
    BeforeBackendCall,
    AfterBackendCall,
    BeforeToolCall,
    AfterToolCall,
    AfterTaskSuccess,
    AfterTaskFailure,
}

/// What the engine is told.
#[derive(Debug, PartialEq, Eq)]
pub enum Event {
    /// The run is to start.
    Start,
    /// The backend answered, or failed with this cause.
    Reply(Result<BackendReply, String>),
    /// The tool that was to be run returned this, or failed with this cause.
    ToolOutcome(Result<Record, String>),
    /// Nobody waits for the run any more.
    Cancel,
}

/// An event as a plain value.
pub enum EventView {
    Start,
    Reply(Result<ReplyView, Seq<char>>),
    ToolOutcome(Result<RecordView, Seq<char>>),
    Cancel,
}

impl View for Event {
    type V = EventView;

    open spec fn view(&self) -> EventView {
        match self {
            Event::Start => EventView::Start,
            Event::Reply(Ok(reply)) => EventView::Reply(Ok(reply@)),
            Event::Reply(Err(cause)) => EventView::Reply(Err(cause@)),
            Event::ToolOutcome(Ok(value)) => EventView::ToolOutcome(Ok(value@)),
            Event::ToolOutcome(Err(cause)) => EventView::ToolOutcome(Err(cause@)),
            Event::Cancel => EventView::Cancel,
        }
    }
}

/// What the engine wants done next.
#[derive(Debug, PartialEq, Eq)]
pub enum Action {
    /// Ask the backend, and come back with `Event::Reply`.
    CallBackend(BackendRequest),
    /// Run the tool with these arguments, which conform to its schema, and
    /// come back with `Event::ToolOutcome`.
    InvokeTool(ToolCall),
    /// The run is complete, with this output.
    Finish(Output),
    /// The run failed.
    Fail(RunError),
    /// Nothing: the event found no run that waited for it.
    Idle,
}

/// An action as a plain value.
pub enum ActionView {
    CallBackend(RequestView),
    InvokeTool(ToolCallView),
    Finish(OutputView),
    Fail(RunErrorView),
    Idle,
}

impl View for Action {
    type V = ActionView;

    open spec fn view(&self) -> ActionView {
        match self {
            Action::CallBackend(request) => ActionView::CallBackend(request@),
            Action::InvokeTool(call) => ActionView::InvokeTool(call@),
            Action::Finish(output) => ActionView::Finish(output@),
            Action::Fail(error) => ActionView::Fail(error@),
            Action::Idle => ActionView::Idle,
        }
    }
}

/// An output that may be absent, as a plain value.
pub open spec fn output_view(output: Option<Output>) -> Option<OutputView> {
    match output {
        Some(output) => Some(output@),
        None => None,
    }
}

/// What one event comes to: the observers to tell, in this order; then a
/// chunk for whoever follows the run as a stream; then what to do next.
#[derive(Debug, PartialEq, Eq)]
pub struct Step {
    pub notices: Vec<HookPoint>,
    pub chunk: Option<Output>,
    pub action: Action,
}

/// A step as a plain value.
pub struct StepView {
    pub notices: Seq<HookPoint>,
    pub chunk: Option<OutputView>,
    pub action: ActionView,
}

impl View for Step {
    type V = StepView;

    open spec fn view(&self) -> StepView {
        StepView { notices: self.notices@, chunk: output_view(self.chunk), action: self.action@ }
    }
}

/// What a consumer of the stream gets: a chunk or the output, or the error
/// that ended the run.
pub type StreamItem = Result<Output, RunError>;

/// A stream item as a plain value.
pub type ItemView = Result<OutputView, RunErrorView>;

/// A stream item as a plain value.
pub open spec fn item_view(item: StreamItem) -> ItemView {
    match item {
        Ok(output) => Ok(output@),
        Err(error) => Err(error@),
    }
}

/// The items of a list, as plain values.
pub open spec fn item_views(items: Seq<StreamItem>) -> Seq<ItemView> {
    items.map_values(|item: StreamItem| item_view(item))
}

/// What a step hands to the consumer of the stream: its chunk if it has one,
/// then the output if the run completed or the error if it failed.
pub open spec fn stream_items(step: StepView) -> Seq<ItemView> {
    let chunk: Seq<ItemView> = match step.chunk {
        Some(chunk) => seq![Ok(chunk)],
        None => Seq::empty(),
    };
    let end: Seq<ItemView> = match step.action {
        ActionView::Finish(output) => seq![Ok(output)],
        ActionView::Fail(error) => seq![Err(error)],
        _ => Seq::empty(),
    };
    chunk + end
}

impl Step {
    /// What this step hands to the consumer of the stream.
    pub fn items(&self) -> (items: Vec<StreamItem>)
        ensures
            item_views(items@) == stream_items(self@),
    {
        let mut items: Vec<StreamItem> = Vec::new();
        if let Some(chunk) = &self.chunk {
            items.push(Ok(chunk.clone()));
        }
        match &self.action {
            Action::Finish(output) => {
                items.push(Ok(output.clone()));
            },
            Action::Fail(error) => {
                items.push(Err(error.clone()));
            },
            _ => {},
        }
        assert(item_views(items@) =~= stream_items(self@));
        items
    }
}

} // verus!
