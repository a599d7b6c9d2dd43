//! The data model: priorities, threads, tasks, their events and the
//! JSON-RPC envelope types.

use vstd::prelude::*;
use crate::text::{decimal, push_zero_padded, str_eq, zero_pad};

verus! {

// ---------------------------------------------------------------------------
// Priority
// ---------------------------------------------------------------------------

/// How urgent a thread is.
#[derive(Debug, Clone, Copy, PartialEq, Eq, Structural)]
pub enum Priority {
    Background,
    Priority,
    Incident,
}

/// The abbreviation of a priority, as it is written on the command line
/// and in stored JSON.
pub open spec fn abbrev_of(p: Priority) -> Seq<char> {
    match p {
        Priority::Background => "BG"@,
        Priority::Priority => "PRIO"@,
        Priority::Incident => "INC"@,
    }
}

/// The full name of a priority.
pub open spec fn full_name_of(p: Priority) -> Seq<char> {
    match p {
        Priority::Background => "background"@,
        Priority::Priority => "priority"@,
        Priority::Incident => "incident"@,
    }
}

/// The message given when a priority does not parse.
pub open spec fn invalid_priority_message(s: Seq<char>) -> Seq<char> {
    "Invalid priority '"@ + s + "'. Use BG, PRIO, or INC"@
}

/// What parsing `s` as a priority gives: the priority whose abbreviation is
/// `s`, or the error message.
pub open spec fn parse_priority_spec(s: Seq<char>) -> Result<Priority, Seq<char>> {
    if s == "BG"@ {
        Ok(Priority::Background)
    } else if s == "PRIO"@ {
        Ok(Priority::Priority)
    } else if s == "INC"@ {
        Ok(Priority::Incident)
    } else {
        Err(invalid_priority_message(s))
    }
}

/// A priority's abbreviation parses back to that priority, and every
/// priority that parses is read from its abbreviation.
pub proof fn law_priority_reads_back(p: Priority, s: Seq<char>)
    ensures
        parse_priority_spec(abbrev_of(p)) == Ok::<Priority, Seq<char>>(p),
        parse_priority_spec(s) == Ok::<Priority, Seq<char>>(p) ==> s == abbrev_of(p),
{
    reveal_strlit("BG");
    reveal_strlit("PRIO");
    reveal_strlit("INC");
    assert("BG"@.len() == 2 && "PRIO"@.len() == 4 && "INC"@.len() == 3);
}

impl Priority {
    pub fn full_name(&self) -> (r: &'static str)
        ensures
            r@ == full_name_of(*self),
    {
        match self {
            Priority::Background => "background",
            Priority::Priority => "priority",
            Priority::Incident => "incident",
        }
    }

    pub fn abbrev(&self) -> (r: &'static str)
        ensures
            r@ == abbrev_of(*self),
    {
        match self {
            Priority::Background => "BG",
            Priority::Priority => "PRIO",
            Priority::Incident => "INC",
        }
    }

    /// The displayed form of a priority: its abbreviation.
    pub fn to_string(&self) -> (r: String)
        ensures
            r@ == abbrev_of(*self),
    {
        String::from_str(self.abbrev())
    }

    /// Parses an abbreviation (`BG`, `PRIO` or `INC`); anything else is
    /// refused with a message that names the input.
    pub fn parse(s: &str) -> (r: Result<Priority, String>)
        ensures
            match (r, parse_priority_spec(s@)) {
                (Ok(p), Ok(q)) => p == q,
                (Err(e), Err(m)) => e@ == m,
                _ => false,
            },
    {
        if str_eq(s, "BG") {
            Ok(Priority::Background)
        } else if str_eq(s, "PRIO") {
            Ok(Priority::Priority)
        } else if str_eq(s, "INC") {
            Ok(Priority::Incident)
        } else {
            let mut m = String::from_str("Invalid priority '");
            m.append(s);
            m.append("'. Use BG, PRIO, or INC");
            Err(m)
        }
    }
}

impl core::str::FromStr for Priority {
    type Err = String;

    fn from_str(s: &str) -> (r: Result<Priority, String>)
        ensures
            match (r, parse_priority_spec(s@)) {
                (Ok(p), Ok(q)) => p == q,
                (Err(e), Err(m)) => e@ == m,
                _ => false,
            },
    {
        Priority::parse(s)
    }
}

// ---------------------------------------------------------------------------
// Thread state
// ---------------------------------------------------------------------------

/// Where a thread stands: the one being worked on, set aside, or waiting on
/// something outside (with an optional reason).
#[derive(Debug, Clone, PartialEq, Eq)]
pub enum ThreadState {
    Active,
    Paused,
    Waiting { reason: Option<String> },
}

/// The mathematical value of a thread state.
pub enum StateView {
    Active,
    Paused,
    Waiting(Option<Seq<char>>),
}

pub open spec fn opt_view(o: Option<String>) -> Option<Seq<char>> {
    match o {
        Some(s) => Some(s@),
        None => None,
    }
}

impl View for ThreadState {
    type V = StateView;

    open spec fn view(&self) -> StateView {
        match self {
            ThreadState::Active => StateView::Active,
            ThreadState::Paused => StateView::Paused,
            ThreadState::Waiting { reason } => StateView::Waiting(opt_view(*reason)),
        }
    }
}

/// The displayed name of a thread state.
pub open spec fn state_name(s: StateView) -> Seq<char> {
    match s {
        StateView::Active => "active"@,
        StateView::Paused => "paused"@,
        StateView::Waiting(_) => "waiting"@,
    }
}

/// Duplicates an optional string.
pub fn copy_opt(o: &Option<String>) -> (r: Option<String>)
    ensures
        opt_view(r) == opt_view(*o),
{
    match o {
        Some(s) => Some(s.clone()),
        None => None,
    }
}

impl ThreadState {
    /// The displayed name: `active`, `paused` or `waiting`.
    pub fn to_string(&self) -> (r: String)
        ensures
            r@ == state_name(self@),
    {
        match self {
            ThreadState::Active => String::from_str("active"),
            ThreadState::Paused => String::from_str("paused"),
            ThreadState::Waiting { .. } => String::from_str("waiting"),
        }
    }

    /// Duplicates this state.
    pub fn copy(&self) -> (r: ThreadState)
        ensures
            r@ == self@,
    {
        match self {
            ThreadState::Active => ThreadState::Active,
            ThreadState::Paused => ThreadState::Paused,
            ThreadState::Waiting { reason } => ThreadState::Waiting { reason: copy_opt(reason) },
        }
    }

    pub fn is_waiting(&self) -> (r: bool)
        ensures
            r == (self@ is Waiting),
    {
        match self {
            ThreadState::Waiting { .. } => true,
            _ => false,
        }
    }

    pub fn is_active(&self) -> (r: bool)
        ensures
            r == (self@ is Active),
    {
        match self {
            ThreadState::Active => true,
            _ => false,
        }
    }
}

// ---------------------------------------------------------------------------
// Thread
// ---------------------------------------------------------------------------

/// A line of work, identified by a number and by a unique slug.
#[derive(Debug, Clone, PartialEq, Eq)]
pub struct Thread {
    pub id: u32,
    pub slug: String,
    pub state: ThreadState,
    pub priority: Priority,
    pub description: String,
}

/// The mathematical value of a thread.
pub struct ThreadView {
    pub id: u32,
    pub slug: Seq<char>,
    pub state: StateView,
    pub priority: Priority,
    pub description: Seq<char>,
}

impl View for Thread {
    type V = ThreadView;

    open spec fn view(&self) -> ThreadView {
        ThreadView {
            id: self.id,
            slug: self.slug@,
            state: self.state@,
            priority: self.priority,
            description: self.description@,
        }
    }
}

/// The views of a sequence of threads.
pub open spec fn threads_view(ts: Seq<Thread>) -> Seq<ThreadView> {
    ts.map_values(|t: Thread| t@)
}

/// A thread number as it is shown: zero-padded to four digits.
pub open spec fn id4(n: u32) -> Seq<char> {
    zero_pad(decimal(n as nat), 4)
}

impl Thread {
    /// Zero-padded 4-digit string representation of the id (e.g. "0001").
    pub fn id_str(&self) -> (r: String)
        ensures
            r@ == id4(self.id),
    {
        let mut r = String::new();
        push_zero_padded(&mut r, self.id as u64, 4);
        r
    }

    /// Duplicates this thread, field by field.
    pub fn copy(&self) -> (r: Thread)
        ensures
            r@ == self@,
    {
        Thread {
            id: self.id,
            slug: self.slug.clone(),
            state: self.state.copy(),
            priority: self.priority,
            description: self.description.clone(),
        }
    }
}

// ---------------------------------------------------------------------------
// Task state
// ---------------------------------------------------------------------------

/// The life cycle of a task.
#[derive(Debug, Clone, Copy, PartialEq, Eq, Structural)]
pub enum TaskState {
    NotStarted,
    InProgress,
    Blocked,
    Done,
    Cancelled,
}

/// The displayed (and stored) name of a task state.
pub open spec fn task_state_name(s: TaskState) -> Seq<char> {
    match s {
        TaskState::NotStarted => "not-started"@,
        TaskState::InProgress => "in-progress"@,
        TaskState::Blocked => "blocked"@,
        TaskState::Done => "done"@,
        TaskState::Cancelled => "cancelled"@,
    }
}

impl TaskState {
    /// The displayed name, in kebab case.
    pub fn to_string(&self) -> (r: String)
        ensures
            r@ == task_state_name(*self),
    {
        match self {
            TaskState::NotStarted => String::from_str("not-started"),
            TaskState::InProgress => String::from_str("in-progress"),
            TaskState::Blocked => String::from_str("blocked"),
            TaskState::Done => String::from_str("done"),
            TaskState::Cancelled => String::from_str("cancelled"),
        }
    }
}

// ---------------------------------------------------------------------------
// Task
// ---------------------------------------------------------------------------

/// A piece of work within a thread.
#[derive(Debug, Clone, PartialEq, Eq)]
pub struct Task {
    /// Human-readable id: `TSK-{thread_id:04}-{seq:04}` e.g. `TSK-0001-0001`
    pub id: String,
    pub description: String,
    pub state: TaskState,
    pub due_by: Option<String>,
    /// Sequence number for manual ordering (1-based, not displayed)
    pub seq: u32,
    /// Only meaningful when state is Blocked
    pub blocked_reason: Option<String>,
}

/// The mathematical value of a task.
pub struct TaskView {
    pub id: Seq<char>,
    pub description: Seq<char>,
    pub state: TaskState,
    pub due_by: Option<Seq<char>>,
    pub seq: u32,
    pub blocked_reason: Option<Seq<char>>,
}

impl View for Task {
    type V = TaskView;

    open spec fn view(&self) -> TaskView {
        TaskView {
            id: self.id@,
            description: self.description@,
            state: self.state,
            due_by: opt_view(self.due_by),
            seq: self.seq,
            blocked_reason: opt_view(self.blocked_reason),
        }
    }
}

/// The views of a sequence of tasks.
pub open spec fn tasks_view(ts: Seq<Task>) -> Seq<TaskView> {
    ts.map_values(|t: Task| t@)
}

/// The id of the task numbered `seq` in thread `thread_id`.
pub open spec fn task_id_of(thread_id: u32, seq: u32) -> Seq<char> {
    "TSK-"@ + id4(thread_id) + "-"@ + id4(seq)
}

impl Task {
    /// Format a task id from thread id and sequence number.
    pub fn make_id(thread_id: u32, seq: u32) -> (r: String)
        ensures
            r@ == task_id_of(thread_id, seq),
    {
        let mut r = String::from_str("TSK-");
        push_zero_padded(&mut r, thread_id as u64, 4);
        r.append("-");
        push_zero_padded(&mut r, seq as u64, 4);
        r
    }

    /// Duplicates a task, field by field.
    pub fn copy(&self) -> (r: Task)
        ensures
            r@ == self@,
    {
        Task {
            id: self.id.clone(),
            description: self.description.clone(),
            state: self.state,
            due_by: copy_opt(&self.due_by),
            seq: self.seq,
            blocked_reason: copy_opt(&self.blocked_reason),
        }
    }
}


// ---------------------------------------------------------------------------
// Event types
// ---------------------------------------------------------------------------

/// Logged when a thread is created.
#[derive(Debug, Clone)]
pub struct ThreadCreatedEvent {
    pub event: String,
    pub id: u32,
    pub slug: String,
    pub priority: Priority,
    pub description: String,
    pub timestamp: u64,
}

/// Logged when a thread becomes the active one.
#[derive(Debug, Clone)]
pub struct ThreadSwitchedEvent {
    pub event: String,
    pub active_id: u32,
    pub paused_ids: Vec<u32>,
    pub timestamp: u64,
}

/// Logged when a thread starts waiting.
#[derive(Debug, Clone)]
pub struct ThreadWaitedEvent {
    pub event: String,
    pub id: u32,
    pub reason: Option<String>,
    pub timestamp: u64,
}

/// Logged when a waiting thread is resumed.
#[derive(Debug, Clone)]
pub struct ThreadResumedEvent {
    pub event: String,
    pub id: u32,
    pub note: Option<String>,
    pub timestamp: u64,
}

/// Logged when a thread's slug, priority or description changes.
#[derive(Debug, Clone)]
pub struct ThreadUpdatedEvent {
    pub event: String,
    pub id: u32,
    pub slug: String,
    pub priority: Priority,
    pub description: String,
    pub timestamp: u64,
}

// ---------------------------------------------------------------------------
// JSON-RPC 2.0 types
// ---------------------------------------------------------------------------

/// `serde_json::Value`, declared so that requests and responses can carry
/// JSON parameters and results. Nothing is claimed of it: the library only
/// moves such values from one place to another.
#[verifier::external_type_specification]
#[verifier::external_body]
pub struct ExJsonValue(serde_json::Value);

/// A request as it travels over the socket.
#[derive(Debug)]
pub struct JsonRpcRequest {
    pub jsonrpc: String,
    pub id: u64,
    pub method: String,
    pub params: serde_json::Value,
}

/// A response: exactly one of `result` and `error` is present.
#[derive(Debug)]
pub struct JsonRpcResponse {
    pub jsonrpc: String,
    pub id: u64,
    pub result: Option<serde_json::Value>,
    pub error: Option<JsonRpcError>,
}

/// The error member of a response.
#[derive(Debug, Clone, PartialEq, Eq)]
pub struct JsonRpcError {
    pub code: i64,
    pub message: String,
}

impl JsonRpcResponse {
    /// A successful response carrying `result`.
    pub fn success(id: u64, result: serde_json::Value) -> (r: Self)
        ensures
            r.jsonrpc@ == "2.0"@,
            r.id == id,
            r.result == Some(result),
            r.error is None,
    {
        JsonRpcResponse { jsonrpc: String::from_str("2.0"), id, result: Some(result), error: None }
    }

    /// An error response with the given code and message.
    pub fn error(id: u64, code: i64, message: String) -> (r: Self)
        ensures
            r.jsonrpc@ == "2.0"@,
            r.id == id,
            r.result is None,
            r.error matches Some(e) && e.code == code && e.message@ == message@,
    {
        JsonRpcResponse {
            jsonrpc: String::from_str("2.0"),
            id,
            result: None,
            error: Some(JsonRpcError { code, message }),
        }
    }
}

impl JsonRpcRequest {
    /// The request the client sends for `method` (it numbers every request 1).
    pub fn call(method: &str, params: serde_json::Value) -> (r: Self)
        ensures
            r.jsonrpc@ == "2.0"@,
            r.id == 1,
            r.method@ == method@,
            r.params == params,
    {
        JsonRpcRequest { jsonrpc: String::from_str("2.0"), id: 1, method: String::from_str(method), params }
    }
}

/// What the client makes of a response: the error's message if there is an
/// error, else the result, else a note that the response is empty.
pub open spec fn outcome_spec(r: JsonRpcResponse) -> Result<serde_json::Value, Seq<char>> {
    match r.error {
        Some(e) => Err(e.message@),
        None => match r.result {
            Some(v) => Ok(v),
            None => Err("Empty response"@),
        },
    }
}

impl JsonRpcResponse {
    /// The result of a call, or the message it failed with.
    pub fn into_outcome(self) -> (r: Result<serde_json::Value, String>)
        ensures
            match (r, outcome_spec(self)) {
                (Ok(v), Ok(w)) => v == w,
                (Err(m), Err(n)) => m@ == n,
                _ => false,
            },
    {
        match self.error {
            Some(e) => Err(e.message),
            None => match self.result {
                Some(v) => Ok(v),
                None => Err(String::from_str("Empty response")),
            },
        }
    }
}

} // verus!
