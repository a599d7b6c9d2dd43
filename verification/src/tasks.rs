//! Tasks within a thread: which thread a task request is about, and how
//! requests create, move and edit the tasks of that thread.
//!
//! Tasks are numbered in the order they are created: the n-th task of
//! thread `t` has the id `TSK-{t:04}-{n:04}` and starts with sequence
//! number `n`, which only orders the listing.

use vstd::prelude::*;
use crate::model::{
    opt_view, task_id_of, task_state_name, tasks_view, threads_view, JsonRpcError, Task,
    TaskState, TaskView, Thread, ThreadView,
};
use crate::order::{is_stable_order, stable_order};
use crate::text::str_eq;
use crate::model::id4;
use crate::threads::{
    lemma_number_reads_back, err, make_error, not_found_error, resolve_spec, resolve_thread_idx, thread_not_found,
    ErrorView, INVALID_PARAMS, INVALID_REQUEST, NOT_FOUND,
};

verus! {

// ---------------------------------------------------------------------------
// Which thread
// ---------------------------------------------------------------------------

/// `r` is the first active thread of `ts`, or `None` when none is active.
pub open spec fn first_active(ts: Seq<ThreadView>, r: Option<usize>) -> bool {
    match r {
        Some(i) => i < ts.len() && ts[i as int].state is Active
            && forall|j: int| 0 <= j < i ==> !(#[trigger] ts[j].state is Active),
        None => forall|j: int| 0 <= j < ts.len() ==> !(#[trigger] ts[j].state is Active),
    }
}

/// The position of the first active thread, if there is one.
pub open spec fn first_active_index(ts: Seq<ThreadView>) -> Option<usize> {
    if exists|i: usize| first_active(ts, Some(i)) {
        Some(choose|i: usize| first_active(ts, Some(i)))
    } else {
        None
    }
}

/// There is exactly one answer to "which is the first active thread".
pub proof fn lemma_first_active_index(ts: Seq<ThreadView>, r: Option<usize>)
    requires
        first_active(ts, r),
    ensures
        first_active_index(ts) == r,
{
    match r {
        Some(i) => {
            let j = choose|j: usize| first_active(ts, Some(j));
            if j < i {
                assert(ts[j as int].state is Active);
            } else if i < j {
                assert(ts[i as int].state is Active);
            }
        },
        None => {
            if exists|i: usize| first_active(ts, Some(i)) {
                let j = choose|j: usize| first_active(ts, Some(j));
                assert(ts[j as int].state is Active);
            }
        },
    }
}

/// The thread a task request is about: the one named by `thread`, or the
/// active thread when no thread is named.
pub open spec fn task_thread_outcome(ts: Seq<ThreadView>, thread: Option<Seq<char>>, r: Result<usize, ErrorView>) -> bool {
    match thread {
        Some(s) => match resolve_spec(ts, s) {
            Some(i) => r == Ok::<usize, ErrorView>(i),
            None => r == Err::<usize, ErrorView>(not_found_error(s)),
        },
        None => match r {
            Ok(i) => first_active(ts, Some(i)),
            Err(e) => first_active(ts, None) && e == err(INVALID_REQUEST, "No active thread"@),
        },
    }
}

/// The position of the first active thread, if there is one.
pub fn active_thread_index(threads: &Vec<Thread>) -> (r: Option<usize>)
    ensures
        first_active(threads_view(threads@), r),
        r == first_active_index(threads_view(threads@)),
{
    let mut i: usize = 0;
    while i < threads.len()
        invariant
            i <= threads@.len(),
            forall|j: int| 0 <= j < i ==> !(#[trigger] threads_view(threads@)[j].state is Active),
        decreases threads.len() - i,
    {
        assert(threads_view(threads@)[i as int] == threads@[i as int]@);
        if threads[i].state.is_active() {
            proof {
                lemma_first_active_index(threads_view(threads@), Some(i));
            }
            return Some(i);
        }
        i = i + 1;
    }
    proof {
        lemma_first_active_index(threads_view(threads@), None);
    }
    None
}

/// Picks the thread of a task request.
pub fn select_thread(threads: &Vec<Thread>, thread: Option<String>) -> (r: Result<usize, JsonRpcError>)
    ensures
        task_thread_outcome(threads_view(threads@), opt_view(thread), match r {
            Ok(i) => Ok(i),
            Err(e) => Err(e@),
        }),
{
    match thread {
        Some(s) => match resolve_thread_idx(threads, s.as_str()) {
            Some(i) => Ok(i),
            None => Err(thread_not_found(s.as_str())),
        },
        None => match active_thread_index(threads) {
            Some(i) => Ok(i),
            None => Err(make_error(INVALID_REQUEST, "No active thread")),
        },
    }
}

// ---------------------------------------------------------------------------
// Task list invariant
// ---------------------------------------------------------------------------

/// The tasks of thread `tid` as the daemon keeps them: the task at `i` has
/// the id of the `(i+1)`-th task, and only a blocked task has a reason.
pub open spec fn tasks_wf(tid: u32, ts: Seq<TaskView>) -> bool {
    &&& forall|i: int| 0 <= i < ts.len() ==> (#[trigger] ts[i]).id == task_id_of(tid, (i + 1) as u32)
    &&& forall|i: int| 0 <= i < ts.len() && (#[trigger] ts[i]).blocked_reason is Some ==> ts[i].state == TaskState::Blocked
}

// ---------------------------------------------------------------------------
// task.create
// ---------------------------------------------------------------------------

/// The task created as the `(n+1)`-th of thread `tid`.
pub open spec fn new_task(tid: u32, n: nat, description: Seq<char>, due_by: Option<Seq<char>>) -> TaskView {
    TaskView {
        id: task_id_of(tid, (n + 1) as u32),
        description,
        state: TaskState::NotStarted,
        due_by,
        seq: (n + 1) as u32,
        blocked_reason: None,
    }
}

/// `task.create`: appends a not-started task to the thread's tasks and
/// gives its index. A description is required.
pub fn task_create(
    tasks: &mut Vec<Task>,
    thread_id: u32,
    description: Option<String>,
    due_by: Option<String>,
) -> (r: Result<usize, JsonRpcError>)
    requires
        old(tasks)@.len() < u32::MAX,
    ensures
        match r {
            Ok(i) => {
                &&& description is Some
                &&& i == old(tasks)@.len()
                &&& tasks_view(final(tasks)@) == tasks_view(old(tasks)@).push(
                    new_task(thread_id, old(tasks)@.len(), description->0@, opt_view(due_by)))
            },
            Err(e) => {
                &&& description is None
                &&& e@ == err(INVALID_PARAMS, "Missing description"@)
                &&& final(tasks)@ == old(tasks)@
            },
        },
{
    let description = match description {
        Some(d) => d,
        None => return Err(make_error(INVALID_PARAMS, "Missing description")),
    };
    let n = tasks.len();
    let seq = (n + 1) as u32;
    let task = Task {
        id: Task::make_id(thread_id, seq),
        description,
        state: TaskState::NotStarted,
        due_by,
        seq,
        blocked_reason: None,
    };
    tasks.push(task);
    assert(tasks_view(tasks@) =~= tasks_view(old(tasks)@).push(
        new_task(thread_id, old(tasks)@.len(), task.description@, opt_view(task.due_by))));
    Ok(n)
}

// ---------------------------------------------------------------------------
// Finding a task
// ---------------------------------------------------------------------------

/// `r` is the first index of a task with id `id`, or `None` if there is none.
pub open spec fn finds_task(ts: Seq<TaskView>, id: Seq<char>, r: Option<usize>) -> bool {
    match r {
        Some(i) => i < ts.len() && ts[i as int].id == id
            && forall|j: int| 0 <= j < i ==> (#[trigger] ts[j]).id != id,
        None => forall|j: int| 0 <= j < ts.len() ==> (#[trigger] ts[j]).id != id,
    }
}

/// The index of the task with id `id`.
pub open spec fn find_task_spec(ts: Seq<TaskView>, id: Seq<char>) -> Option<usize> {
    if exists|i: usize| #[trigger] finds_task(ts, id, Some(i)) {
        Some(choose|i: usize| #[trigger] finds_task(ts, id, Some(i)))
    } else {
        None
    }
}

proof fn lemma_finds_task_unique(ts: Seq<TaskView>, id: Seq<char>, r: Option<usize>)
    requires
        finds_task(ts, id, r),
    ensures
        r == find_task_spec(ts, id),
{
    match r {
        Some(i) => {
            assert(finds_task(ts, id, Some(i)));
            let k = choose|k: usize| #[trigger] finds_task(ts, id, Some(k));
            if k < i {
                assert(ts[k as int].id != id);
            } else if i < k {
                assert(ts[i as int].id != id);
            }
        },
        None => {
            if exists|i: usize| #[trigger] finds_task(ts, id, Some(i)) {
                let k = choose|k: usize| #[trigger] finds_task(ts, id, Some(k));
                assert(ts[k as int].id == id);
            }
        },
    }
}

/// The index of the task with the given id, if there is one.
pub fn find_task(tasks: &Vec<Task>, id: &str) -> (r: Option<usize>)
    ensures
        r == find_task_spec(tasks_view(tasks@), id@),
{
    let ghost tv = tasks_view(tasks@);
    let mut i: usize = 0;
    while i < tasks.len()
        invariant
            i <= tasks@.len(),
            tv == tasks_view(tasks@),
            forall|j: int| 0 <= j < i ==> (#[trigger] tv[j]).id != id@,
        decreases tasks.len() - i,
    {
        if str_eq(tasks[i].id.as_str(), id) {
            proof {
                lemma_finds_task_unique(tv, id@, Some(i));
            }
            return Some(i);
        }
        i = i + 1;
    }
    proof {
        lemma_finds_task_unique(tv, id@, None);
    }
    None
}

/// The error for a task id that names no task.
pub open spec fn task_not_found_error(id: Seq<char>) -> ErrorView {
    err(NOT_FOUND, "Task not found: "@ + id)
}

fn task_not_found(id: &str) -> (r: JsonRpcError)
    ensures
        r@ == task_not_found_error(id@),
{
    let mut m = String::from_str("Task not found: ");
    m.append(id);
    JsonRpcError { code: NOT_FOUND, message: m }
}

// ---------------------------------------------------------------------------
// State transitions
// ---------------------------------------------------------------------------

/// A move of a task through its life cycle.
pub enum TaskAction {
    /// not-started or blocked → in-progress (clears the blocked reason)
    Start,
    /// in-progress → blocked, with a reason
    Block { reason: Option<String> },
    /// not-started, in-progress or blocked → done
    Complete,
    /// any state → cancelled
    Cancel,
}

/// The name of an action, as it appears in a refusal.
pub open spec fn action_verb(a: TaskAction) -> Seq<char> {
    match a {
        TaskAction::Start => "start"@,
        TaskAction::Block { .. } => "block"@,
        TaskAction::Complete => "complete"@,
        TaskAction::Cancel => "cancel"@,
    }
}

/// Whether a task in state `s` can take action `a`.
pub open spec fn action_allowed(s: TaskState, a: TaskAction) -> bool {
    match a {
        TaskAction::Start => s == TaskState::NotStarted || s == TaskState::Blocked,
        TaskAction::Block { .. } => s == TaskState::InProgress,
        TaskAction::Complete => s == TaskState::NotStarted || s == TaskState::InProgress || s == TaskState::Blocked,
        TaskAction::Cancel => true,
    }
}

/// A task after an allowed action: its new state, and a blocked reason only
/// when it is now blocked.
pub open spec fn after_action(t: TaskView, a: TaskAction) -> TaskView {
    match a {
        TaskAction::Start => TaskView { state: TaskState::InProgress, blocked_reason: None, ..t },
        TaskAction::Block { reason } => TaskView { state: TaskState::Blocked, blocked_reason: opt_view(reason), ..t },
        TaskAction::Complete => TaskView { state: TaskState::Done, blocked_reason: None, ..t },
        TaskAction::Cancel => TaskView { state: TaskState::Cancelled, blocked_reason: None, ..t },
    }
}

/// The refusal of an action that the task's state does not allow.
pub open spec fn refusal(a: TaskAction, s: TaskState) -> ErrorView {
    err(INVALID_REQUEST, "Cannot "@ + action_verb(a) + " a task that is "@ + task_state_name(s))
}

/// What a transition request answers: the index of the task it moves, or
/// why it refuses (missing id, missing reason for a block, unknown task,
/// or a state that does not allow the action).
pub open spec fn transition_outcome(ts: Seq<TaskView>, id: Option<Seq<char>>, a: TaskAction) -> Result<usize, ErrorView> {
    match id {
        None => Err(err(INVALID_PARAMS, "Missing id"@)),
        Some(s) => if a matches TaskAction::Block { reason } && reason is None {
            Err(err(INVALID_PARAMS, "Missing reason"@))
        } else {
            match find_task_spec(ts, s) {
                None => Err(task_not_found_error(s)),
                Some(i) => if action_allowed(ts[i as int].state, a) {
                    Ok(i)
                } else {
                    Err(refusal(a, ts[i as int].state))
                },
            }
        },
    }
}

proof fn lemma_find_in_range(ts: Seq<TaskView>, id: Seq<char>)
    ensures
        find_task_spec(ts, id) matches Some(i) ==> i < ts.len() && ts[i as int].id == id,
{
    if exists|i: usize| #[trigger] finds_task(ts, id, Some(i)) {
        let k = choose|k: usize| #[trigger] finds_task(ts, id, Some(k));
        assert(finds_task(ts, id, Some(k)));
    }
}

/// `task.start`, `task.block`, `task.complete` and `task.cancel`: moves the
/// task with the given id and gives its index.
pub fn task_transition(tasks: &mut Vec<Task>, id: Option<String>, action: TaskAction) -> (r: Result<usize, JsonRpcError>)
    ensures
        match (r, transition_outcome(tasks_view(old(tasks)@), opt_view(id), action)) {
            (Ok(i), Ok(j)) => i == j && tasks_view(final(tasks)@) == tasks_view(old(tasks)@).update(
                i as int, after_action(tasks_view(old(tasks)@)[i as int], action)),
            (Err(e), Err(v)) => e@ == v && final(tasks)@ == old(tasks)@,
            _ => false,
        },
{
    let id = match id {
        Some(s) => s,
        None => return Err(make_error(INVALID_PARAMS, "Missing id")),
    };
    if let TaskAction::Block { reason: None } = &action {
        return Err(make_error(INVALID_PARAMS, "Missing reason"));
    }
    let idx = match find_task(tasks, id.as_str()) {
        Some(i) => i,
        None => return Err(task_not_found(id.as_str())),
    };
    proof {
        lemma_find_in_range(tasks_view(tasks@), id@);
    }
    let state = tasks[idx].state;
    let allowed = match &action {
        TaskAction::Start => state == TaskState::NotStarted || state == TaskState::Blocked,
        TaskAction::Block { .. } => state == TaskState::InProgress,
        TaskAction::Complete => state == TaskState::NotStarted || state == TaskState::InProgress || state == TaskState::Blocked,
        TaskAction::Cancel => true,
    };
    if !allowed {
        let mut m = String::from_str("Cannot ");
        match &action {
            TaskAction::Start => m.append("start"),
            TaskAction::Block { .. } => m.append("block"),
            TaskAction::Complete => m.append("complete"),
            TaskAction::Cancel => m.append("cancel"),
        }
        m.append(" a task that is ");
        let name = state.to_string();
        m.append(name.as_str());
        return Err(JsonRpcError { code: INVALID_REQUEST, message: m });
    }
    let mut t = tasks[idx].copy();
    match action {
        TaskAction::Start => {
            t.state = TaskState::InProgress;
            t.blocked_reason = None;
        },
        TaskAction::Block { reason } => {
            t.state = TaskState::Blocked;
            t.blocked_reason = reason;
        },
        TaskAction::Complete => {
            t.state = TaskState::Done;
            t.blocked_reason = None;
        },
        TaskAction::Cancel => {
            t.state = TaskState::Cancelled;
            t.blocked_reason = None;
        },
    }
    tasks.set(idx, t);
    assert(tasks_view(tasks@) =~= tasks_view(old(tasks)@).update(
        idx as int, after_action(tasks_view(old(tasks)@)[idx as int], action)));
    Ok(idx)
}


// ---------------------------------------------------------------------------
// task.update
// ---------------------------------------------------------------------------

/// A task with its description, due date and sequence number replaced
/// where a new value is given.
pub open spec fn updated_task(
    t: TaskView,
    description: Option<Seq<char>>,
    due_by: Option<Seq<char>>,
    seq: Option<u32>,
) -> TaskView {
    TaskView {
        description: match description { Some(d) => d, None => t.description },
        due_by: match due_by { Some(d) => Some(d), None => t.due_by },
        seq: match seq { Some(n) => n, None => t.seq },
        ..t
    }
}

/// What `task.update` answers: the index of the task, or why it refuses.
pub open spec fn update_task_outcome(ts: Seq<TaskView>, id: Option<Seq<char>>) -> Result<usize, ErrorView> {
    match id {
        None => Err(err(INVALID_PARAMS, "Missing id"@)),
        Some(s) => match find_task_spec(ts, s) {
            None => Err(task_not_found_error(s)),
            Some(i) => Ok(i),
        },
    }
}

/// `task.update`: changes the description, due date or sequence number of
/// a task and gives its index.
pub fn task_update(
    tasks: &mut Vec<Task>,
    id: Option<String>,
    description: Option<String>,
    due_by: Option<String>,
    seq: Option<u32>,
) -> (r: Result<usize, JsonRpcError>)
    ensures
        match (r, update_task_outcome(tasks_view(old(tasks)@), opt_view(id))) {
            (Ok(i), Ok(j)) => i == j && tasks_view(final(tasks)@) == tasks_view(old(tasks)@).update(
                i as int, updated_task(tasks_view(old(tasks)@)[i as int], opt_view(description), opt_view(due_by), seq)),
            (Err(e), Err(v)) => e@ == v && final(tasks)@ == old(tasks)@,
            _ => false,
        },
{
    let id = match id {
        Some(s) => s,
        None => return Err(make_error(INVALID_PARAMS, "Missing id")),
    };
    let idx = match find_task(tasks, id.as_str()) {
        Some(i) => i,
        None => return Err(task_not_found(id.as_str())),
    };
    proof {
        lemma_find_in_range(tasks_view(tasks@), id@);
    }
    let mut t = tasks[idx].copy();
    match description {
        Some(d) => { t.description = d; },
        None => {},
    }
    match due_by {
        Some(d) => { t.due_by = Some(d); },
        None => {},
    }
    match seq {
        Some(n) => { t.seq = n; },
        None => {},
    }
    tasks.set(idx, t);
    assert(tasks_view(tasks@) =~= tasks_view(old(tasks)@).update(
        idx as int, updated_task(tasks_view(old(tasks)@)[idx as int], opt_view(description), opt_view(due_by), seq)));
    Ok(idx)
}

// ---------------------------------------------------------------------------
// task.list
// ---------------------------------------------------------------------------

/// The sequence numbers of a list of tasks.
pub open spec fn seq_keys(ts: Seq<TaskView>) -> Seq<u64> {
    ts.map_values(|t: TaskView| t.seq as u64)
}

/// `r` is `ts` listed by sequence number: `r[k]` is `ts[order[k]]` for a
/// stable order of the sequence numbers.
pub open spec fn listed_by_seq(ts: Seq<TaskView>, r: Seq<TaskView>) -> bool {
    exists|order: Seq<usize>| #[trigger] is_stable_order(seq_keys(ts), order)
        && r == order.map_values(|k: usize| ts[k as int])
}

/// `task.list`: the tasks ordered by sequence number; tasks with equal
/// numbers keep the order in which they were created.
pub fn tasks_by_seq(tasks: &Vec<Task>) -> (r: Vec<Task>)
    ensures
        listed_by_seq(tasks_view(tasks@), tasks_view(r@)),
{
    let ghost tv = tasks_view(tasks@);
    let mut keys: Vec<u64> = Vec::new();
    let mut i: usize = 0;
    while i < tasks.len()
        invariant
            i <= tasks@.len(),
            tv == tasks_view(tasks@),
            keys@ == seq_keys(tv.take(i as int)),
        decreases tasks.len() - i,
    {
        keys.push(tasks[i].seq as u64);
        assert(keys@ =~= seq_keys(tv.take(i + 1)));
        i = i + 1;
    }
    assert(tv.take(tasks.len() as int) =~= tv);
    let order = stable_order(&keys);
    let mut r: Vec<Task> = Vec::new();
    let mut k: usize = 0;
    while k < order.len()
        invariant
            k <= order@.len(),
            tv == tasks_view(tasks@),
            is_stable_order(seq_keys(tv), order@),
            tasks_view(r@) == order@.take(k as int).map_values(|x: usize| tv[x as int]),
        decreases order.len() - k,
    {
        assert(order@[k as int] < tv.len());
        let ghost prev = r@;
        let t = tasks[order[k]].copy();
        assert(t@ == tv[order@[k as int] as int]);
        r.push(t);
        assert(r@ =~= prev.push(t));
        assert(tasks_view(r@) =~= tasks_view(prev).push(t@));
        assert(order@.take(k + 1) =~= order@.take(k as int).push(order@[k as int]));
        assert(tasks_view(r@) =~= order@.take(k + 1).map_values(|x: usize| tv[x as int]));
        k = k + 1;
    }
    assert(order@.take(order.len() as int) =~= order@);
    r
}


// ---------------------------------------------------------------------------
// Laws of task lists
// ---------------------------------------------------------------------------

/// Creating, moving and editing tasks keep a task list well formed: ids
/// stay those of creation order, and only blocked tasks have a reason.
pub proof fn law_task_ops_keep_wf(
    tid: u32,
    ts: Seq<TaskView>,
    i: int,
    description: Seq<char>,
    due_by: Option<Seq<char>>,
    a: TaskAction,
    new_description: Option<Seq<char>>,
    new_due_by: Option<Seq<char>>,
    new_seq: Option<u32>,
)
    requires
        tasks_wf(tid, ts),
        0 <= i < ts.len(),
    ensures
        tasks_wf(tid, ts.push(new_task(tid, ts.len(), description, due_by))),
        tasks_wf(tid, ts.update(i, after_action(ts[i], a))),
        tasks_wf(tid, ts.update(i, updated_task(ts[i], new_description, new_due_by, new_seq))),
{
    let c = ts.push(new_task(tid, ts.len(), description, due_by));
    assert forall|k: int| 0 <= k < c.len() implies (#[trigger] c[k]).id == task_id_of(tid, (k + 1) as u32) by {
        if k < ts.len() {
            assert(c[k] == ts[k]);
        }
    }
    let m = ts.update(i, after_action(ts[i], a));
    assert forall|k: int| 0 <= k < m.len() implies (#[trigger] m[k]).id == task_id_of(tid, (k + 1) as u32) by {
        assert(ts[k].id == task_id_of(tid, (k + 1) as u32));
    }
    assert forall|k: int| 0 <= k < m.len() && (#[trigger] m[k]).blocked_reason is Some implies m[k].state == TaskState::Blocked by {
        if k != i {
            assert(ts[k].blocked_reason is Some);
        }
    }
    let u = ts.update(i, updated_task(ts[i], new_description, new_due_by, new_seq));
    assert forall|k: int| 0 <= k < u.len() implies (#[trigger] u[k]).id == task_id_of(tid, (k + 1) as u32) by {
        assert(ts[k].id == task_id_of(tid, (k + 1) as u32));
    }
    assert forall|k: int| 0 <= k < u.len() && (#[trigger] u[k]).blocked_reason is Some implies u[k].state == TaskState::Blocked by {
        assert(ts[k].blocked_reason is Some);
    }
}

/// Different task numbers give different ids.
pub proof fn lemma_task_id_injective(tid: u32, a: u32, b: u32)
    requires
        task_id_of(tid, a) == task_id_of(tid, b),
    ensures
        a == b,
{
    let pre = "TSK-"@ + id4(tid) + "-"@;
    assert(task_id_of(tid, a) =~= pre + id4(a));
    assert(task_id_of(tid, b) =~= pre + id4(b));
    assert((pre + id4(a)).skip(pre.len() as int) =~= id4(a));
    assert((pre + id4(b)).skip(pre.len() as int) =~= id4(b));
    lemma_number_reads_back(a);
    lemma_number_reads_back(b);
}

/// In a well-formed task list every task is found by its id.
pub proof fn law_task_found_by_id(tid: u32, ts: Seq<TaskView>, i: int)
    requires
        tasks_wf(tid, ts),
        0 <= i < ts.len(),
        ts.len() < u32::MAX,
    ensures
        find_task_spec(ts, ts[i].id) == Some(i as usize),
{
    assert forall|j: int| 0 <= j < i implies (#[trigger] ts[j]).id != ts[i].id by {
        if ts[j].id == ts[i].id {
            assert(ts[j].id == task_id_of(tid, (j + 1) as u32));
            assert(ts[i].id == task_id_of(tid, (i + 1) as u32));
            lemma_task_id_injective(tid, (j + 1) as u32, (i + 1) as u32);
        }
    }
    lemma_finds_task_unique(ts, ts[i].id, Some(i as usize));
}

/// In a well-formed task list any task can be cancelled, and a cancelled
/// task can then only be cancelled again: starting, blocking or completing
/// it is refused.
pub proof fn law_cancel_is_final(tid: u32, ts: Seq<TaskView>, i: int, reason: Option<String>)
    requires
        tasks_wf(tid, ts),
        0 <= i < ts.len(),
        ts.len() < u32::MAX,
    ensures
        transition_outcome(ts, Some(ts[i].id), TaskAction::Cancel) == Ok::<usize, ErrorView>(i as usize),
        ({
            let after = ts.update(i, after_action(ts[i], TaskAction::Cancel));
            &&& transition_outcome(after, Some(ts[i].id), TaskAction::Start) == Err::<usize, ErrorView>(refusal(TaskAction::Start, TaskState::Cancelled))
            &&& transition_outcome(after, Some(ts[i].id), TaskAction::Complete) == Err::<usize, ErrorView>(refusal(TaskAction::Complete, TaskState::Cancelled))
            &&& (reason is Some ==> transition_outcome(after, Some(ts[i].id), TaskAction::Block { reason }) == Err::<usize, ErrorView>(refusal(TaskAction::Block { reason }, TaskState::Cancelled)))
            &&& transition_outcome(after, Some(ts[i].id), TaskAction::Cancel) == Ok::<usize, ErrorView>(i as usize)
        }),
{
    law_task_found_by_id(tid, ts, i);
    let after = ts.update(i, after_action(ts[i], TaskAction::Cancel));
    law_task_ops_keep_wf(tid, ts, i, Seq::empty(), None, TaskAction::Cancel, None, None, None);
    law_task_found_by_id(tid, after, i);
}

/// The life cycle of a task, as a table: a task that is found and whose
/// request is complete can be started only when not started or blocked,
/// blocked only when in progress, completed unless it is done or
/// cancelled, and cancelled always; an allowed move takes it to in
/// progress, blocked (with the given reason), done or cancelled, and clears
/// the reason of any other move; a refused move is answered with the
/// refusal that names the action and the task's state.
pub proof fn law_task_life_cycle(ts: Seq<TaskView>, id: Seq<char>, a: TaskAction)
    requires
        find_task_spec(ts, id) is Some,
        !(a matches TaskAction::Block { reason } && reason is None),
    ensures
        ({
            let i = find_task_spec(ts, id)->0 as int;
            let st = ts[i].state;
            let allowed = match a {
                TaskAction::Start => st == TaskState::NotStarted || st == TaskState::Blocked,
                TaskAction::Block { .. } => st == TaskState::InProgress,
                TaskAction::Complete => st != TaskState::Done && st != TaskState::Cancelled,
                TaskAction::Cancel => true,
            };
            let after = after_action(ts[i], a);
            &&& (transition_outcome(ts, Some(id), a) is Ok <==> allowed)
            &&& (!allowed ==> transition_outcome(ts, Some(id), a) == Err::<usize, ErrorView>(err(
                INVALID_REQUEST, "Cannot "@ + action_verb(a) + " a task that is "@ + task_state_name(st))))
            &&& after.id == ts[i].id && after.description == ts[i].description
            &&& after.due_by == ts[i].due_by && after.seq == ts[i].seq
            &&& after.state == match a {
                TaskAction::Start => TaskState::InProgress,
                TaskAction::Block { .. } => TaskState::Blocked,
                TaskAction::Complete => TaskState::Done,
                TaskAction::Cancel => TaskState::Cancelled,
            }
            &&& after.blocked_reason == match a {
                TaskAction::Block { reason } => opt_view(reason),
                _ => None,
            }
        }),
{
    lemma_find_in_range(ts, id);
}

/// `task.update` changes only the fields it is given: a new description,
/// due date or sequence number replaces the old one, an absent one keeps
/// it, and the task's id, state and blocked reason stay; the other tasks
/// are untouched.
pub proof fn law_task_update_changes_only_given_fields(
    ts: Seq<TaskView>,
    id: Seq<char>,
    description: Option<Seq<char>>,
    due_by: Option<Seq<char>>,
    seq: Option<u32>,
)
    requires
        find_task_spec(ts, id) is Some,
    ensures
        ({
            let i = find_task_spec(ts, id)->0 as int;
            let after = ts.update(i, updated_task(ts[i], description, due_by, seq));
            &&& update_task_outcome(ts, Some(id)) == Ok::<usize, ErrorView>(i as usize)
            &&& after.len() == ts.len()
            &&& forall|j: int| 0 <= j < ts.len() && j != i ==> #[trigger] after[j] == ts[j]
            &&& after[i].id == ts[i].id && after[i].state == ts[i].state
            &&& after[i].blocked_reason == ts[i].blocked_reason
            &&& after[i].description == match description { Some(d) => d, None => ts[i].description }
            &&& after[i].due_by == match due_by { Some(d) => Some(d), None => ts[i].due_by }
            &&& after[i].seq == match seq { Some(n) => n, None => ts[i].seq }
        }),
{
    lemma_find_in_range(ts, id);
}

} // verus!
