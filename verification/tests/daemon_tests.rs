use tsk_core::date::utc_date;
use tsk_core::index_md::{index_md_content, lines_of, update_index_md};
use tsk_core::model::{JsonRpcError, Priority, Task, TaskState, Thread, ThreadState};
use tsk_core::protocol::Method;
use tsk_core::tasks::{
    active_thread_index, find_task, select_thread, task_create, task_transition, task_update, tasks_by_seq,
    TaskAction,
};
use tsk_core::threads::{
    apply_thread_update, create_would_add, ids_fit, next_id, plan_thread_create, plan_thread_update, reference_number,
    resolve_thread_idx, thread_resume, thread_switch_to, thread_wait,
};

fn thread(id: u32, slug: &str, state: ThreadState, priority: Priority) -> Thread {
    Thread { id, slug: slug.to_string(), state, priority, description: "".to_string() }
}

fn s(x: &str) -> Option<String> {
    Some(x.to_string())
}

fn error(code: i64, message: &str) -> JsonRpcError {
    JsonRpcError { code, message: message.to_string() }
}

fn registry() -> Vec<Thread> {
    vec![
        thread(1, "fix-login", ThreadState::Active, Priority::Priority),
        thread(2, "docs", ThreadState::Paused, Priority::Background),
        thread(3, "outage", ThreadState::Waiting { reason: s("vendor") }, Priority::Incident),
    ]
}

// --- dates ---

#[test]
fn utc_date_of_the_epoch() {
    assert_eq!(utc_date(0), "1970-01-01");
    assert_eq!(utc_date(86399), "1970-01-01");
    assert_eq!(utc_date(86400), "1970-01-02");
}

#[test]
fn utc_date_handles_leap_days_and_centuries() {
    assert_eq!(utc_date(68256000), "1972-03-01");
    assert_eq!(utc_date(951782400), "2000-02-29");
    assert_eq!(utc_date(951868800), "2000-03-01");
    assert_eq!(utc_date(1709164800), "2024-02-29");
    assert_eq!(utc_date(1700000000), "2023-11-14");
    assert_eq!(utc_date(4102444800), "2100-01-01");
}

#[test]
fn utc_date_far_years() {
    assert_eq!(utc_date(253402300799), "9999-12-31");
    assert_eq!(utc_date(253402300800), "10000-01-01");
    assert_eq!(utc_date(u64::MAX), "584554051223-11-09");
}

// --- resolving thread references ---

#[test]
fn reference_numbers_ignore_leading_zeros() {
    assert_eq!(reference_number("1"), Some(1));
    assert_eq!(reference_number("0001"), Some(1));
    assert_eq!(reference_number("0"), Some(0));
    assert_eq!(reference_number("+7"), Some(7));
    assert_eq!(reference_number("fix-login"), None);
    assert_eq!(reference_number("4294967296"), None);
}

#[test]
fn resolve_by_number_or_slug() {
    let ts = registry();
    assert_eq!(resolve_thread_idx(&ts, "1"), Some(0));
    assert_eq!(resolve_thread_idx(&ts, "0002"), Some(1));
    assert_eq!(resolve_thread_idx(&ts, "outage"), Some(2));
    assert_eq!(resolve_thread_idx(&ts, "9"), None);
    assert_eq!(resolve_thread_idx(&ts, "nope"), None);
}

#[test]
fn next_id_is_one_above_the_largest() {
    assert_eq!(next_id(&vec![]), 1);
    let ts = vec![
        thread(3, "a", ThreadState::Paused, Priority::Background),
        thread(7, "b", ThreadState::Paused, Priority::Background),
        thread(5, "c", ThreadState::Paused, Priority::Background),
    ];
    assert_eq!(next_id(&ts), 8);
}

// --- thread.create ---

#[test]
fn create_gives_a_paused_thread_with_the_next_id() {
    let ts = registry();
    let t = plan_thread_create(&ts, s("new-one"), s("BG"), s("desc")).unwrap();
    assert_eq!(t.id, 4);
    assert_eq!(t.slug, "new-one");
    assert_eq!(t.state, ThreadState::Paused);
    assert_eq!(t.priority, Priority::Background);
    assert_eq!(t.description, "desc");
    let t = plan_thread_create(&ts, s("x"), s("INC"), None).unwrap();
    assert_eq!(t.description, "");
}

#[test]
fn create_refuses_bad_requests() {
    let ts = registry();
    assert_eq!(plan_thread_create(&ts, None, s("BG"), None), Err(error(-32602, "Missing slug")));
    assert_eq!(plan_thread_create(&ts, s("x"), None, None), Err(error(-32602, "Missing priority")));
    assert_eq!(
        plan_thread_create(&ts, s("x"), s("LOW"), None),
        Err(error(-32602, "Invalid priority 'LOW'. Use BG, PRIO, or INC"))
    );
    assert_eq!(plan_thread_create(&ts, s("docs"), s("BG"), None), Err(error(-32600, "slug already exists")));
}

#[test]
fn index_md_scaffold() {
    let md = index_md_content(3, "fix-login", "PRIO", "2024-02-29", "Fix it");
    assert_eq!(
        md,
        "# 0003 fix-login\n\n- **Priority**: PRIO\n- **Created**: 2024-02-29\n- **Description**: Fix it\n\n## Notes\n\n"
    );
}

// --- thread.switch_to ---

#[test]
fn switch_activates_target_and_pauses_others_but_waiting() {
    let mut ts = registry();
    let o = thread_switch_to(&mut ts, s("docs")).unwrap();
    assert_eq!(o.index, 1);
    assert_eq!(o.paused_ids, vec![1, 3]);
    assert_eq!(ts[0].state, ThreadState::Paused);
    assert_eq!(ts[1].state, ThreadState::Active);
    assert_eq!(ts[2].state, ThreadState::Waiting { reason: s("vendor") });
}

#[test]
fn switch_errors_leave_the_registry_alone() {
    let mut ts = registry();
    assert_eq!(thread_switch_to(&mut ts, None).err(), Some(error(-32602, "Missing id")));
    assert_eq!(thread_switch_to(&mut ts, s("ghost")).err(), Some(error(-32604, "Thread not found: ghost")));
    assert_eq!(ts, registry());
}

// --- thread.update ---

#[test]
fn update_plans_and_applies_changes() {
    let mut ts = registry();
    let plan = plan_thread_update(&ts, s("2"), s("handbook"), s("Write it"), s("PRIO")).unwrap();
    assert_eq!(plan.index, 1);
    assert!(plan.renames);
    apply_thread_update(&mut ts, plan);
    assert_eq!(ts[1].slug, "handbook");
    assert_eq!(ts[1].description, "Write it");
    assert_eq!(ts[1].priority, Priority::Priority);
    assert_eq!(ts[1].state, ThreadState::Paused);
}

#[test]
fn update_with_no_fields_is_a_noop() {
    let mut ts = registry();
    let plan = plan_thread_update(&ts, s("docs"), None, None, None).unwrap();
    assert!(!plan.renames);
    apply_thread_update(&mut ts, plan);
    assert_eq!(ts, registry());
}

#[test]
fn update_to_the_same_slug_does_not_rename() {
    let ts = registry();
    let plan = plan_thread_update(&ts, s("docs"), s("docs"), None, None).unwrap();
    assert!(!plan.renames);
}

#[test]
fn update_refuses_bad_requests() {
    let ts = registry();
    assert_eq!(plan_thread_update(&ts, None, None, None, None).err(), Some(error(-32602, "Missing id")));
    assert_eq!(
        plan_thread_update(&ts, s("docs"), None, None, s("HIGH")).err(),
        Some(error(-32602, "Invalid priority 'HIGH'. Use BG, PRIO, or INC"))
    );
    assert_eq!(
        plan_thread_update(&ts, s("ghost"), None, None, None).err(),
        Some(error(-32604, "Thread not found: ghost"))
    );
    assert_eq!(
        plan_thread_update(&ts, s("docs"), s("outage"), None, None).err(),
        Some(error(-32600, "slug already exists"))
    );
}

#[test]
fn update_index_md_rewrites_header_lines() {
    let md = index_md_content(2, "docs", "BG", "2024-01-01", "old");
    let out = update_index_md(&md, "handbook", "PRIO", "new");
    assert_eq!(
        out,
        "# 0002 handbook\n\n- **Priority**: PRIO\n- **Created**: 2024-01-01\n- **Description**: new\n\n## Notes\n"
    );
}

#[test]
fn update_index_md_keeps_other_lines() {
    assert_eq!(update_index_md("#\nplain\r\nline", "s", "BG", "d"), "#\nplain\nline");
    assert_eq!(update_index_md("# only", "s", "BG", "d"), "# only s");
    assert_eq!(update_index_md("", "s", "BG", "d"), "");
}

#[test]
fn lines_follow_str_lines() {
    assert_eq!(lines_of("a\nb\r\n\nc"), vec!["a", "b", "", "c"]);
    assert_eq!(lines_of("a\n"), vec!["a"]);
    assert_eq!(lines_of(""), Vec::<String>::new());
}

// --- thread.wait / thread.resume ---

#[test]
fn wait_then_resume() {
    let mut ts = registry();
    assert_eq!(thread_wait(&mut ts, s("fix-login"), s("review")), Ok(0));
    assert_eq!(ts[0].state, ThreadState::Waiting { reason: s("review") });
    assert_eq!(thread_resume(&mut ts, s("1")), Ok(0));
    assert_eq!(ts[0].state, ThreadState::Paused);
}

#[test]
fn wait_and_resume_refusals() {
    let mut ts = registry();
    assert_eq!(thread_wait(&mut ts, s("outage"), None), Err(error(-32600, "Thread is already waiting")));
    assert_eq!(thread_resume(&mut ts, s("docs")), Err(error(-32600, "Thread is not waiting")));
    assert_eq!(thread_wait(&mut ts, None, None), Err(error(-32602, "Missing id")));
    assert_eq!(thread_resume(&mut ts, s("zzz")), Err(error(-32604, "Thread not found: zzz")));
    assert_eq!(ts, registry());
}

// --- tasks ---

#[test]
fn task_thread_defaults_to_the_active_one() {
    let ts = registry();
    assert_eq!(select_thread(&ts, None), Ok(0));
    assert_eq!(select_thread(&ts, s("docs")), Ok(1));
    assert_eq!(select_thread(&ts, s("nope")), Err(error(-32604, "Thread not found: nope")));
    let idle = vec![thread(1, "a", ThreadState::Paused, Priority::Background)];
    assert_eq!(select_thread(&idle, None), Err(error(-32600, "No active thread")));
    assert_eq!(active_thread_index(&idle), None);
}

#[test]
fn tasks_get_sequential_ids() {
    let mut tasks: Vec<Task> = Vec::new();
    assert_eq!(task_create(&mut tasks, 1, s("first"), None), Ok(0));
    assert_eq!(task_create(&mut tasks, 1, s("second"), s("2026-03-15")), Ok(1));
    assert_eq!(tasks[0].id, "TSK-0001-0001");
    assert_eq!(tasks[1].id, "TSK-0001-0002");
    assert_eq!(tasks[1].seq, 2);
    assert_eq!(tasks[1].due_by, s("2026-03-15"));
    assert_eq!(tasks[0].state, TaskState::NotStarted);
    assert_eq!(task_create(&mut tasks, 1, None, None), Err(error(-32602, "Missing description")));
    assert_eq!(tasks.len(), 2);
    assert_eq!(find_task(&tasks, "TSK-0001-0002"), Some(1));
    assert_eq!(find_task(&tasks, "TSK-0001-0003"), None);
}

#[test]
fn task_life_cycle() {
    let mut tasks: Vec<Task> = Vec::new();
    task_create(&mut tasks, 2, s("work"), None).unwrap();
    let id = s("TSK-0002-0001");
    assert_eq!(
        task_transition(&mut tasks, id.clone(), TaskAction::Block { reason: s("x") }),
        Err(error(-32600, "Cannot block a task that is not-started"))
    );
    assert_eq!(task_transition(&mut tasks, id.clone(), TaskAction::Start), Ok(0));
    assert_eq!(tasks[0].state, TaskState::InProgress);
    assert_eq!(task_transition(&mut tasks, id.clone(), TaskAction::Block { reason: s("waiting on CI") }), Ok(0));
    assert_eq!(tasks[0].state, TaskState::Blocked);
    assert_eq!(tasks[0].blocked_reason, s("waiting on CI"));
    assert_eq!(task_transition(&mut tasks, id.clone(), TaskAction::Start), Ok(0));
    assert_eq!(tasks[0].state, TaskState::InProgress);
    assert_eq!(tasks[0].blocked_reason, None);
    assert_eq!(task_transition(&mut tasks, id.clone(), TaskAction::Complete), Ok(0));
    assert_eq!(tasks[0].state, TaskState::Done);
    assert_eq!(task_transition(&mut tasks, id.clone(), TaskAction::Cancel), Ok(0));
    assert_eq!(tasks[0].state, TaskState::Cancelled);
    assert_eq!(
        task_transition(&mut tasks, id.clone(), TaskAction::Complete),
        Err(error(-32600, "Cannot complete a task that is cancelled"))
    );
    assert_eq!(
        task_transition(&mut tasks, s("TSK-9"), TaskAction::Start),
        Err(error(-32604, "Task not found: TSK-9"))
    );
    assert_eq!(task_transition(&mut tasks, None, TaskAction::Start), Err(error(-32602, "Missing id")));
}

#[test]
fn block_requires_a_reason() {
    let mut tasks: Vec<Task> = Vec::new();
    task_create(&mut tasks, 2, s("work"), None).unwrap();
    task_transition(&mut tasks, s("TSK-0002-0001"), TaskAction::Start).unwrap();
    assert_eq!(
        task_transition(&mut tasks, s("TSK-0002-0001"), TaskAction::Block { reason: None }),
        Err(error(-32602, "Missing reason"))
    );
    assert_eq!(tasks[0].state, TaskState::InProgress);
}

#[test]
fn task_update_changes_fields() {
    let mut tasks: Vec<Task> = Vec::new();
    task_create(&mut tasks, 1, s("a"), None).unwrap();
    assert_eq!(task_update(&mut tasks, s("TSK-0001-0001"), s("b"), s("2026-01-01"), Some(9)), Ok(0));
    assert_eq!(tasks[0].description, "b");
    assert_eq!(tasks[0].due_by, s("2026-01-01"));
    assert_eq!(tasks[0].seq, 9);
    assert_eq!(
        task_update(&mut tasks, s("TSK-0001-0002"), None, None, None),
        Err(error(-32604, "Task not found: TSK-0001-0002"))
    );
}

#[test]
fn task_list_is_sorted_by_seq() {
    let mut tasks: Vec<Task> = Vec::new();
    task_create(&mut tasks, 1, s("a"), None).unwrap();
    task_create(&mut tasks, 1, s("b"), None).unwrap();
    task_create(&mut tasks, 1, s("c"), None).unwrap();
    task_update(&mut tasks, s("TSK-0001-0001"), None, None, Some(5)).unwrap();
    task_update(&mut tasks, s("TSK-0001-0003"), None, None, Some(2)).unwrap();
    let listed: Vec<String> = tasks_by_seq(&tasks).into_iter().map(|t| t.description).collect();
    assert_eq!(listed, vec!["b", "c", "a"]);
}

// --- methods ---

#[test]
fn methods_are_found_by_name() {
    assert_eq!(Method::from_name("thread.create"), Ok(Method::ThreadCreate));
    assert_eq!(Method::from_name("task.update"), Ok(Method::TaskUpdate));
    assert_eq!(Method::from_name("thread.delete"), Err(error(-32601, "Method not found")));
    for m in [
        Method::ThreadCreate, Method::ThreadList, Method::ThreadSwitchTo, Method::ThreadUpdate,
        Method::ThreadWait, Method::ThreadResume, Method::TaskCreate, Method::TaskList, Method::TaskStart,
        Method::TaskBlock, Method::TaskComplete, Method::TaskCancel, Method::TaskUpdate,
    ] {
        assert_eq!(Method::from_name(m.name()), Ok(m));
    }
}

#[test]
fn create_needs_a_free_id_only_when_it_adds() {
    let ts = registry();
    assert!(ids_fit(&ts));
    assert!(create_would_add(&ts, &s("new"), &s("BG")));
    assert!(!create_would_add(&ts, &s("docs"), &s("BG")));
    assert!(!create_would_add(&ts, &s("new"), &s("XX")));
    assert!(!create_would_add(&ts, &None, &s("BG")));
    let full = vec![thread(u32::MAX, "last", ThreadState::Paused, Priority::Background)];
    assert!(!ids_fit(&full));
}

#[test]
fn dates_never_go_back() {
    let mut prev = utc_date(0);
    let mut s: u64 = 0;
    while s < 5_000_000_000 {
        let d = utc_date(s);
        assert!(d >= prev, "{} came after {}", d, prev);
        assert_eq!(utc_date(s - s % 86400), d);
        prev = d;
        s += 3_999_977;
    }
}
