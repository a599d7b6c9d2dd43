use tsk_core::model::{JsonRpcRequest, JsonRpcResponse, Priority, Task, TaskState, Thread, ThreadState};
use tsk_core::protocol::parse_error_response;
use tsk_core::paths::{
    event_log_dir, event_log_path, index_path, socket_path, tasks_path, thread_dir, threads_dir, tsk_dir,
};

fn thread(id: u32, slug: &str, state: ThreadState, priority: Priority) -> Thread {
    Thread { id, slug: slug.to_string(), state, priority, description: "".to_string() }
}

#[test]
fn thread_id_str_zero_pads_to_four_digits() {
    let t = Thread {
        id: 1,
        slug: "fix-login".to_string(),
        state: ThreadState::Active,
        priority: Priority::Priority,
        description: "Fix it".to_string(),
    };
    assert_eq!(t.id_str(), "0001");
}

#[test]
fn thread_id_str_handles_larger_numbers() {
    let t = Thread {
        id: 42,
        slug: "foo".to_string(),
        state: ThreadState::Paused,
        priority: Priority::Background,
        description: "".to_string(),
    };
    assert_eq!(t.id_str(), "0042");
}

#[test]
fn thread_id_str_keeps_all_digits_past_four() {
    assert_eq!(thread(12345, "x", ThreadState::Paused, Priority::Background).id_str(), "12345");
    assert_eq!(thread(0, "x", ThreadState::Paused, Priority::Background).id_str(), "0000");
}

#[test]
fn priority_from_str_parses_abbreviations() {
    assert_eq!("BG".parse::<Priority>().unwrap(), Priority::Background);
    assert_eq!("PRIO".parse::<Priority>().unwrap(), Priority::Priority);
    assert_eq!("INC".parse::<Priority>().unwrap(), Priority::Incident);
    assert!("unknown".parse::<Priority>().is_err());
}

#[test]
fn cli_validates_priority() {
    assert!("BG".parse::<Priority>().is_ok());
    assert!("PRIO".parse::<Priority>().is_ok());
    assert!("INC".parse::<Priority>().is_ok());
    assert!("NORMAL".parse::<Priority>().is_err());
}

#[test]
fn priority_parse_error_names_the_input() {
    assert_eq!(
        Priority::parse("bg"),
        Err("Invalid priority 'bg'. Use BG, PRIO, or INC".to_string())
    );
    assert_eq!(Priority::parse(""), Err("Invalid priority ''. Use BG, PRIO, or INC".to_string()));
}

#[test]
fn priority_expands_to_full_names() {
    assert_eq!(Priority::Background.full_name(), "background");
    assert_eq!(Priority::Priority.full_name(), "priority");
    assert_eq!(Priority::Incident.full_name(), "incident");
}

#[test]
fn priority_display_shows_abbreviation() {
    assert_eq!(Priority::Background.to_string(), "BG");
    assert_eq!(Priority::Priority.to_string(), "PRIO");
    assert_eq!(Priority::Incident.to_string(), "INC");
}

#[test]
fn priority_abbreviation_reads_back() {
    for p in [Priority::Background, Priority::Priority, Priority::Incident] {
        assert_eq!(Priority::parse(p.abbrev()), Ok(p));
    }
}

#[test]
fn waiting_state_display_shows_waiting() {
    let state = ThreadState::Waiting { reason: Some("blocked".to_string()) };
    assert_eq!(state.to_string(), "waiting");
}

#[test]
fn other_thread_states_display_their_names() {
    assert_eq!(ThreadState::Active.to_string(), "active");
    assert_eq!(ThreadState::Paused.to_string(), "paused");
    assert_eq!(ThreadState::Waiting { reason: None }.to_string(), "waiting");
}

#[test]
fn thread_dir_uses_zero_padded_id() {
    let dir = thread_dir("/proj", 1, "fix-login");
    assert!(dir.contains("0001-fix-login"));
}

#[test]
fn storage_paths_are_laid_out_under_tsk() {
    assert_eq!(tsk_dir("/proj"), "/proj/tsk");
    assert_eq!(event_log_dir("/proj"), "/proj/tsk/event-log");
    assert_eq!(event_log_path("/proj"), "/proj/tsk/event-log/events.ndjson");
    assert_eq!(threads_dir("/proj"), "/proj/tsk/threads");
    assert_eq!(index_path("/proj"), "/proj/tsk/threads/index.json");
    assert_eq!(thread_dir("/proj", 7, "x"), "/proj/tsk/threads/0007-x");
    assert_eq!(tasks_path("/proj", 7, "x"), "/proj/tsk/threads/0007-x/tasks.json");
}

#[test]
fn task_make_id_formats_correctly() {
    assert_eq!(Task::make_id(1, 1), "TSK-0001-0001");
    assert_eq!(Task::make_id(42, 100), "TSK-0042-0100");
}

#[test]
fn task_state_display() {
    assert_eq!(TaskState::NotStarted.to_string(), "not-started");
    assert_eq!(TaskState::InProgress.to_string(), "in-progress");
    assert_eq!(TaskState::Blocked.to_string(), "blocked");
    assert_eq!(TaskState::Done.to_string(), "done");
    assert_eq!(TaskState::Cancelled.to_string(), "cancelled");
}

#[test]
fn tasks_path_is_inside_thread_dir() {
    let path = tasks_path("/proj", 1, "fix-login");
    assert!(path.contains("0001-fix-login"));
    assert!(path.ends_with("tasks.json"));
}

#[test]
fn socket_path_is_under_tmp() {
    let path = socket_path("/some/project");
    assert!(path.starts_with("/tmp/"));
    let name = path.rsplit('/').next().unwrap();
    assert!(name.starts_with("tsk-"));
    assert!(name.ends_with(".sock"));
}

#[test]
fn socket_path_is_deterministic_for_same_root() {
    let p1 = socket_path("/some/project");
    let p2 = socket_path("/some/project");
    assert_eq!(p1, p2);
}

#[test]
fn socket_path_differs_for_different_roots() {
    let p1 = socket_path("/project/a");
    let p2 = socket_path("/project/b");
    assert_ne!(p1, p2);
}

#[test]
fn socket_path_holds_the_first_hash_bytes_in_hex() {
    // SHA-256 of the empty string starts with e3b0c442.
    assert_eq!(socket_path(""), "/tmp/tsk-e3b0c442.sock");
    // SHA-256 of "abc" starts with ba7816bf.
    assert_eq!(socket_path("abc"), "/tmp/tsk-ba7816bf.sock");
}

#[test]
fn jsonrpc_success_response_has_result_no_error() {
    let resp = JsonRpcResponse::success(1, serde_json::Value::Bool(true));
    assert_eq!(resp.jsonrpc, "2.0");
    assert_eq!(resp.id, 1);
    assert_eq!(resp.result, Some(serde_json::Value::Bool(true)));
    assert!(resp.error.is_none());
}

#[test]
fn jsonrpc_error_response_has_error_no_result() {
    let resp = JsonRpcResponse::error(1, -32600, "slug already exists".to_string());
    assert_eq!(resp.id, 1);
    assert!(resp.result.is_none());
    let e = resp.error.unwrap();
    assert_eq!(e.code, -32600);
    assert_eq!(e.message, "slug already exists");
}

#[test]
fn client_requests_are_numbered_one() {
    let r = JsonRpcRequest::call("thread.list", serde_json::Value::Null);
    assert_eq!(r.jsonrpc, "2.0");
    assert_eq!(r.id, 1);
    assert_eq!(r.method, "thread.list");
    assert_eq!(r.params, serde_json::Value::Null);
}

#[test]
fn response_outcomes() {
    let ok = JsonRpcResponse::success(1, serde_json::Value::from(5));
    assert_eq!(ok.into_outcome(), Ok(serde_json::Value::from(5)));
    let err = JsonRpcResponse::error(1, -32604, "Thread not found: x".to_string());
    assert_eq!(err.into_outcome(), Err("Thread not found: x".to_string()));
    let empty = JsonRpcResponse { jsonrpc: "2.0".to_string(), id: 1, result: None, error: None };
    assert_eq!(empty.into_outcome(), Err("Empty response".to_string()));
}

#[test]
fn unparsable_requests_get_a_parse_error() {
    let r = parse_error_response("expected value at line 1 column 1");
    assert_eq!(r.id, 0);
    assert!(r.result.is_none());
    let e = r.error.unwrap();
    assert_eq!(e.code, -32700);
    assert_eq!(e.message, "Parse error: expected value at line 1 column 1");
}
