use tsk_core::cli::{cli_request, context_line, context_lines, CliCommand, ListedThread, ParamValue, Request};
use tsk_core::protocol::Method;

fn params(r: &Request) -> Vec<(String, String)> {
    r.params
        .iter()
        .map(|p| {
            let v = match &p.value {
                ParamValue::Text(s) => s.clone(),
                ParamValue::Number(n) => format!("#{}", n),
            };
            (p.key.clone(), v)
        })
        .collect()
}

fn pairs(xs: &[(&str, &str)]) -> Vec<(String, String)> {
    xs.iter().map(|(k, v)| (k.to_string(), v.to_string())).collect()
}

#[test]
fn thread_create_sends_all_three_fields() {
    let r = cli_request(CliCommand::ThreadCreate {
        slug: "fix-login".to_string(),
        priority: "PRIO".to_string(),
        description: "Fix it".to_string(),
    })
    .unwrap();
    assert_eq!(r.method, Method::ThreadCreate);
    assert_eq!(params(&r), pairs(&[("slug", "fix-login"), ("priority", "PRIO"), ("description", "Fix it")]));
}

#[test]
fn cli_thread_update_rejects_invalid_priority() {
    let r = cli_request(CliCommand::ThreadUpdate {
        id: "1".to_string(),
        slug: None,
        description: None,
        priority: Some("URGENT".to_string()),
    });
    assert_eq!(r.err(), Some("Invalid priority 'URGENT'. Use BG, PRIO, or INC".to_string()));
    let r = cli_request(CliCommand::ThreadCreate {
        slug: "x".to_string(),
        priority: "low".to_string(),
        description: "".to_string(),
    });
    assert_eq!(r.err(), Some("Invalid priority 'low'. Use BG, PRIO, or INC".to_string()));
}

#[test]
fn optional_fields_are_sent_only_when_given() {
    let r = cli_request(CliCommand::ThreadUpdate {
        id: "1".to_string(),
        slug: None,
        description: Some("d".to_string()),
        priority: Some("INC".to_string()),
    })
    .unwrap();
    assert_eq!(r.method, Method::ThreadUpdate);
    assert_eq!(params(&r), pairs(&[("id", "1"), ("description", "d"), ("priority", "INC")]));
    let r = cli_request(CliCommand::ThreadWait { id: "2".to_string(), reason: None }).unwrap();
    assert_eq!(params(&r), pairs(&[("id", "2")]));
    let r = cli_request(CliCommand::ThreadResume { id: "2".to_string(), note: Some("ok".to_string()) }).unwrap();
    assert_eq!(r.method, Method::ThreadResume);
    assert_eq!(params(&r), pairs(&[("id", "2"), ("note", "ok")]));
    let r = cli_request(CliCommand::ThreadList).unwrap();
    assert_eq!(r.method, Method::ThreadList);
    assert!(r.params.is_empty());
}

#[test]
fn task_commands_build_their_requests() {
    let r = cli_request(CliCommand::TaskCreate {
        description: "write".to_string(),
        due_by: Some("2026-03-15".to_string()),
        thread: Some("docs".to_string()),
    })
    .unwrap();
    assert_eq!(r.method, Method::TaskCreate);
    assert_eq!(params(&r), pairs(&[("description", "write"), ("due_by", "2026-03-15"), ("thread", "docs")]));
    let r = cli_request(CliCommand::TaskBlock {
        id: "TSK-0001-0001".to_string(),
        reason: "ci".to_string(),
        thread: None,
    })
    .unwrap();
    assert_eq!(r.method, Method::TaskBlock);
    assert_eq!(params(&r), pairs(&[("id", "TSK-0001-0001"), ("reason", "ci")]));
    let r = cli_request(CliCommand::TaskUpdate {
        id: "TSK-0001-0001".to_string(),
        description: None,
        due_by: None,
        seq: Some(3),
        thread: Some("1".to_string()),
    })
    .unwrap();
    assert_eq!(params(&r), pairs(&[("id", "TSK-0001-0001"), ("seq", "#3"), ("thread", "1")]));
    let r = cli_request(CliCommand::TaskList { thread: None }).unwrap();
    assert_eq!(r.method, Method::TaskList);
    assert!(r.params.is_empty());
    for (cmd, m) in [
        (CliCommand::TaskStart { id: "x".to_string(), thread: None }, Method::TaskStart),
        (CliCommand::TaskComplete { id: "x".to_string(), thread: None }, Method::TaskComplete),
        (CliCommand::TaskCancel { id: "x".to_string(), thread: None }, Method::TaskCancel),
        (CliCommand::ThreadSwitchTo { id: "x".to_string() }, Method::ThreadSwitchTo),
    ] {
        let r = cli_request(cmd).unwrap();
        assert_eq!(r.method, m);
        assert_eq!(params(&r), pairs(&[("id", "x")]));
    }
}

#[test]
fn context_line_aligns_columns() {
    let t = ListedThread {
        id: Some(1),
        slug: Some("fix-login".to_string()),
        state: Some("active".to_string()),
        priority: Some("PRIO".to_string()),
        description: Some("Fix it".to_string()),
    };
    assert_eq!(
        context_line(&t),
        format!("- {:04} {:20} {:6} {:6} {}", 1, "fix-login", "PRIO", "active", "Fix it")
    );
    let missing = ListedThread { id: None, slug: None, state: None, priority: None, description: None };
    assert_eq!(context_line(&missing), format!("- {:04} {:20} {:6} {:6} {}", 0, "?", "?", "?", ""));
    let long = ListedThread {
        id: Some(123456),
        slug: Some("a-slug-longer-than-twenty".to_string()),
        state: Some("waiting".to_string()),
        priority: Some("BG".to_string()),
        description: Some("".to_string()),
    };
    assert_eq!(
        context_line(&long),
        format!("- {:04} {:20} {:6} {:6} {}", 123456, "a-slug-longer-than-twenty", "BG", "waiting", "")
    );
}

#[test]
fn context_lists_threads_or_says_there_are_none() {
    assert_eq!(context_lines(&vec![]), vec!["No threads exist yet.".to_string()]);
    let t = ListedThread {
        id: Some(2),
        slug: Some("b".to_string()),
        state: Some("paused".to_string()),
        priority: Some("BG".to_string()),
        description: None,
    };
    assert_eq!(context_lines(&vec![t]), vec![format!("- {:04} {:20} {:6} {:6} {}", 2, "b", "BG", "paused", "")]);
}
