use tsk_core::help::{help_area, help_bindings, help_key_cell, Area, HelpFor};
use tsk_core::layout::{
    build_ordered_threads, count_rows, count_task_rows, data_line, pad, row_to_thread_index, scroll_bottom,
    scroll_down, sort_tasks, task_data_line, task_state_symbol, tasks_pane_lines, tasks_status_text,
    threads_pane_lines, threads_status_text, top_border, bottom_border, ColWidths, LineStyle, TaskColWidths,
};
use tsk_core::model::{Priority, Task, TaskState, Thread, ThreadState};
use tsk_core::navigation::{handle_input, Effect, Input, Key, Pane, ViewState};

fn thread(id: u32, slug: &str, state: ThreadState, priority: Priority) -> Thread {
    Thread { id, slug: slug.to_string(), state, priority, description: "".to_string() }
}

fn task(n: u32, description: &str, state: TaskState) -> Task {
    Task {
        id: Task::make_id(1, n),
        description: description.to_string(),
        state,
        due_by: None,
        seq: n,
        blocked_reason: None,
    }
}

fn key(c: char) -> Input {
    Input::Key { key: Key::Char(c), ctrl: false }
}

// --- scrolling ---

#[test]
fn scroll_down_clamps_to_max() {
    assert_eq!(scroll_down(0, 10, 24, 5), 0);
    assert_eq!(scroll_down(0, 30, 24, 10), 6);
    assert_eq!(scroll_down(4, 30, 24, 10), 6);
}

#[test]
fn scroll_down_advances_by_amount() {
    assert_eq!(scroll_down(0, 30, 24, 3), 3);
    assert_eq!(scroll_down(2, 30, 24, 3), 5);
}

#[test]
fn scroll_bottom_goes_to_last_page() {
    assert_eq!(scroll_bottom(30, 24), 6);
    assert_eq!(scroll_bottom(10, 24), 0);
}

// --- rows of the threads pane ---

#[test]
fn count_rows_empty_threads() {
    assert_eq!(count_rows(&vec![]), 0);
}

#[test]
fn count_rows_one_active() {
    let t = Thread {
        id: 1,
        slug: "foo".to_string(),
        state: ThreadState::Active,
        priority: Priority::Priority,
        description: "".to_string(),
    };
    assert_eq!(count_rows(&vec![t]), 4);
}

#[test]
fn count_rows_two_sections() {
    let active = Thread {
        id: 1, slug: "a".to_string(), state: ThreadState::Active,
        priority: Priority::Priority, description: "".to_string(),
    };
    let paused = Thread {
        id: 2, slug: "b".to_string(), state: ThreadState::Paused,
        priority: Priority::Background, description: "".to_string(),
    };
    assert_eq!(count_rows(&vec![active, paused]), 9);
}

#[test]
fn count_rows_three_sections() {
    let ts = vec![
        thread(1, "a", ThreadState::Active, Priority::Background),
        thread(2, "b", ThreadState::Paused, Priority::Incident),
        thread(3, "c", ThreadState::Waiting { reason: None }, Priority::Background),
        thread(4, "d", ThreadState::Paused, Priority::Background),
    ];
    assert_eq!(count_rows(&ts), 4 + 1 + 4 + 1 + 5);
}

#[test]
fn ordered_threads_group_by_section() {
    let ts = vec![
        thread(1, "bg", ThreadState::Paused, Priority::Background),
        thread(2, "prio", ThreadState::Paused, Priority::Priority),
        thread(3, "inc", ThreadState::Waiting { reason: None }, Priority::Incident),
        thread(4, "act", ThreadState::Active, Priority::Background),
    ];
    let ids: Vec<u32> = build_ordered_threads(&ts).iter().map(|t| t.id).collect();
    assert_eq!(ids, vec![4, 3, 2, 1]);
}

#[test]
fn rows_map_to_threads() {
    let ts = vec![
        thread(1, "a", ThreadState::Active, Priority::Priority),
        thread(2, "b", ThreadState::Paused, Priority::Background),
    ];
    let expected = [None, None, Some(0), None, None, None, None, Some(1), None, None];
    for (row, want) in expected.iter().enumerate() {
        assert_eq!(row_to_thread_index(&ts, row), *want);
    }
}

#[test]
fn pane_lines_match_counted_rows() {
    let ts = vec![
        thread(1, "a", ThreadState::Active, Priority::Priority),
        thread(2, "b", ThreadState::Paused, Priority::Background),
        thread(3, "c", ThreadState::Paused, Priority::Incident),
    ];
    let lines = threads_pane_lines(&ts, 80, 0);
    assert_eq!(lines.len(), count_rows(&ts));
    for row in 0..lines.len() {
        if let Some(k) = row_to_thread_index(&ts, row) {
            let t = build_ordered_threads(&ts)[k];
            assert!(lines[row].text.contains(&t.id_str()));
        }
    }
}

// --- table lines ---

#[test]
fn column_widths_follow_the_pane_width() {
    let w = ColWidths::from_area(100);
    assert_eq!((w.id, w.slug, w.state, w.prio, w.desc), (6, 40, 9, 6, 33));
    let w = ColWidths::from_area(67);
    assert_eq!((w.id, w.slug, w.state, w.prio, w.desc), (6, 40, 9, 6, 0));
    let w = ColWidths::from_area(60);
    assert_eq!((w.id, w.slug, w.state, w.prio, w.desc), (6, 40, 9, 0, 0));
    let w = ColWidths::from_area(20);
    assert_eq!((w.id, w.slug, w.state, w.prio, w.desc), (6, 11, 0, 0, 0));
    let w = ColWidths::from_area(5);
    assert_eq!((w.id, w.slug, w.state, w.prio, w.desc), (6, 1, 0, 0, 0));
    assert_eq!(ColWidths::from_area(60).active_widths(), vec![6, 40, 9]);
    assert_eq!(TaskColWidths::from_area(30).active_widths(), vec![6, 4, 16]);
    assert_eq!(TaskColWidths::from_area(3).active_widths(), vec![6, 4, 1]);
}

#[test]
fn pad_cuts_or_fills() {
    assert_eq!(pad("abc", 5), "abc  ");
    assert_eq!(pad("abcdef", 3), "abc");
    assert_eq!(pad("", 0), "");
}

#[test]
fn borders_and_rows() {
    let ws = ColWidths::from_area(20);
    assert_eq!(top_border(&ws), "\u{250c}\u{2500}\u{2500}\u{2500}\u{2500}\u{2500}\u{2500}\u{252c}\u{2500}\u{2500}\u{2500}\u{2500}\u{2500}\u{2500}\u{2500}\u{2500}\u{2500}\u{2500}\u{2500}\u{2510}");
    assert_eq!(bottom_border(&ws), "\u{2514}\u{2500}\u{2500}\u{2500}\u{2500}\u{2500}\u{2500}\u{2534}\u{2500}\u{2500}\u{2500}\u{2500}\u{2500}\u{2500}\u{2500}\u{2500}\u{2500}\u{2500}\u{2500}\u{2518}");
    assert_eq!(data_line("0001", "foo", "active", "PRIO", "d", &ws), "\u{2502} 0001 \u{2502} foo       \u{2502}");
    let tw = TaskColWidths::from_area(30);
    assert_eq!(task_data_line("1", "\u{2713}", "write", &tw), "\u{2502} 1    \u{2502} \u{2713}  \u{2502} write          \u{2502}");
}

#[test]
fn threads_pane_for_one_active_thread() {
    let ts = vec![thread(1, "foo", ThreadState::Active, Priority::Priority)];
    let lines = threads_pane_lines(&ts, 20, 0);
    let texts: Vec<&str> = lines.iter().map(|l| l.text.as_str()).collect();
    assert_eq!(texts, vec![
        "> Active",
        "\u{250c}\u{2500}\u{2500}\u{2500}\u{2500}\u{2500}\u{2500}\u{252c}\u{2500}\u{2500}\u{2500}\u{2500}\u{2500}\u{2500}\u{2500}\u{2500}\u{2500}\u{2500}\u{2500}\u{2510}",
        "\u{2502} 0001 \u{2502} foo       \u{2502}",
        "\u{2514}\u{2500}\u{2500}\u{2500}\u{2500}\u{2500}\u{2500}\u{2534}\u{2500}\u{2500}\u{2500}\u{2500}\u{2500}\u{2500}\u{2500}\u{2500}\u{2500}\u{2500}\u{2500}\u{2518}",
    ]);
    assert_eq!(lines[0].style, LineStyle::Bold);
    assert_eq!(lines[2].style, LineStyle::Selected);
    let unselected = threads_pane_lines(&ts, 20, 5);
    assert_eq!(unselected[2].style, LineStyle::Plain);
}

#[test]
fn status_bars() {
    let ts = vec![
        thread(2, "b", ThreadState::Paused, Priority::Background),
        thread(7, "fix", ThreadState::Active, Priority::Priority),
    ];
    assert_eq!(threads_status_text(&ts), "  #0007 fix   |   ? help   |   gt tasks");
    assert_eq!(threads_status_text(&vec![]), "  (no active thread)   |   ? help   |   gt tasks");
    assert_eq!(tasks_status_text(7, "fix"), "  #0007 fix > tasks   |   esc back   |   ? help");
}

// --- tasks pane ---

#[test]
fn tasks_sort_by_state_keeping_order() {
    let tasks = vec![
        task(1, "a", TaskState::Done),
        task(2, "b", TaskState::NotStarted),
        task(3, "c", TaskState::InProgress),
        task(4, "d", TaskState::Blocked),
        task(5, "e", TaskState::NotStarted),
        task(6, "f", TaskState::Cancelled),
    ];
    let order: Vec<&str> = sort_tasks(&tasks).iter().map(|t| t.description.as_str()).collect();
    assert_eq!(order, vec!["c", "d", "b", "e", "a", "f"]);
    assert_eq!(task_state_symbol(&TaskState::NotStarted), "\u{25cb}");
    assert_eq!(task_state_symbol(&TaskState::InProgress), "\u{25b6}");
    assert_eq!(task_state_symbol(&TaskState::Blocked), "\u{231b}");
    assert_eq!(task_state_symbol(&TaskState::Done), "\u{2713}");
    assert_eq!(task_state_symbol(&TaskState::Cancelled), "\u{2717}");
}

#[test]
fn task_rows_counted() {
    assert_eq!(count_task_rows(&vec![]), 4);
    assert_eq!(count_task_rows(&vec![task(1, "a", TaskState::Done), task(2, "b", TaskState::Done)]), 9);
}

#[test]
fn tasks_pane_lines_match_counted_rows() {
    let ts = vec![thread(1, "fix", ThreadState::Active, Priority::Priority)];
    let tasks = vec![task(1, "a", TaskState::Done), task(2, "b", TaskState::InProgress)];
    let lines = tasks_pane_lines(&ts, &tasks, 1, "fix", 30);
    assert_eq!(lines.len(), count_task_rows(&tasks));
    assert!(lines[1].text.contains(" #0001 fix  PRIO"));
    assert_eq!(lines[4].text, "> Tasks");
    assert!(lines[6].text.contains("\u{25b6}"));
    assert!(lines[7].text.contains("\u{2713}"));
    assert_eq!(lines[7].style, LineStyle::Dim);
    let empty = tasks_pane_lines(&ts, &vec![], 1, "fix", 30);
    assert_eq!(empty.len(), 5);
    assert_eq!(empty[3].text, "");
    assert_eq!(empty[4].text, "  No tasks yet. Use: tsk task create <description>");
}

// --- navigation ---

fn two_threads() -> Vec<Thread> {
    vec![
        thread(1, "a", ThreadState::Active, Priority::Priority),
        thread(2, "b", ThreadState::Paused, Priority::Background),
    ]
}

#[test]
fn q_quits_and_help_swallows_one_key() {
    let ts = two_threads();
    let mut s = ViewState::new();
    assert_eq!(handle_input(&mut s, key('?'), &ts, &vec![], 20), Effect::Continue);
    assert!(s.show_help);
    assert_eq!(handle_input(&mut s, key('q'), &ts, &vec![], 20), Effect::Continue);
    assert!(!s.show_help);
    assert_eq!(handle_input(&mut s, key('q'), &ts, &vec![], 20), Effect::Quit);
    assert_eq!(handle_input(&mut s, Input::Key { key: Key::Esc, ctrl: false }, &ts, &vec![], 20), Effect::Quit);
}

#[test]
fn selection_moves_within_the_list() {
    let ts = two_threads();
    let mut s = ViewState::new();
    handle_input(&mut s, key('j'), &ts, &vec![], 20);
    assert_eq!(s.selected, 1);
    handle_input(&mut s, Input::Key { key: Key::Down, ctrl: false }, &ts, &vec![], 20);
    assert_eq!(s.selected, 1);
    handle_input(&mut s, key('k'), &ts, &vec![], 20);
    assert_eq!(s.selected, 0);
    handle_input(&mut s, key('k'), &ts, &vec![], 20);
    assert_eq!(s.selected, 0);
    handle_input(&mut s, key('G'), &ts, &vec![], 5);
    assert_eq!(s.selected, 1);
    assert_eq!(s.scroll, 4);
    handle_input(&mut s, key('g'), &ts, &vec![], 5);
    assert!(s.last_g);
    handle_input(&mut s, key('g'), &ts, &vec![], 5);
    assert_eq!((s.selected, s.scroll, s.last_g), (0, 0, false));
}

#[test]
fn page_keys_scroll_the_threads_pane() {
    let ts = two_threads();
    let mut s = ViewState::new();
    handle_input(&mut s, Input::Key { key: Key::Char('d'), ctrl: true }, &ts, &vec![], 4);
    assert_eq!(s.scroll, 2);
    handle_input(&mut s, Input::Key { key: Key::Char('d'), ctrl: true }, &ts, &vec![], 4);
    assert_eq!(s.scroll, 4);
    handle_input(&mut s, Input::Key { key: Key::Char('d'), ctrl: false }, &ts, &vec![], 4);
    assert_eq!(s.scroll, 4);
    handle_input(&mut s, Input::Key { key: Key::Char('u'), ctrl: true }, &ts, &vec![], 4);
    assert_eq!(s.scroll, 2);
    handle_input(&mut s, Input::ScrollDown, &ts, &vec![], 4);
    assert_eq!(s.scroll, 5);
    handle_input(&mut s, Input::ScrollUp, &ts, &vec![], 4);
    assert_eq!(s.scroll, 2);
}

#[test]
fn enter_and_gt_open_tasks() {
    let ts = two_threads();
    let mut s = ViewState::new();
    handle_input(&mut s, key('j'), &ts, &vec![], 20);
    let e = handle_input(&mut s, Input::Key { key: Key::Enter, ctrl: false }, &ts, &vec![], 20);
    assert_eq!(e, Effect::LoadTasks { thread_id: 2 });
    assert!(matches!(&s.pane, Pane::Tasks { thread_id: 2, slug } if slug == "b"));
    let e = handle_input(&mut s, Input::Key { key: Key::Esc, ctrl: false }, &ts, &vec![], 20);
    assert_eq!(e, Effect::Continue);
    assert!(matches!(s.pane, Pane::Threads));
    handle_input(&mut s, key('g'), &ts, &vec![], 20);
    let e = handle_input(&mut s, key('t'), &ts, &vec![], 20);
    assert_eq!(e, Effect::LoadTasks { thread_id: 1 });
    assert_eq!(s.task_scroll, 0);
}

#[test]
fn t_without_g_does_nothing() {
    let ts = two_threads();
    let mut s = ViewState::new();
    assert_eq!(handle_input(&mut s, key('t'), &ts, &vec![], 20), Effect::Continue);
    assert!(matches!(s.pane, Pane::Threads));
}

#[test]
fn click_opens_the_thread_on_that_row() {
    let ts = two_threads();
    let mut s = ViewState::new();
    assert_eq!(handle_input(&mut s, Input::Click { row: 1 }, &ts, &vec![], 20), Effect::Continue);
    assert_eq!(handle_input(&mut s, Input::Click { row: 7 }, &ts, &vec![], 20), Effect::LoadTasks { thread_id: 2 });
}

#[test]
fn tasks_pane_keys() {
    let ts = two_threads();
    let tasks: Vec<Task> = (1..=30).map(|n| task(n, "t", TaskState::NotStarted)).collect();
    let mut s = ViewState::new();
    handle_input(&mut s, Input::Click { row: 2 }, &ts, &tasks, 10);
    handle_input(&mut s, key('j'), &ts, &tasks, 10);
    assert_eq!(s.task_scroll, 1);
    handle_input(&mut s, key('G'), &ts, &tasks, 10);
    assert_eq!(s.task_scroll, count_task_rows(&tasks) - 10);
    handle_input(&mut s, key('k'), &ts, &tasks, 10);
    assert_eq!(s.task_scroll, 26);
    handle_input(&mut s, key('g'), &ts, &tasks, 10);
    handle_input(&mut s, key('g'), &ts, &tasks, 10);
    assert_eq!(s.task_scroll, 0);
    handle_input(&mut s, Input::Key { key: Key::Char('o'), ctrl: true }, &ts, &tasks, 10);
    assert!(matches!(s.pane, Pane::Threads));
    handle_input(&mut s, Input::Click { row: 2 }, &ts, &tasks, 10);
    assert_eq!(handle_input(&mut s, key('q'), &ts, &tasks, 10), Effect::Quit);
}

// --- help popup ---

#[test]
fn help_popup_is_centred() {
    let big = Area { x: 0, y: 0, width: 100, height: 30 };
    assert_eq!(help_area(HelpFor::Threads, big), Area { x: 30, y: 7, width: 40, height: 16 });
    assert_eq!(help_area(HelpFor::Tasks, big), Area { x: 30, y: 8, width: 40, height: 14 });
    let small = Area { x: 2, y: 1, width: 30, height: 10 };
    assert_eq!(help_area(HelpFor::Threads, small), Area { x: 2, y: 1, width: 30, height: 10 });
}

#[test]
fn help_lists_the_bindings() {
    let b = help_bindings(HelpFor::Threads);
    assert_eq!(b.len(), 10);
    assert_eq!(b[0], ("j / \u{2193}", "move down"));
    assert_eq!(b[9], ("q / esc", "quit"));
    let b = help_bindings(HelpFor::Tasks);
    assert_eq!(b[6], ("esc", "back to threads"));
    assert_eq!(help_key_cell("gg"), "gg          ");
    assert_eq!(help_key_cell("a very long key"), "a very long key");
}

#[test]
fn each_thread_has_one_row_in_display_order() {
    let ts = vec![
        thread(1, "a", ThreadState::Paused, Priority::Background),
        thread(2, "b", ThreadState::Active, Priority::Priority),
        thread(3, "c", ThreadState::Paused, Priority::Incident),
        thread(4, "d", ThreadState::Waiting { reason: None }, Priority::Priority),
    ];
    let n = build_ordered_threads(&ts).len();
    let rows = count_rows(&ts);
    let mut found: Vec<usize> = Vec::new();
    for row in 0..rows + 5 {
        if let Some(k) = row_to_thread_index(&ts, row) {
            assert!(k < n);
            assert!(row < rows);
            found.push(k);
        }
    }
    assert_eq!(found, (0..n).collect::<Vec<usize>>());
}

#[test]
fn a_key_only_closes_the_help() {
    let ts = two_threads();
    let mut s = ViewState::new();
    handle_input(&mut s, key('j'), &ts, &vec![], 3);
    let (sel, scroll) = (s.selected, s.scroll);
    for k in [key('q'), Input::Key { key: Key::Esc, ctrl: false }, key('G'), key('g')] {
        handle_input(&mut s, key('?'), &ts, &vec![], 3);
        assert!(s.show_help);
        assert_eq!(handle_input(&mut s, k, &ts, &vec![], 3), Effect::Continue);
        assert!(!s.show_help);
        assert_eq!((s.selected, s.scroll, s.last_g), (sel, scroll, false));
        assert!(matches!(s.pane, Pane::Threads));
    }
}
