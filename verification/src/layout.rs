//! The layout of the terminal view: scrolling, the order in which threads
//! and tasks are listed, how many rows the panes take, and which thread a
//! row shows.

use vstd::prelude::*;
use crate::model::{
    abbrev_of, id4, state_name, threads_view, tasks_view, Priority, StateView, Task, TaskState,
    TaskView, Thread, ThreadView,
};
use crate::tasks::{active_thread_index, first_active_index};
use crate::text::{decimal, push_decimal, push_zero_padded};
use crate::text::{join_sep, push_char, push_joined, push_repeated};

verus! {

broadcast use vstd::seq_lib::group_seq_properties;

// ---------------------------------------------------------------------------
// Scrolling
// ---------------------------------------------------------------------------

/// The last scroll offset that still fills the view: rows beyond the
/// height, or 0 when everything fits.
pub open spec fn max_scroll(row_count: int, height: int) -> int {
    if row_count > height { row_count - height } else { 0 }
}

/// Scrolls down by `amount` rows, stopping at the last page.
pub fn scroll_down(scroll: usize, row_count: usize, height: usize, amount: usize) -> (r: usize)
    requires
        scroll + amount <= usize::MAX,
    ensures
        r == if scroll + amount < max_scroll(row_count as int, height as int) {
            scroll + amount
        } else {
            max_scroll(row_count as int, height as int)
        },
{
    let max = row_count.saturating_sub(height);
    let s = scroll + amount;
    if s < max { s } else { max }
}

/// Scrolls to the last page.
pub fn scroll_bottom(row_count: usize, height: usize) -> (r: usize)
    ensures
        r == max_scroll(row_count as int, height as int),
{
    row_count.saturating_sub(height)
}

// ---------------------------------------------------------------------------
// Thread groups
// ---------------------------------------------------------------------------

/// Paused or waiting.
pub open spec fn is_inactive(t: ThreadView) -> bool {
    t.state is Paused || t.state is Waiting
}

pub open spec fn is_active_thread(t: ThreadView) -> bool {
    t.state is Active
}

pub open spec fn is_incident(t: ThreadView) -> bool {
    is_inactive(t) && t.priority == Priority::Incident
}

pub open spec fn is_priority(t: ThreadView) -> bool {
    is_inactive(t) && t.priority == Priority::Priority
}

/// In the "Priority & Incidents" section.
pub open spec fn is_focus(t: ThreadView) -> bool {
    is_inactive(t) && (t.priority == Priority::Incident || t.priority == Priority::Priority)
}

/// In the "Background" section.
pub open spec fn is_background(t: ThreadView) -> bool {
    is_inactive(t) && t.priority == Priority::Background
}

/// The groups a thread can be listed in.
pub enum Group {
    Active,
    Incident,
    Priority,
    Focus,
    Background,
}

pub open spec fn in_group(g: Group, t: ThreadView) -> bool {
    match g {
        Group::Active => is_active_thread(t),
        Group::Incident => is_incident(t),
        Group::Priority => is_priority(t),
        Group::Focus => is_focus(t),
        Group::Background => is_background(t),
    }
}

pub open spec fn group_filter(ts: Seq<ThreadView>, g: Group) -> Seq<ThreadView> {
    ts.filter(|t: ThreadView| in_group(g, t))
}

fn thread_in_group(t: &Thread, g: &Group) -> (r: bool)
    ensures
        r == in_group(*g, t@),
{
    let inactive = match &t.state {
        crate::model::ThreadState::Active => false,
        _ => true,
    };
    match g {
        Group::Active => !inactive,
        Group::Incident => inactive && t.priority == Priority::Incident,
        Group::Priority => inactive && t.priority == Priority::Priority,
        Group::Focus => inactive && (t.priority == Priority::Incident || t.priority == Priority::Priority),
        Group::Background => inactive && t.priority == Priority::Background,
    }
}

/// The views of a list of thread references.
pub open spec fn refs_view(rs: Seq<&Thread>) -> Seq<ThreadView> {
    rs.map_values(|t: &Thread| t@)
}

/// Appends, in order, the threads of group `g`.
fn push_group<'a>(threads: &'a Vec<Thread>, g: Group, out: &mut Vec<&'a Thread>)
    ensures
        refs_view(final(out)@) == refs_view(old(out)@) + group_filter(threads_view(threads@), g),
{
    let ghost tv = threads_view(threads@);
    let ghost start = refs_view(out@);
    let mut i: usize = 0;
    while i < threads.len()
        invariant
            i <= threads@.len(),
            tv == threads_view(threads@),
            refs_view(out@) == start + group_filter(tv.take(i as int), g),
        decreases threads.len() - i,
    {
        let t = &threads[i];
        proof {
            assert(tv.take(i + 1) =~= tv.take(i as int).push(tv[i as int]));
            tv.take(i as int).lemma_filter_push(tv[i as int], |t: ThreadView| in_group(g, t));
        }
        let ghost prev = out@;
        if thread_in_group(t, &g) {
            out.push(t);
            assert(refs_view(out@) =~= refs_view(prev).push(tv[i as int]));
        }
        assert(refs_view(out@) =~= start + group_filter(tv.take(i + 1), g));
        i = i + 1;
    }
    assert(tv.take(threads.len() as int) =~= tv);
}

/// The number of threads in group `g`.
fn count_group(threads: &Vec<Thread>, g: Group) -> (r: usize)
    ensures
        r == group_filter(threads_view(threads@), g).len(),
{
    let ghost tv = threads_view(threads@);
    let mut n: usize = 0;
    let mut i: usize = 0;
    while i < threads.len()
        invariant
            i <= threads@.len(),
            tv == threads_view(threads@),
            n == group_filter(tv.take(i as int), g).len(),
            n <= i,
        decreases threads.len() - i,
    {
        proof {
            assert(tv.take(i + 1) =~= tv.take(i as int).push(tv[i as int]));
            tv.take(i as int).lemma_filter_push(tv[i as int], |t: ThreadView| in_group(g, t));
        }
        if thread_in_group(&threads[i], &g) {
            n = n + 1;
        }
        i = i + 1;
    }
    assert(tv.take(threads.len() as int) =~= tv);
    n
}

/// The threads in display order: active ones, then incidents, then
/// priority threads, then background ones, each group in list order.
pub open spec fn ordered_spec(ts: Seq<ThreadView>) -> Seq<ThreadView> {
    group_filter(ts, Group::Active) + group_filter(ts, Group::Incident) + group_filter(ts, Group::Priority)
        + group_filter(ts, Group::Background)
}

/// Ordered thread list (flat, matching display order)
pub fn build_ordered_threads<'a>(threads: &'a Vec<Thread>) -> (r: Vec<&'a Thread>)
    ensures
        refs_view(r@) == ordered_spec(threads_view(threads@)),
{
    let mut ordered: Vec<&'a Thread> = Vec::new();
    push_group(threads, Group::Active, &mut ordered);
    push_group(threads, Group::Incident, &mut ordered);
    push_group(threads, Group::Priority, &mut ordered);
    push_group(threads, Group::Background, &mut ordered);
    assert(refs_view(ordered@) =~= ordered_spec(threads_view(threads@)));
    ordered
}

// ---------------------------------------------------------------------------
// Rows of the threads pane
// ---------------------------------------------------------------------------

/// The rows of one section: title, top border, one row per thread (giving
/// its position in the ordered list), bottom border.
pub open spec fn section_rows(count: nat, offset: nat) -> Seq<Option<nat>> {
    seq![None, None] + Seq::new(count, |i: int| Some((offset + i) as nat)) + seq![None]
}

/// The rows of the threads pane for sections of `a`, `f` and `b` threads
/// (active, priority & incidents, background): empty sections are left
/// out, and a blank row separates the sections shown. A row holds the
/// position of the thread it shows, if it shows one.
pub open spec fn layout_rows(a: nat, f: nat, b: nat) -> Seq<Option<nat>> {
    let s1 = if a > 0 { section_rows(a, 0) } else { Seq::empty() };
    let s2 = if f > 0 {
        (if a > 0 { seq![None] } else { Seq::empty() }) + section_rows(f, a)
    } else {
        Seq::empty()
    };
    let s3 = if b > 0 {
        (if a + f > 0 { seq![None] } else { Seq::empty() }) + section_rows(b, a + f)
    } else {
        Seq::empty()
    };
    s1 + s2 + s3
}

/// The section sizes of a list of threads.
pub open spec fn thread_layout(ts: Seq<ThreadView>) -> Seq<Option<nat>> {
    layout_rows(
        group_filter(ts, Group::Active).len(),
        group_filter(ts, Group::Focus).len(),
        group_filter(ts, Group::Background).len(),
    )
}

/// The number of rows the threads pane takes.
pub fn count_rows(threads: &Vec<Thread>) -> (r: usize)
    requires
        threads@.len() + 11 <= usize::MAX,
    ensures
        r == thread_layout(threads_view(threads@)).len(),
{
    let active = count_group(threads, Group::Active);
    let focus = count_group(threads, Group::Focus);
    let bg = count_group(threads, Group::Background);
    proof {
        lemma_groups_partition(threads_view(threads@));
    }
    let mut non_empty: usize = 0;
    if active > 0 { non_empty = non_empty + 1; }
    if focus > 0 { non_empty = non_empty + 1; }
    if bg > 0 { non_empty = non_empty + 1; }
    let mut rows: usize = if non_empty > 0 { non_empty - 1 } else { 0 };
    if active > 0 { rows = rows + 1 + 1 + active + 1; }
    if focus > 0 { rows = rows + 1 + 1 + focus + 1; }
    if bg > 0 { rows = rows + 1 + 1 + bg + 1; }
    rows
}

/// Every thread is in exactly one of the three sections, so the sections
/// together are no larger than the list.
pub proof fn lemma_groups_partition(ts: Seq<ThreadView>)
    ensures
        group_filter(ts, Group::Active).len() + group_filter(ts, Group::Focus).len()
            + group_filter(ts, Group::Background).len() == ts.len(),
        group_filter(ts, Group::Focus).len() == group_filter(ts, Group::Incident).len()
            + group_filter(ts, Group::Priority).len(),
    decreases ts.len(),
{
    if ts.len() > 0 {
        let p = ts.drop_last();
        lemma_groups_partition(p);
        assert(ts =~= p.push(ts.last()));
        p.lemma_filter_push(ts.last(), |t: ThreadView| in_group(Group::Active, t));
        p.lemma_filter_push(ts.last(), |t: ThreadView| in_group(Group::Focus, t));
        p.lemma_filter_push(ts.last(), |t: ThreadView| in_group(Group::Background, t));
        p.lemma_filter_push(ts.last(), |t: ThreadView| in_group(Group::Incident, t));
        p.lemma_filter_push(ts.last(), |t: ThreadView| in_group(Group::Priority, t));
    } else {
        assert(ts =~= Seq::<ThreadView>::empty());
        reveal(Seq::filter);
    }
}


/// What a row of the layout shows: the position of a thread, or nothing
/// (titles, borders, separators, and rows past the end).
pub open spec fn row_at(layout: Seq<Option<nat>>, row: int) -> Option<nat> {
    if 0 <= row < layout.len() { layout[row] } else { None }
}

/// Checks one section that starts at row `cur`; gives the thread position
/// shown on `row` if `row` is one of the section's thread rows.
fn row_in_section(row: usize, cur: usize, count: usize, offset: usize) -> (r: Option<usize>)
    requires
        cur + count + 3 <= usize::MAX,
        offset + count <= usize::MAX,
    ensures
        r == (if cur <= row < cur + count + 3 {
            match section_rows(count as nat, offset as nat)[row - cur] {
                Some(k) => Some(k as usize),
                None => None::<usize>,
            }
        } else {
            None
        }),
{
    if row >= cur + 2 && row < cur + 2 + count {
        Some(offset + (row - cur - 2))
    } else {
        None
    }
}

/// Map a rendered row number to a thread index in the ordered list
pub fn row_to_thread_index(threads: &Vec<Thread>, row: usize) -> (r: Option<usize>)
    requires
        threads@.len() + 11 <= usize::MAX,
    ensures
        r == match row_at(thread_layout(threads_view(threads@)), row as int) {
            Some(k) => Some(k as usize),
            None => None::<usize>,
        },
{
    let a = count_group(threads, Group::Active);
    let f = count_group(threads, Group::Focus);
    let b = count_group(threads, Group::Background);
    proof {
        lemma_groups_partition(threads_view(threads@));
    }
    let ghost s1 = if a > 0 { section_rows(a as nat, 0) } else { Seq::empty() };
    let ghost s2 = if f > 0 {
        (if a > 0 { seq![None] } else { Seq::empty() }) + section_rows(f as nat, a as nat)
    } else {
        Seq::empty()
    };
    let ghost s3 = if b > 0 {
        (if a + f > 0 { seq![None] } else { Seq::empty() }) + section_rows(b as nat, (a + f) as nat)
    } else {
        Seq::empty()
    };
    let ghost layout = thread_layout(threads_view(threads@));
    assert(layout == s1 + s2 + s3);
    let mut cur: usize = 0;
    if a > 0 {
        let r = row_in_section(row, cur, a, 0);
        if r.is_some() {
            assert(layout[row as int] == s1[row as int]);
            return r;
        }
        cur = cur + a + 3;
    }
    assert(cur == s1.len());
    if f > 0 {
        if a > 0 {
            cur = cur + 1;
        }
        let r = row_in_section(row, cur, f, a);
        if r.is_some() {
            assert(layout[row as int] == s2[row - s1.len()]);
            return r;
        }
        cur = cur + f + 3;
    }
    assert(cur == s1.len() + s2.len());
    if b > 0 {
        if a + f > 0 {
            cur = cur + 1;
        }
        let r = row_in_section(row, cur, b, a + f);
        if r.is_some() {
            assert(layout[row as int] == s3[row - s1.len() - s2.len()]);
            return r;
        }
    }
    proof {
        if 0 <= row < layout.len() {
            if row < s1.len() {
                assert(layout[row as int] == s1[row as int]);
            } else if row < s1.len() + s2.len() {
                assert(layout[row as int] == s2[row - s1.len()]);
            } else {
                assert(layout[row as int] == s3[row - s1.len() - s2.len()]);
            }
        }
    }
    None
}


// ---------------------------------------------------------------------------
// Rows of the tasks pane, task order and symbols
// ---------------------------------------------------------------------------

/// Rows of the tasks pane: the summary box (3 rows) and a message when
/// there are no tasks; otherwise the box, a blank row, the section title
/// and a table with a row per task between two borders.
pub open spec fn task_rows_spec(n: nat) -> nat {
    if n == 0 { 4 } else { 3 + 1 + 1 + n + 2 }
}

pub fn count_task_rows(tasks: &Vec<Task>) -> (r: usize)
    requires
        tasks@.len() + 7 <= usize::MAX,
    ensures
        r == task_rows_spec(tasks@.len()),
{
    if tasks.len() == 0 {
        return 4;
    }
    3 + 1 + 1 + tasks.len() + 2
}

/// Where a task state sorts in the tasks pane: in progress first, then
/// blocked, not started, done and cancelled.
pub open spec fn task_sort_key_spec(s: TaskState) -> u8 {
    match s {
        TaskState::InProgress => 0,
        TaskState::Blocked => 1,
        TaskState::NotStarted => 2,
        TaskState::Done => 3,
        TaskState::Cancelled => 4,
    }
}

pub fn task_state_sort_key(state: &TaskState) -> (r: u8)
    ensures
        r == task_sort_key_spec(*state),
{
    match state {
        TaskState::InProgress => 0,
        TaskState::Blocked => 1,
        TaskState::NotStarted => 2,
        TaskState::Done => 3,
        TaskState::Cancelled => 4,
    }
}

/// The symbol shown for a task state.
pub open spec fn task_symbol_spec(s: TaskState) -> Seq<char> {
    match s {
        TaskState::NotStarted => seq!['\u{25cb}'],
        TaskState::InProgress => seq!['\u{25b6}'],
        TaskState::Blocked => seq!['\u{231b}'],
        TaskState::Done => seq!['\u{2713}'],
        TaskState::Cancelled => seq!['\u{2717}'],
    }
}

pub fn task_state_symbol(state: &TaskState) -> (r: String)
    ensures
        r@ == task_symbol_spec(*state),
{
    let c = match state {
        TaskState::NotStarted => '\u{25cb}',
        TaskState::InProgress => '\u{25b6}',
        TaskState::Blocked => '\u{231b}',
        TaskState::Done => '\u{2713}',
        TaskState::Cancelled => '\u{2717}',
    };
    let mut r = String::new();
    push_char(&mut r, c);
    r
}

pub open spec fn task_refs_view(rs: Seq<&Task>) -> Seq<TaskView> {
    rs.map_values(|t: &Task| t@)
}

/// The tasks whose state has sort key `k`, in list order.
pub open spec fn tasks_with_key(ts: Seq<TaskView>, k: u8) -> Seq<TaskView> {
    ts.filter(|t: TaskView| task_sort_key_spec(t.state) == k)
}

/// The tasks stably ordered by the sort key of their state.
pub open spec fn sorted_tasks_spec(ts: Seq<TaskView>) -> Seq<TaskView> {
    tasks_with_key(ts, 0) + tasks_with_key(ts, 1) + tasks_with_key(ts, 2) + tasks_with_key(ts, 3)
        + tasks_with_key(ts, 4)
}

fn push_tasks_with_key<'a>(tasks: &'a Vec<Task>, k: u8, out: &mut Vec<&'a Task>)
    ensures
        task_refs_view(final(out)@) == task_refs_view(old(out)@) + tasks_with_key(tasks_view(tasks@), k),
{
    let ghost tv = tasks_view(tasks@);
    let ghost start = task_refs_view(out@);
    let mut i: usize = 0;
    while i < tasks.len()
        invariant
            i <= tasks@.len(),
            tv == tasks_view(tasks@),
            task_refs_view(out@) == start + tasks_with_key(tv.take(i as int), k),
        decreases tasks.len() - i,
    {
        let t = &tasks[i];
        proof {
            assert(tv.take(i + 1) =~= tv.take(i as int).push(tv[i as int]));
            tv.take(i as int).lemma_filter_push(tv[i as int], |t: TaskView| task_sort_key_spec(t.state) == k);
        }
        let ghost prev = out@;
        if task_state_sort_key(&t.state) == k {
            out.push(t);
            assert(task_refs_view(out@) =~= task_refs_view(prev).push(tv[i as int]));
        }
        assert(task_refs_view(out@) =~= start + tasks_with_key(tv.take(i + 1), k));
        i = i + 1;
    }
    assert(tv.take(tasks.len() as int) =~= tv);
}

/// The tasks ordered by state (in progress, blocked, not started, done,
/// cancelled); tasks in the same state keep their order.
pub fn sort_tasks<'a>(tasks: &'a Vec<Task>) -> (r: Vec<&'a Task>)
    ensures
        task_refs_view(r@) == sorted_tasks_spec(tasks_view(tasks@)),
{
    let mut sorted: Vec<&'a Task> = Vec::new();
    push_tasks_with_key(tasks, 0, &mut sorted);
    push_tasks_with_key(tasks, 1, &mut sorted);
    push_tasks_with_key(tasks, 2, &mut sorted);
    push_tasks_with_key(tasks, 3, &mut sorted);
    push_tasks_with_key(tasks, 4, &mut sorted);
    assert(task_refs_view(sorted@) =~= sorted_tasks_spec(tasks_view(tasks@)));
    sorted
}

// ---------------------------------------------------------------------------
// Column widths and cells
// ---------------------------------------------------------------------------

pub const W_ID: u16 = 6;
pub const W_STATE: u16 = 9;
pub const W_PRIO: u16 = 6;
pub const SLUG_FULL: u16 = 40;

/// Widths of the columns of the threads table; a width of 0 hides the
/// column.
pub struct ColWidths {
    pub id: u16,
    pub slug: u16,
    pub state: u16,
    pub prio: u16,
    pub desc: u16,
}

/// The columns of the threads table for a pane `w` columns wide: all five
/// columns when there is room, then without description, then without
/// priority, and at last only id and a slug as wide as fits (at least 1).
pub open spec fn col_widths_spec(w: u16) -> (u16, u16, u16, u16, u16) {
    if w > 27 + 40 {
        (6, 40, 9, 6, (w - 67) as u16)
    } else if w > 26 + 40 {
        (6, 40, 9, 6, 0)
    } else if w > 19 + 40 {
        (6, 40, 9, 0, 0)
    } else {
        (6, if w > 10 { (w - 9) as u16 } else { 1 }, 0, 0, 0)
    }
}

impl ColWidths {
    pub open spec fn spec_tuple(&self) -> (u16, u16, u16, u16, u16) {
        (self.id, self.slug, self.state, self.prio, self.desc)
    }

    pub fn from_area(w: u16) -> (r: Self)
        ensures
            r.spec_tuple() == col_widths_spec(w),
    {
        let try5 = 2 + 4 + W_ID + W_STATE + W_PRIO;
        let try4 = 2 + 3 + W_ID + W_STATE + W_PRIO;
        let try3 = 2 + 2 + W_ID + W_STATE;
        let try2 = 2 + 1 + W_ID;
        if w > try5 + SLUG_FULL {
            let desc = w - try5 - SLUG_FULL;
            return ColWidths { id: W_ID, slug: SLUG_FULL, state: W_STATE, prio: W_PRIO, desc };
        }
        if w > try4 + SLUG_FULL {
            return ColWidths { id: W_ID, slug: SLUG_FULL, state: W_STATE, prio: W_PRIO, desc: 0 };
        }
        if w > try3 + SLUG_FULL {
            return ColWidths { id: W_ID, slug: SLUG_FULL, state: W_STATE, prio: 0, desc: 0 };
        }
        let s = w.saturating_sub(try2);
        let slug = if s > 1 { s } else { 1 };
        ColWidths { id: W_ID, slug, state: 0, prio: 0, desc: 0 }
    }

    /// The widths of the columns shown, left to right.
    pub fn active_widths(&self) -> (r: Vec<u16>)
        ensures
            r@ == seq![self.id, self.slug, self.state, self.prio, self.desc].filter(|w: u16| w > 0),
    {
        let ghost all = seq![self.id, self.slug, self.state, self.prio, self.desc];
        let ghost pred = |w: u16| w > 0;
        proof {
            reveal_with_fuel(Seq::filter, 6);
            assert(all.take(0) =~= Seq::<u16>::empty());
            assert(all.take(1) =~= Seq::<u16>::empty().push(self.id));
            assert(all.take(2) =~= all.take(1).push(self.slug));
            assert(all.take(3) =~= all.take(2).push(self.state));
            assert(all.take(4) =~= all.take(3).push(self.prio));
            assert(all =~= all.take(4).push(self.desc));
        }
        let mut r: Vec<u16> = Vec::new();
        if self.id > 0 { r.push(self.id); }
        if self.slug > 0 { r.push(self.slug); }
        if self.state > 0 { r.push(self.state); }
        if self.prio > 0 { r.push(self.prio); }
        if self.desc > 0 { r.push(self.desc); }
        proof {
            all.take(0).lemma_filter_push(self.id, pred);
            all.take(1).lemma_filter_push(self.slug, pred);
            all.take(2).lemma_filter_push(self.state, pred);
            all.take(3).lemma_filter_push(self.prio, pred);
            all.take(4).lemma_filter_push(self.desc, pred);
        }
        r
    }
}

/// Widths of the columns of the tasks table: index, status and title.
pub struct TaskColWidths {
    pub index: u16,
    pub status: u16,
    pub title: u16,
}

pub const W_INDEX: u16 = 6;
pub const W_STATUS: u16 = 4;

impl TaskColWidths {
    /// The title takes what the borders, separators, index and status
    /// columns leave, and at least 1.
    pub fn from_area(w: u16) -> (r: Self)
        ensures
            r.index == 6,
            r.status == 4,
            r.title == if w > 15 { (w - 14) as u16 } else { 1 },
    {
        let overhead = 2 + 2 + W_INDEX + W_STATUS;
        let t = w.saturating_sub(overhead);
        let title = if t > 1 { t } else { 1 };
        TaskColWidths { index: W_INDEX, status: W_STATUS, title }
    }

    pub fn active_widths(&self) -> (r: Vec<u16>)
        ensures
            r@ == seq![self.index, self.status, self.title],
    {
        let mut r: Vec<u16> = Vec::new();
        r.push(self.index);
        r.push(self.status);
        r.push(self.title);
        assert(r@ =~= seq![self.index, self.status, self.title]);
        r
    }
}

/// `s` cut or padded with spaces to exactly `w` characters.
pub open spec fn pad_spec(s: Seq<char>, w: nat) -> Seq<char> {
    if s.len() >= w {
        s.take(w as int)
    } else {
        s + Seq::new((w - s.len()) as nat, |i: int| ' ')
    }
}

pub fn pad(s: &str, width: u16) -> (r: String)
    ensures
        r@ == pad_spec(s@, width as nat),
{
    pad_to(s, width as usize)
}

/// `s` cut or padded with spaces to exactly `w` characters.
pub fn pad_to(s: &str, w: usize) -> (r: String)
    ensures
        r@ == pad_spec(s@, w as nat),
{
    let n = s.unicode_len();
    if n >= w {
        String::from_str(s.substring_char(0, w))
    } else {
        let mut r = String::from_str(s);
        push_repeated(&mut r, ' ', w - n);
        r
    }
}


// ---------------------------------------------------------------------------
// Table lines
// ---------------------------------------------------------------------------

/// A horizontal rule `w` characters long.
pub open spec fn bar(w: u16) -> Seq<char> {
    Seq::new(w as nat, |i: int| '\u{2500}')
}

/// A table border: the corner, one rule per column with `mid` between
/// them, and the other corner.
pub open spec fn border_spec(ws: Seq<u16>, left: char, mid: char, right: char) -> Seq<char> {
    seq![left] + join_sep(ws.map_values(|w: u16| bar(w)), seq![mid]) + seq![right]
}

/// The widths of the threads table's visible columns.
pub open spec fn shown_widths(ws: ColWidths) -> Seq<u16> {
    seq![ws.id, ws.slug, ws.state, ws.prio, ws.desc].filter(|w: u16| w > 0)
}

fn border(ws: &Vec<u16>, left: char, mid: char, right: char) -> (r: String)
    ensures
        r@ == border_spec(ws@, left, mid, right),
{
    let mut parts: Vec<String> = Vec::new();
    let mut k: usize = 0;
    while k < ws.len()
        invariant
            k <= ws@.len(),
            parts@.map_values(|p: String| p@) == ws@.take(k as int).map_values(|w: u16| bar(w)),
        decreases ws.len() - k,
    {
        let mut p = String::new();
        push_repeated(&mut p, '\u{2500}', ws[k] as usize);
        assert(p@ =~= bar(ws@[k as int]));
        let ghost prev = parts@;
        parts.push(p);
        assert(parts@ =~= prev.push(p));
        assert(parts@.map_values(|p: String| p@) =~= prev.map_values(|p: String| p@).push(p@));
        assert(ws@.take(k + 1) =~= ws@.take(k as int).push(ws@[k as int]));
        assert(parts@.map_values(|p: String| p@) =~= ws@.take(k + 1).map_values(|w: u16| bar(w)));
        k = k + 1;
    }
    assert(ws@.take(ws.len() as int) =~= ws@);
    let mut r = String::new();
    push_char(&mut r, left);
    let mut m = String::new();
    push_char(&mut m, mid);
    push_joined(&mut r, &parts, m.as_str());
    push_char(&mut r, right);
    assert(r@ =~= border_spec(ws@, left, mid, right));
    r
}

pub fn top_border(ws: &ColWidths) -> (r: String)
    ensures
        r@ == border_spec(shown_widths(*ws), '\u{250c}', '\u{252c}', '\u{2510}'),
{
    border(&ws.active_widths(), '\u{250c}', '\u{252c}', '\u{2510}')
}

pub fn bottom_border(ws: &ColWidths) -> (r: String)
    ensures
        r@ == border_spec(shown_widths(*ws), '\u{2514}', '\u{2534}', '\u{2518}'),
{
    border(&ws.active_widths(), '\u{2514}', '\u{2534}', '\u{2518}')
}

pub fn task_top_border(ws: &TaskColWidths) -> (r: String)
    ensures
        r@ == border_spec(seq![ws.index, ws.status, ws.title], '\u{250c}', '\u{252c}', '\u{2510}'),
{
    border(&ws.active_widths(), '\u{250c}', '\u{252c}', '\u{2510}')
}

pub fn task_bottom_border(ws: &TaskColWidths) -> (r: String)
    ensures
        r@ == border_spec(seq![ws.index, ws.status, ws.title], '\u{2514}', '\u{2534}', '\u{2518}'),
{
    border(&ws.active_widths(), '\u{2514}', '\u{2534}', '\u{2518}')
}

/// One less than `w`, but not below 0.
pub open spec fn less_one(w: u16) -> nat {
    if w > 0 { (w - 1) as nat } else { 0 }
}

/// A table cell: a space, then the value cut or padded to the rest of the
/// column.
pub open spec fn cell_spec(v: Seq<char>, w: u16) -> Seq<char> {
    seq![' '] + pad_spec(v, less_one(w))
}

/// A table row: the cells between vertical rules.
pub open spec fn row_spec(cells: Seq<Seq<char>>) -> Seq<char> {
    seq!['\u{2502}'] + join_sep(cells, seq!['\u{2502}']) + seq!['\u{2502}']
}

fn cell(v: &str, w: u16) -> (r: String)
    ensures
        r@ == cell_spec(v@, w),
{
    let mut r = String::from_str(" ");
    let p = pad(v, w.saturating_sub(1));
    r.append(p.as_str());
    proof {
        reveal_strlit(" ");
    }
    assert(r@ =~= cell_spec(v@, w));
    r
}

fn row_line(cells: &Vec<String>) -> (r: String)
    ensures
        r@ == row_spec(cells@.map_values(|c: String| c@)),
{
    let mut r = String::new();
    push_char(&mut r, '\u{2502}');
    let mut sep = String::new();
    push_char(&mut sep, '\u{2502}');
    push_joined(&mut r, cells, sep.as_str());
    push_char(&mut r, '\u{2502}');
    assert(r@ =~= row_spec(cells@.map_values(|c: String| c@)));
    r
}

/// The cells of a threads-table row: id and slug, then state, priority
/// and description where their columns are shown.
pub open spec fn thread_cells_spec(
    id: Seq<char>,
    slug: Seq<char>,
    state: Seq<char>,
    prio: Seq<char>,
    desc: Seq<char>,
    ws: ColWidths,
) -> Seq<Seq<char>> {
    seq![cell_spec(id, ws.id), cell_spec(slug, ws.slug)]
        + (if ws.state > 0 { seq![cell_spec(state, ws.state)] } else { Seq::empty() })
        + (if ws.prio > 0 { seq![cell_spec(prio, ws.prio)] } else { Seq::empty() })
        + (if ws.desc > 0 { seq![cell_spec(desc, ws.desc)] } else { Seq::empty() })
}

/// A row of the threads table.
pub fn data_line(id: &str, slug: &str, state: &str, prio: &str, desc: &str, ws: &ColWidths) -> (r: String)
    ensures
        r@ == row_spec(thread_cells_spec(id@, slug@, state@, prio@, desc@, *ws)),
{
    let mut cells: Vec<String> = Vec::new();
    cells.push(cell(id, ws.id));
    cells.push(cell(slug, ws.slug));
    if ws.state > 0 { cells.push(cell(state, ws.state)); }
    if ws.prio > 0 { cells.push(cell(prio, ws.prio)); }
    if ws.desc > 0 { cells.push(cell(desc, ws.desc)); }
    assert(cells@.map_values(|c: String| c@) =~= thread_cells_spec(id@, slug@, state@, prio@, desc@, *ws));
    row_line(&cells)
}

/// A row of the tasks table.
pub fn task_data_line(index: &str, symbol: &str, title: &str, ws: &TaskColWidths) -> (r: String)
    ensures
        r@ == row_spec(seq![cell_spec(index@, ws.index), cell_spec(symbol@, ws.status), cell_spec(title@, ws.title)]),
{
    let mut cells: Vec<String> = Vec::new();
    cells.push(cell(index, ws.index));
    cells.push(cell(symbol, ws.status));
    cells.push(cell(title, ws.title));
    assert(cells@.map_values(|c: String| c@) =~= seq![cell_spec(index@, ws.index), cell_spec(symbol@, ws.status), cell_spec(title@, ws.title)]);
    row_line(&cells)
}


// ---------------------------------------------------------------------------
// Pane lines
// ---------------------------------------------------------------------------

/// How a line of a pane is shown.
#[derive(Debug, Clone, Copy, PartialEq, Eq, Structural)]
pub enum LineStyle {
    Plain,
    /// Titles.
    Bold,
    /// Finished tasks and hints.
    Dim,
    /// The selected thread.
    Selected,
}

/// A line of a pane with its style.
#[derive(Debug, Clone)]
pub struct StyledLine {
    pub text: String,
    pub style: LineStyle,
}

pub open spec fn lines_view(ls: Seq<StyledLine>) -> Seq<(Seq<char>, LineStyle)> {
    ls.map_values(|l: StyledLine| (l.text@, l.style))
}

fn styled(text: String, style: LineStyle) -> (r: StyledLine)
    ensures
        r.text@ == text@,
        r.style == style,
{
    StyledLine { text, style }
}

/// The columns of the threads table for a pane `w` columns wide.
pub open spec fn col_widths_of(w: u16) -> ColWidths {
    let t = col_widths_spec(w);
    ColWidths { id: t.0, slug: t.1, state: t.2, prio: t.3, desc: t.4 }
}

/// The row of the threads table that shows thread `t`.
pub open spec fn thread_row_spec(t: ThreadView, ws: ColWidths) -> Seq<char> {
    row_spec(thread_cells_spec(id4(t.id), t.slug, state_name(t.state), abbrev_of(t.priority), t.description, ws))
}

/// The lines of one section of the threads pane: title, top border, a row
/// per thread (the one at position `selected` in the whole list is
/// highlighted) and bottom border; nothing for an empty section.
pub open spec fn section_lines_spec(
    title: Seq<char>,
    sec: Seq<ThreadView>,
    ws: ColWidths,
    selected: nat,
    start: nat,
) -> Seq<(Seq<char>, LineStyle)> {
    if sec.len() == 0 {
        Seq::empty()
    } else {
        seq![("> "@ + title, LineStyle::Bold), (border_spec(shown_widths(ws), '\u{250c}', '\u{252c}', '\u{2510}'), LineStyle::Plain)]
            + Seq::new(sec.len(), |i: int| (
                thread_row_spec(sec[i], ws),
                if start + i == selected { LineStyle::Selected } else { LineStyle::Plain },
            ))
            + seq![(border_spec(shown_widths(ws), '\u{2514}', '\u{2534}', '\u{2518}'), LineStyle::Plain)]
    }
}

fn push_section_lines(
    out: &mut Vec<StyledLine>,
    title: &str,
    section: &Vec<&Thread>,
    ws: &ColWidths,
    selected: usize,
    start_idx: usize,
)
    requires
        start_idx + section@.len() <= usize::MAX,
    ensures
        lines_view(final(out)@) == lines_view(old(out)@)
            + section_lines_spec(title@, refs_view(section@), *ws, selected as nat, start_idx as nat),
{
    if section.len() == 0 {
        assert(lines_view(out@) =~= lines_view(old(out)@)
            + section_lines_spec(title@, refs_view(section@), *ws, selected as nat, start_idx as nat));
        return;
    }
    let ghost sv = refs_view(section@);
    let ghost goal = lines_view(old(out)@)
        + section_lines_spec(title@, sv, *ws, selected as nat, start_idx as nat);
    let mut head = String::from_str("> ");
    head.append(title);
    out.push(styled(head, LineStyle::Bold));
    out.push(styled(top_border(ws), LineStyle::Plain));
    let ghost base = old(out)@.len();
    let mut i: usize = 0;
    while i < section.len()
        invariant
            i <= section@.len(),
            start_idx + section@.len() <= usize::MAX,
            sv == refs_view(section@),
            sv.len() > 0,
            base == old(out)@.len(),
            goal == lines_view(old(out)@) + section_lines_spec(title@, sv, *ws, selected as nat, start_idx as nat),
            out@.len() == base + 2 + i,
            forall|k: int| 0 <= k < base + 2 + i ==> #[trigger] lines_view(out@)[k] == goal[k],
        decreases section.len() - i,
    {
        let t = section[i];
        let id = t.id_str();
        let st = t.state.to_string();
        let pr = t.priority.to_string();
        let line = data_line(id.as_str(), t.slug.as_str(), st.as_str(), pr.as_str(), t.description.as_str(), ws);
        let style = if start_idx + i == selected { LineStyle::Selected } else { LineStyle::Plain };
        let ghost prev = out@;
        out.push(styled(line, style));
        proof {
            assert(sv[i as int] == t@);
            assert forall|k: int| 0 <= k < base + 2 + i + 1 implies #[trigger] lines_view(out@)[k] == goal[k] by {
                if k < base + 2 + i {
                    assert(lines_view(out@)[k] == lines_view(prev)[k]);
                }
            }
        }
        i = i + 1;
    }
    let ghost before_last = out@;
    out.push(styled(bottom_border(ws), LineStyle::Plain));
    proof {
        assert(goal.len() == base + 2 + sv.len() + 1);
        assert forall|k: int| 0 <= k < goal.len() implies #[trigger] lines_view(out@)[k] == goal[k] by {
            if k < base + 2 + sv.len() {
                assert(lines_view(out@)[k] == lines_view(before_last)[k]);
            }
        }
    }
    assert(lines_view(out@) =~= goal);
}

/// The section of each thread in the threads pane.
pub open spec fn focus_section(ts: Seq<ThreadView>) -> Seq<ThreadView> {
    group_filter(ts, Group::Incident) + group_filter(ts, Group::Priority)
}

/// Sections joined as the threads pane shows them: a blank line between
/// two non-empty sections.
pub open spec fn join_sections(a: Seq<(Seq<char>, LineStyle)>, b: Seq<(Seq<char>, LineStyle)>) -> Seq<(Seq<char>, LineStyle)> {
    if b.len() == 0 {
        a
    } else if a.len() == 0 {
        b
    } else {
        a + seq![(Seq::<char>::empty(), LineStyle::Plain)] + b
    }
}

/// The lines of the threads pane for a pane `width` columns wide: the
/// "Active", "Priority & Incidents" and "Background" sections, in that
/// order, with the selected thread highlighted.
pub open spec fn threads_pane_spec(ts: Seq<ThreadView>, width: u16, selected: nat) -> Seq<(Seq<char>, LineStyle)> {
    let ws = col_widths_of(width);
    let a = group_filter(ts, Group::Active);
    let f = focus_section(ts);
    let b = group_filter(ts, Group::Background);
    join_sections(
        join_sections(
            section_lines_spec("Active"@, a, ws, selected, 0),
            section_lines_spec("Priority & Incidents"@, f, ws, selected, a.len()),
        ),
        section_lines_spec("Background"@, b, ws, selected, a.len() + f.len()),
    )
}

fn join_into(out: &mut Vec<StyledLine>, more: Vec<StyledLine>)
    ensures
        lines_view(final(out)@) == join_sections(lines_view(old(out)@), lines_view(more@)),
{
    if more.len() == 0 {
        return;
    }
    if out.len() > 0 {
        out.push(styled(String::new(), LineStyle::Plain));
    }
    let ghost mid = out@;
    let ghost mv = more@;
    let mut i: usize = 0;
    while i < more.len()
        invariant
            i <= mv.len(),
            more@ == mv,
            lines_view(out@) == lines_view(mid) + lines_view(mv.take(i as int)),
        decreases more@.len() - i,
    {
        let l = styled(more[i].text.clone(), more[i].style);
        let ghost prev = out@;
        out.push(l);
        assert(lines_view(mv.take(i + 1)) =~= lines_view(mv.take(i as int)).push((mv[i as int].text@, mv[i as int].style)));
        assert(lines_view(out@) =~= lines_view(prev).push((l.text@, l.style)));
        i = i + 1;
    }
    assert(mv.take(mv.len() as int) =~= mv);
    assert(lines_view(out@) =~= join_sections(lines_view(old(out)@), lines_view(more@)));
}

/// The lines of the threads pane.
pub fn threads_pane_lines(threads: &Vec<Thread>, width: u16, selected: usize) -> (r: Vec<StyledLine>)
    requires
        threads@.len() + 11 <= usize::MAX,
    ensures
        lines_view(r@) == threads_pane_spec(threads_view(threads@), width, selected as nat),
{
    let ws = ColWidths::from_area(width);
    let ghost tv = threads_view(threads@);
    proof {
        lemma_groups_partition(tv);
    }
    let mut active: Vec<&Thread> = Vec::new();
    push_group(threads, Group::Active, &mut active);
    let mut focus: Vec<&Thread> = Vec::new();
    push_group(threads, Group::Incident, &mut focus);
    push_group(threads, Group::Priority, &mut focus);
    let mut bg: Vec<&Thread> = Vec::new();
    push_group(threads, Group::Background, &mut bg);
    assert(refs_view(active@) =~= group_filter(tv, Group::Active));
    assert(refs_view(focus@) =~= focus_section(tv));
    assert(refs_view(bg@) =~= group_filter(tv, Group::Background));
    let mut lines: Vec<StyledLine> = Vec::new();
    push_section_lines(&mut lines, "Active", &active, &ws, selected, 0);
    assert(lines_view(lines@) =~= section_lines_spec("Active"@, refs_view(active@), ws, selected as nat, 0));
    let mut second: Vec<StyledLine> = Vec::new();
    push_section_lines(&mut second, "Priority & Incidents", &focus, &ws, selected, active.len());
    assert(lines_view(second@) =~= section_lines_spec("Priority & Incidents"@, refs_view(focus@), ws, selected as nat, active.len() as nat));
    join_into(&mut lines, second);
    let mut third: Vec<StyledLine> = Vec::new();
    push_section_lines(&mut third, "Background", &bg, &ws, selected, active.len() + focus.len());
    assert(lines_view(third@) =~= section_lines_spec("Background"@, refs_view(bg@), ws, selected as nat, (active.len() + focus.len()) as nat));
    join_into(&mut lines, third);
    lines
}


/// The status bar of the threads pane: the active thread, or a note that
/// there is none.
pub open spec fn threads_status_spec(ts: Seq<ThreadView>, active: Option<usize>) -> Seq<char> {
    match active {
        Some(i) => "  #"@ + id4(ts[i as int].id) + " "@ + ts[i as int].slug + "   |   ? help   |   gt tasks"@,
        None => "  (no active thread)   |   ? help   |   gt tasks"@,
    }
}

pub fn threads_status_text(threads: &Vec<Thread>) -> (r: String)
    ensures
        r@ == threads_status_spec(threads_view(threads@), first_active_index(threads_view(threads@))),
{
    match active_thread_index(threads) {
        Some(i) => {
            let mut r = String::from_str("  #");
            push_zero_padded(&mut r, threads[i].id as u64, 4);
            r.append(" ");
            r.append(threads[i].slug.as_str());
            r.append("   |   ? help   |   gt tasks");
            r
        },
        None => String::from_str("  (no active thread)   |   ? help   |   gt tasks"),
    }
}

// ---------------------------------------------------------------------------
// Tasks pane
// ---------------------------------------------------------------------------

/// The text of the summary box of the tasks pane.
pub open spec fn summary_text_spec(thread_id: u32, slug: Seq<char>, priority: Seq<char>) -> Seq<char> {
    " #"@ + id4(thread_id) + " "@ + slug + "  "@ + priority
}

/// A row of the tasks table: its position (from 1), the state's symbol and
/// the description; done and cancelled tasks are dimmed.
pub open spec fn task_row_spec(k: nat, t: TaskView, ws: TaskColWidths) -> (Seq<char>, LineStyle) {
    (
        row_spec(seq![cell_spec(decimal(k + 1), ws.index), cell_spec(task_symbol_spec(t.state), ws.status), cell_spec(t.description, ws.title)]),
        if t.state == TaskState::Done || t.state == TaskState::Cancelled { LineStyle::Dim } else { LineStyle::Plain },
    )
}

/// The width of the summary box's inside for a pane `width` columns wide.
pub open spec fn summary_width(width: u16) -> nat {
    if width > 3 { (width - 2) as nat } else { 1 }
}

/// The lines of the tasks pane for thread `thread_id`, whose priority is
/// shown when the thread is in the list: a summary box, a blank line, then
/// either a hint that there are no tasks or the tasks table in state order.
pub open spec fn tasks_pane_spec(
    priority: Seq<char>,
    ts: Seq<TaskView>,
    thread_id: u32,
    slug: Seq<char>,
    width: u16,
) -> Seq<(Seq<char>, LineStyle)> {
    let w = summary_width(width);
    let head = seq![
        (seq!['\u{250c}'] + Seq::new(w, |i: int| '\u{2500}') + seq!['\u{2510}'], LineStyle::Plain),
        (seq!['\u{2502}'] + pad_spec(summary_text_spec(thread_id, slug, priority), w) + seq!['\u{2502}'], LineStyle::Bold),
        (seq!['\u{2514}'] + Seq::new(w, |i: int| '\u{2500}') + seq!['\u{2518}'], LineStyle::Plain),
        (Seq::<char>::empty(), LineStyle::Plain),
    ];
    let sorted = sorted_tasks_spec(ts);
    let tws = TaskColWidths { index: 6, status: 4, title: if width > 15 { (width - 14) as u16 } else { 1 } };
    if ts.len() == 0 {
        head + seq![("  No tasks yet. Use: tsk task create <description>"@, LineStyle::Dim)]
    } else {
        head + seq![("> Tasks"@, LineStyle::Bold), (border_spec(seq![6u16, 4u16, tws.title], '\u{250c}', '\u{252c}', '\u{2510}'), LineStyle::Plain)]
            + Seq::new(sorted.len(), |k: int| task_row_spec(k as nat, sorted[k], tws))
            + seq![(border_spec(seq![6u16, 4u16, tws.title], '\u{2514}', '\u{2534}', '\u{2518}'), LineStyle::Plain)]
    }
}

/// The priority shown for thread `thread_id`: the abbreviation of the first
/// thread with that id, or nothing.
pub open spec fn shown_priority(ts: Seq<ThreadView>, thread_id: u32, r: Seq<char>) -> bool {
    ||| exists|i: int| 0 <= i < ts.len() && ts[i].id == thread_id
            && (forall|j: int| 0 <= j < i ==> (#[trigger] ts[j]).id != thread_id)
            && r == abbrev_of(ts[i].priority)
    ||| (forall|j: int| 0 <= j < ts.len() ==> (#[trigger] ts[j]).id != thread_id) && r == Seq::<char>::empty()
}

fn priority_of(threads: &Vec<Thread>, thread_id: u32) -> (r: String)
    ensures
        shown_priority(threads_view(threads@), thread_id, r@),
{
    let ghost tv = threads_view(threads@);
    let mut i: usize = 0;
    while i < threads.len()
        invariant
            i <= threads@.len(),
            tv == threads_view(threads@),
            forall|j: int| 0 <= j < i ==> (#[trigger] tv[j]).id != thread_id,
        decreases threads.len() - i,
    {
        if threads[i].id == thread_id {
            let r = threads[i].priority.to_string();
            assert(tv[i as int].id == thread_id && r@ == abbrev_of(tv[i as int].priority));
            return r;
        }
        i = i + 1;
    }
    String::new()
}

fn rule_line(left: char, w: usize, right: char) -> (r: String)
    ensures
        r@ == seq![left] + Seq::new(w as nat, |i: int| '\u{2500}') + seq![right],
{
    let mut r = String::new();
    push_char(&mut r, left);
    push_repeated(&mut r, '\u{2500}', w);
    push_char(&mut r, right);
    r
}

/// The lines of the tasks pane.
pub fn tasks_pane_lines(
    threads: &Vec<Thread>,
    tasks: &Vec<Task>,
    thread_id: u32,
    thread_slug: &str,
    width: u16,
) -> (r: Vec<StyledLine>)
    ensures
        exists|p: Seq<char>| shown_priority(threads_view(threads@), thread_id, p)
            && lines_view(r@) == tasks_pane_spec(p, tasks_view(tasks@), thread_id, thread_slug@, width),
{
    let priority = priority_of(threads, thread_id);
    let sw = width.saturating_sub(2);
    let w: usize = if sw > 1 { sw as usize } else { 1 };
    let mut summary = String::from_str(" #");
    push_zero_padded(&mut summary, thread_id as u64, 4);
    summary.append(" ");
    summary.append(thread_slug);
    summary.append("  ");
    summary.append(priority.as_str());
    let padded = pad_to(summary.as_str(), w);
    let mut mid = String::new();
    push_char(&mut mid, '\u{2502}');
    mid.append(padded.as_str());
    push_char(&mut mid, '\u{2502}');
    let mut lines: Vec<StyledLine> = Vec::new();
    lines.push(styled(rule_line('\u{250c}', w, '\u{2510}'), LineStyle::Plain));
    lines.push(styled(mid, LineStyle::Bold));
    lines.push(styled(rule_line('\u{2514}', w, '\u{2518}'), LineStyle::Plain));
    lines.push(styled(String::new(), LineStyle::Plain));
    let ghost goal = tasks_pane_spec(priority@, tasks_view(tasks@), thread_id, thread_slug@, width);
    proof {
        let ww = summary_width(width);
        assert(w == ww);
        assert(summary@ =~= summary_text_spec(thread_id, thread_slug@, priority@));
        assert(lines_view(lines@)[0] == goal[0]);
        assert(lines_view(lines@)[1] == goal[1]);
        assert(lines_view(lines@)[2] == goal[2]);
        assert(lines_view(lines@)[3] == goal[3]);
    }
    if tasks.len() == 0 {
        lines.push(styled(String::from_str("  No tasks yet. Use: tsk task create <description>"), LineStyle::Dim));
        assert(lines_view(lines@) =~= goal);
        return lines;
    }
    let sorted = sort_tasks(tasks);
    let ghost sv = task_refs_view(sorted@);
    lines.push(styled(String::from_str("> Tasks"), LineStyle::Bold));
    let tws = TaskColWidths::from_area(width);
    lines.push(styled(task_top_border(&tws), LineStyle::Plain));
    proof {
        lemma_sorted_tasks_len(tasks_view(tasks@));
        assert forall|k: int| 0 <= k < 6 implies #[trigger] lines_view(lines@)[k] == goal[k] by {}
    }
    let mut i: usize = 0;
    while i < sorted.len()
        invariant
            i <= sorted@.len(),
            sv == task_refs_view(sorted@),
            sv == sorted_tasks_spec(tasks_view(tasks@)),
            sv.len() == tasks@.len(),
            tasks@.len() > 0,
            tws.index == 6 && tws.status == 4 && tws.title == (if width > 15 { (width - 14) as u16 } else { 1 }),
            goal == tasks_pane_spec(priority@, tasks_view(tasks@), thread_id, thread_slug@, width),
            lines@.len() == 6 + i,
            forall|k: int| 0 <= k < 6 + i ==> #[trigger] lines_view(lines@)[k] == goal[k],
        decreases sorted.len() - i,
    {
        let t = sorted[i];
        let index = decimal_text(i + 1);
        let symbol = task_state_symbol(&t.state);
        let line = task_data_line(index.as_str(), symbol.as_str(), t.description.as_str(), &tws);
        let style = match t.state {
            TaskState::Done | TaskState::Cancelled => LineStyle::Dim,
            _ => LineStyle::Plain,
        };
        let ghost prev = lines@;
        lines.push(styled(line, style));
        proof {
            assert(sv[i as int] == t@);
            assert forall|k: int| 0 <= k < 6 + i + 1 implies #[trigger] lines_view(lines@)[k] == goal[k] by {
                if k < 6 + i {
                    assert(lines_view(lines@)[k] == lines_view(prev)[k]);
                }
            }
        }
        i = i + 1;
    }
    let ghost before_last = lines@;
    lines.push(styled(task_bottom_border(&tws), LineStyle::Plain));
    proof {
        assert forall|k: int| 0 <= k < goal.len() implies #[trigger] lines_view(lines@)[k] == goal[k] by {
            if k < 6 + sv.len() {
                assert(lines_view(lines@)[k] == lines_view(before_last)[k]);
            }
        }
    }
    assert(lines_view(lines@) =~= goal);
    lines
}

fn decimal_text(n: usize) -> (r: String)
    ensures
        r@ == decimal(n as nat),
{
    let mut r = String::new();
    push_decimal(&mut r, n as u64);
    r
}

/// Ordering tasks by state keeps every task.
pub proof fn lemma_sorted_tasks_len(ts: Seq<TaskView>)
    ensures
        sorted_tasks_spec(ts).len() == ts.len(),
    decreases ts.len(),
{
    if ts.len() > 0 {
        let p = ts.drop_last();
        lemma_sorted_tasks_len(p);
        assert(ts =~= p.push(ts.last()));
        p.lemma_filter_push(ts.last(), |t: TaskView| task_sort_key_spec(t.state) == 0);
        p.lemma_filter_push(ts.last(), |t: TaskView| task_sort_key_spec(t.state) == 1);
        p.lemma_filter_push(ts.last(), |t: TaskView| task_sort_key_spec(t.state) == 2);
        p.lemma_filter_push(ts.last(), |t: TaskView| task_sort_key_spec(t.state) == 3);
        p.lemma_filter_push(ts.last(), |t: TaskView| task_sort_key_spec(t.state) == 4);
    } else {
        reveal(Seq::filter);
    }
}

/// The status bar of the tasks pane.
pub open spec fn tasks_status_spec(thread_id: u32, slug: Seq<char>) -> Seq<char> {
    "  #"@ + id4(thread_id) + " "@ + slug + " > tasks   |   esc back   |   ? help"@
}

pub fn tasks_status_text(thread_id: u32, thread_slug: &str) -> (r: String)
    ensures
        r@ == tasks_status_spec(thread_id, thread_slug@),
{
    let mut r = String::from_str("  #");
    push_zero_padded(&mut r, thread_id as u64, 4);
    r.append(" ");
    r.append(thread_slug);
    r.append(" > tasks   |   esc back   |   ? help");
    r
}


// ---------------------------------------------------------------------------
// Laws of the threads pane
// ---------------------------------------------------------------------------

/// Some row of the layout shows the thread at position `k`.
pub open spec fn shown_on_some_row(layout: Seq<Option<nat>>, k: nat) -> bool {
    exists|r: int| #[trigger] row_at(layout, r) == Some(k)
}

proof fn lemma_section_shape(title: Seq<char>, sec: Seq<ThreadView>, ws: ColWidths, selected: nat, start: nat, offset: nat)
    ensures
        section_lines_spec(title, sec, ws, selected, start).len() == (if sec.len() > 0 { section_rows(sec.len(), offset).len() } else { 0 }),
        forall|j: int| 0 <= j < sec.len() ==> #[trigger] section_rows(sec.len(), offset)[2 + j] == Some((offset + j) as nat)
            && section_lines_spec(title, sec, ws, selected, start)[2 + j].0 == thread_row_spec(sec[j], ws),
        forall|r: int| 0 <= r < section_rows(sec.len(), offset).len() && (r < 2 || r >= 2 + sec.len()) ==> #[trigger] section_rows(sec.len(), offset)[r] is None,
        forall|j: int| 0 <= j < sec.len() ==> (#[trigger] section_lines_spec(title, sec, ws, selected, start)[2 + j]).1
            == (if start + j == selected { LineStyle::Selected } else { LineStyle::Plain }),
        forall|r: int| 0 <= r < section_lines_spec(title, sec, ws, selected, start).len() && (r < 2 || r >= 2 + sec.len())
            ==> (#[trigger] section_lines_spec(title, sec, ws, selected, start)[r]).1 != LineStyle::Selected,
{
}

/// The threads pane has as many lines as `count_rows` counts, and a row
/// that `row_to_thread_index` maps to position `k` of the ordered list is
/// the line that shows the thread at that position; every thread of the
/// ordered list is shown on some row.
pub proof fn law_rows_match_pane(ts: Seq<ThreadView>, width: u16, selected: nat)
    ensures
        threads_pane_spec(ts, width, selected).len() == thread_layout(ts).len(),
        ordered_spec(ts).len() == ts.len(),
        forall|r: int| #[trigger] row_at(thread_layout(ts), r) is Some ==> ({
            let k = row_at(thread_layout(ts), r)->0;
            &&& k < ordered_spec(ts).len()
            &&& threads_pane_spec(ts, width, selected)[r].0 == thread_row_spec(ordered_spec(ts)[k as int], col_widths_of(width))
        }),
        forall|k: nat| k < ordered_spec(ts).len() ==> #[trigger] shown_on_some_row(thread_layout(ts), k),
{
    lemma_groups_partition(ts);
    let ws = col_widths_of(width);
    let av = group_filter(ts, Group::Active);
    let fv = focus_section(ts);
    let bv = group_filter(ts, Group::Background);
    let a = av.len();
    let f = fv.len();
    let b = bv.len();
    assert(f == group_filter(ts, Group::Focus).len());
    let ord = ordered_spec(ts);
    assert(ord =~= av + fv + bv);
    let l1 = section_lines_spec("Active"@, av, ws, selected, 0);
    let l2 = section_lines_spec("Priority & Incidents"@, fv, ws, selected, a);
    let l3 = section_lines_spec("Background"@, bv, ws, selected, a + f);
    lemma_section_shape("Active"@, av, ws, selected, 0, 0);
    lemma_section_shape("Priority & Incidents"@, fv, ws, selected, a, a);
    lemma_section_shape("Background"@, bv, ws, selected, a + f, a + f);
    let s1 = if a > 0 { section_rows(a, 0) } else { Seq::empty() };
    let s2 = if f > 0 { (if a > 0 { seq![None] } else { Seq::empty() }) + section_rows(f, a) } else { Seq::empty() };
    let s3 = if b > 0 { (if a + f > 0 { seq![None] } else { Seq::empty() }) + section_rows(b, a + f) } else { Seq::empty() };
    let layout = thread_layout(ts);
    assert(layout == s1 + s2 + s3);
    let pane = threads_pane_spec(ts, width, selected);
    let j12 = join_sections(l1, l2);
    assert(pane == join_sections(j12, l3));
    assert(j12.len() == s1.len() + s2.len());
    assert(pane.len() == layout.len());
    let o2: int = s1.len() + (if f > 0 && a > 0 { 1int } else { 0 });
    let o3: int = s1.len() + s2.len() + (if b > 0 && a + f > 0 { 1int } else { 0 });
    assert forall|r: int| #[trigger] row_at(layout, r) is Some implies ({
        let k = row_at(layout, r)->0;
        &&& k < ord.len()
        &&& pane[r].0 == thread_row_spec(ord[k as int], ws)
    }) by {
        if r < s1.len() {
            assert(layout[r] == s1[r]);
            let j = r - 2;
            assert(section_rows(a, 0)[r] is Some);
            assert(2 <= r < 2 + a);
            assert(section_rows(a, 0)[2 + j] == Some(j as nat));
            assert(j12[r] == l1[r]);
            assert(pane[r] == j12[r]);
            assert(ord[j] == av[j]);
        } else if r < s1.len() + s2.len() {
            assert(layout[r] == s2[r - s1.len()]);
            let j = r - o2 - 2;
            assert(section_rows(f, a)[r - o2] is Some);
            assert(2 <= r - o2 < 2 + f);
            assert(section_rows(f, a)[2 + j] == Some((a + j) as nat));
            assert(j12[r] == l2[r - o2]);
            assert(pane[r] == j12[r]);
            assert(ord[a + j] == fv[j]);
        } else {
            assert(layout[r] == s3[r - s1.len() - s2.len()]);
            let j = r - o3 - 2;
            assert(section_rows(b, a + f)[r - o3] is Some);
            assert(2 <= r - o3 < 2 + b);
            assert(section_rows(b, a + f)[2 + j] == Some((a + f + j) as nat));
            assert(pane[r] == l3[r - o3]);
            assert(ord[a + f + j] == bv[j]);
        }
    }
    lemma_every_thread_shown(ts);
}


/// Every thread of the ordered list has a row of the layout.
proof fn lemma_every_thread_shown(ts: Seq<ThreadView>)
    ensures
        forall|k: nat| k < ordered_spec(ts).len() ==> #[trigger] shown_on_some_row(thread_layout(ts), k),
{
    lemma_groups_partition(ts);
    let a = group_filter(ts, Group::Active).len();
    let f = group_filter(ts, Group::Focus).len();
    let b = group_filter(ts, Group::Background).len();
    let ord = ordered_spec(ts);
    let s1 = if a > 0 { section_rows(a, 0) } else { Seq::empty() };
    let s2 = if f > 0 { (if a > 0 { seq![None] } else { Seq::empty() }) + section_rows(f, a) } else { Seq::empty() };
    let s3 = if b > 0 { (if a + f > 0 { seq![None] } else { Seq::empty() }) + section_rows(b, a + f) } else { Seq::empty() };
    let layout = thread_layout(ts);
    assert(layout == s1 + s2 + s3);
    let o2: int = s1.len() + (if f > 0 && a > 0 { 1int } else { 0 });
    let o3: int = s1.len() + s2.len() + (if b > 0 && a + f > 0 { 1int } else { 0 });
    assert forall|k: nat| k < ord.len() implies #[trigger] shown_on_some_row(layout, k) by {
        if k < a {
            assert(layout[2 + k as int] == s1[2 + k as int]);
            assert(row_at(layout, 2 + k as int) == Some(k));
        } else if k < a + f {
            let j = k - a;
            assert(layout[o2 + 2 + j] == s2[o2 + 2 + j - s1.len()]);
            assert(section_rows(f, a)[2 + j] == Some((a + j) as nat));
            assert(row_at(layout, o2 + 2 + j) == Some(k));
        } else {
            let j = k - a - f;
            assert(layout[o3 + 2 + j] == s3[o3 + 2 + j - s1.len() - s2.len()]);
            assert(section_rows(b, a + f)[2 + j] == Some((a + f + j) as nat));
            assert(row_at(layout, o3 + 2 + j) == Some(k));
        }
    }
}

/// The tasks pane of a thread with tasks has as many lines as
/// `count_task_rows` counts (for a thread without tasks it counts one line
/// fewer than the pane shows).
pub proof fn law_task_rows_match_pane(priority: Seq<char>, ts: Seq<TaskView>, thread_id: u32, slug: Seq<char>, width: u16)
    requires
        ts.len() > 0,
    ensures
        tasks_pane_spec(priority, ts, thread_id, slug, width).len() == task_rows_spec(ts.len()),
{
    lemma_sorted_tasks_len(ts);
}

/// The row of the threads pane that shows the thread at position `k` of
/// the display order: below its section's title and top border, after the
/// sections before it and the blank rows between sections.
pub open spec fn thread_row(ts: Seq<ThreadView>, k: int) -> int {
    let a = group_filter(ts, Group::Active).len() as int;
    let f = group_filter(ts, Group::Focus).len() as int;
    let s1 = if a > 0 { a + 3 } else { 0 };
    let s2 = if f > 0 { (if a > 0 { 1int } else { 0 }) + f + 3 } else { 0 };
    if k < a {
        2 + k
    } else if k < a + f {
        s1 + (if a > 0 { 1int } else { 0 }) + 2 + (k - a)
    } else {
        s1 + s2 + (if a + f > 0 { 1int } else { 0 }) + 2 + (k - a - f)
    }
}

/// Each thread of the display order is shown on exactly one row,
/// `thread_row`, which is where `row_to_thread_index` finds it; these rows
/// increase with the position; a row that shows a thread shows one of the
/// list; and rows at or past the row count show none.
pub proof fn law_each_thread_has_one_row(ts: Seq<ThreadView>)
    ensures
        forall|k: int| 0 <= k < ordered_spec(ts).len()
            ==> #[trigger] row_at(thread_layout(ts), thread_row(ts, k)) == Some(k as nat),
        forall|r: int| #[trigger] row_at(thread_layout(ts), r) is Some
            ==> row_at(thread_layout(ts), r)->0 < ordered_spec(ts).len()
                && r == thread_row(ts, row_at(thread_layout(ts), r)->0 as int),
        forall|k1: int, k2: int| 0 <= k1 < k2 < ordered_spec(ts).len()
            ==> #[trigger] thread_row(ts, k1) < #[trigger] thread_row(ts, k2),
        forall|r: int| r >= thread_layout(ts).len() ==> #[trigger] row_at(thread_layout(ts), r) is None,
{
    lemma_groups_partition(ts);
    let a = group_filter(ts, Group::Active).len();
    let f = group_filter(ts, Group::Focus).len();
    let b = group_filter(ts, Group::Background).len();
    let n = ordered_spec(ts).len();
    assert(n == a + f + b) by {
        assert(group_filter(ts, Group::Focus).len() == group_filter(ts, Group::Incident).len()
            + group_filter(ts, Group::Priority).len());
    }
    let s1 = if a > 0 { section_rows(a, 0) } else { Seq::empty() };
    let s2 = if f > 0 { (if a > 0 { seq![None] } else { Seq::empty() }) + section_rows(f, a) } else { Seq::empty() };
    let s3 = if b > 0 { (if a + f > 0 { seq![None] } else { Seq::empty() }) + section_rows(b, a + f) } else { Seq::empty() };
    let layout = thread_layout(ts);
    assert(layout == s1 + s2 + s3);
    let o2: int = s1.len() + (if f > 0 && a > 0 { 1int } else { 0 });
    let o3: int = s1.len() + s2.len() + (if b > 0 && a + f > 0 { 1int } else { 0 });
    assert forall|k: int| 0 <= k < n implies #[trigger] row_at(layout, thread_row(ts, k)) == Some(k as nat) by {
        if k < a {
            assert(layout[2 + k] == s1[2 + k]);
        } else if k < a + f {
            let j = k - a;
            assert(thread_row(ts, k) == o2 + 2 + j);
            assert(layout[o2 + 2 + j] == s2[o2 + 2 + j - s1.len()]);
            assert(section_rows(f, a)[2 + j] == Some((a + j) as nat));
        } else {
            let j = k - a - f;
            assert(thread_row(ts, k) == o3 + 2 + j);
            assert(layout[o3 + 2 + j] == s3[o3 + 2 + j - s1.len() - s2.len()]);
            assert(section_rows(b, a + f)[2 + j] == Some((a + f + j) as nat));
        }
    }
    assert forall|r: int| #[trigger] row_at(layout, r) is Some
        implies row_at(layout, r)->0 < n && r == thread_row(ts, row_at(layout, r)->0 as int) by {
        assert(0 <= r < layout.len());
        if r < s1.len() {
            assert(layout[r] == s1[r]);
            assert(section_rows(a, 0)[r] is Some);
            assert(2 <= r < 2 + a);
            assert(section_rows(a, 0)[r] == Some((r - 2) as nat));
        } else if r < s1.len() + s2.len() {
            assert(layout[r] == s2[r - s1.len()]);
            assert(section_rows(f, a)[r - o2] is Some);
            assert(2 <= r - o2 < 2 + f);
            assert(section_rows(f, a)[r - o2] == Some((a + (r - o2 - 2)) as nat));
        } else {
            assert(layout[r] == s3[r - s1.len() - s2.len()]);
            assert(section_rows(b, a + f)[r - o3] is Some);
            assert(2 <= r - o3 < 2 + b);
            assert(section_rows(b, a + f)[r - o3] == Some((a + f + (r - o3 - 2)) as nat));
        }
    }
}

/// A line of the threads pane is highlighted exactly when its row shows
/// the selected position.
#[verifier::spinoff_prover]
#[verifier::rlimit(60)]
proof fn lemma_highlighted_rows(ts: Seq<ThreadView>, width: u16, selected: nat)
    ensures
        forall|r: int| 0 <= r < threads_pane_spec(ts, width, selected).len() ==>
            ((#[trigger] threads_pane_spec(ts, width, selected)[r]).1 == LineStyle::Selected
                <==> row_at(thread_layout(ts), r) == Some(selected)),
{
    lemma_groups_partition(ts);
    let ws = col_widths_of(width);
    let av = group_filter(ts, Group::Active);
    let fv = focus_section(ts);
    let bv = group_filter(ts, Group::Background);
    let a = av.len();
    let f = fv.len();
    let b = bv.len();
    assert(f == group_filter(ts, Group::Focus).len());
    let l1 = section_lines_spec("Active"@, av, ws, selected, 0);
    let l2 = section_lines_spec("Priority & Incidents"@, fv, ws, selected, a);
    let l3 = section_lines_spec("Background"@, bv, ws, selected, a + f);
    lemma_section_shape("Active"@, av, ws, selected, 0, 0);
    lemma_section_shape("Priority & Incidents"@, fv, ws, selected, a, a);
    lemma_section_shape("Background"@, bv, ws, selected, a + f, a + f);
    let s1 = if a > 0 { section_rows(a, 0) } else { Seq::empty() };
    let s2 = if f > 0 { (if a > 0 { seq![None] } else { Seq::empty() }) + section_rows(f, a) } else { Seq::empty() };
    let s3 = if b > 0 { (if a + f > 0 { seq![None] } else { Seq::empty() }) + section_rows(b, a + f) } else { Seq::empty() };
    let layout = thread_layout(ts);
    assert(layout == s1 + s2 + s3);
    let pane = threads_pane_spec(ts, width, selected);
    let j12 = join_sections(l1, l2);
    assert(pane == join_sections(j12, l3));
    assert(j12.len() == s1.len() + s2.len());
    assert(pane.len() == layout.len());
    let o2: int = s1.len() + (if f > 0 && a > 0 { 1int } else { 0 });
    let o3: int = s1.len() + s2.len() + (if b > 0 && a + f > 0 { 1int } else { 0 });
    assert forall|r: int| 0 <= r < pane.len() implies
        ((#[trigger] pane[r]).1 == LineStyle::Selected <==> row_at(layout, r) == Some(selected)) by {
        if r < s1.len() {
            assert(layout[r] == s1[r]);
            assert(j12[r] == l1[r]);
            assert(pane[r] == j12[r]);
            if 2 <= r < 2 + a {
                assert(section_rows(a, 0)[2 + (r - 2)] == Some((r - 2) as nat));
                assert(l1[2 + (r - 2)].1 == (if r - 2 == selected { LineStyle::Selected } else { LineStyle::Plain }));
            }
        } else if r < s1.len() + s2.len() {
            assert(layout[r] == s2[r - s1.len()]);
            assert(pane[r] == j12[r]);
            if r < o2 {
                assert(j12[r].1 == LineStyle::Plain);
                assert(s2[r - s1.len()] is None);
            } else {
                assert(j12[r] == l2[r - o2]);
                assert(s2[r - s1.len()] == section_rows(f, a)[r - o2]);
                if 2 <= r - o2 < 2 + f {
                    let j = r - o2 - 2;
                    assert(section_rows(f, a)[2 + j] == Some((a + j) as nat));
                    assert(l2[2 + j].1 == (if a + j == selected { LineStyle::Selected } else { LineStyle::Plain }));
                }
            }
        } else {
            assert(layout[r] == s3[r - s1.len() - s2.len()]);
            if r < o3 {
                assert(pane[r].1 == LineStyle::Plain);
                assert(s3[r - s1.len() - s2.len()] is None);
            } else {
                assert(pane[r] == l3[r - o3]);
                assert(s3[r - s1.len() - s2.len()] == section_rows(b, a + f)[r - o3]);
                if 2 <= r - o3 < 2 + b {
                    let j = r - o3 - 2;
                    assert(section_rows(b, a + f)[2 + j] == Some((a + f + j) as nat));
                    assert(l3[2 + j].1 == (if a + f + j == selected { LineStyle::Selected } else { LineStyle::Plain }));
                }
            }
        }
    }
}

/// In the threads pane exactly one line is highlighted when the selection
/// is a thread of the list, and it is the line of that thread: the line on
/// a thread's row is highlighted if and only if the thread is the one at
/// position `selected` of the display order, and no title, border or blank
/// line is ever highlighted.
pub proof fn law_only_selected_thread_highlighted(ts: Seq<ThreadView>, width: u16, selected: nat)
    ensures
        forall|k: int| 0 <= k < ordered_spec(ts).len() ==>
            ((#[trigger] threads_pane_spec(ts, width, selected)[thread_row(ts, k)]).1 == LineStyle::Selected
                <==> k == selected),
        forall|r: int| 0 <= r < threads_pane_spec(ts, width, selected).len() ==>
            ((#[trigger] threads_pane_spec(ts, width, selected)[r]).1 == LineStyle::Selected
                <==> row_at(thread_layout(ts), r) == Some(selected)),
{
    lemma_highlighted_rows(ts, width, selected);
    law_each_thread_has_one_row(ts);
    law_rows_match_pane(ts, width, selected);
    let pane = threads_pane_spec(ts, width, selected);
    let layout = thread_layout(ts);
    assert forall|k: int| 0 <= k < ordered_spec(ts).len() implies
        ((#[trigger] pane[thread_row(ts, k)]).1 == LineStyle::Selected <==> k == selected) by {
        assert(row_at(layout, thread_row(ts, k)) == Some(k as nat));
        assert(0 <= thread_row(ts, k) < layout.len());
        assert(pane[thread_row(ts, k)].1 == LineStyle::Selected <==> row_at(layout, thread_row(ts, k)) == Some(selected));
    }
}

} // verus!
