//! What the terminal view does with a key press or a mouse event: which
//! pane it shows, where it is scrolled, which thread is selected, and what
//! the program around it has to do next (quit, or load a thread's tasks).

use vstd::prelude::*;
use crate::layout::{
    build_ordered_threads, count_rows, count_task_rows, max_scroll, ordered_spec, row_at,
    row_to_thread_index, scroll_bottom, scroll_down, task_rows_spec, thread_layout, thread_row,
    law_each_thread_has_one_row,
    lemma_groups_partition,
};
use crate::model::{threads_view, Task, Thread, ThreadView};
use crate::tasks::{active_thread_index, first_active_index};

verus! {

/// The pane on screen: the thread list, or the tasks of one thread.
pub enum Pane {
    Threads,
    Tasks { thread_id: u32, slug: String },
}

/// The mathematical value of a pane.
pub enum PaneView {
    Threads,
    Tasks { thread_id: u32, slug: Seq<char> },
}

impl View for Pane {
    type V = PaneView;

    open spec fn view(&self) -> PaneView {
        match self {
            Pane::Threads => PaneView::Threads,
            Pane::Tasks { thread_id, slug } => PaneView::Tasks { thread_id: *thread_id, slug: slug@ },
        }
    }
}

/// Everything the view remembers between events.
pub struct ViewState {
    pub pane: Pane,
    /// First row of the threads pane on screen.
    pub scroll: usize,
    /// First row of the tasks pane on screen.
    pub task_scroll: usize,
    /// Position of the selected thread in display order.
    pub selected: usize,
    /// The last key was a `g` that started a two-key command.
    pub last_g: bool,
    pub show_help: bool,
}

/// The mathematical value of the view's state.
pub struct ViewStateView {
    pub pane: PaneView,
    pub scroll: usize,
    pub task_scroll: usize,
    pub selected: usize,
    pub last_g: bool,
    pub show_help: bool,
}

impl View for ViewState {
    type V = ViewStateView;

    open spec fn view(&self) -> ViewStateView {
        ViewStateView {
            pane: self.pane@,
            scroll: self.scroll,
            task_scroll: self.task_scroll,
            selected: self.selected,
            last_g: self.last_g,
            show_help: self.show_help,
        }
    }
}

/// A key, as far as the view tells keys apart.
#[derive(Clone, Copy)]
pub enum Key {
    Char(char),
    Esc,
    Enter,
    Up,
    Down,
    Other,
}

/// An input event: a key press (with whether Control was held), the mouse
/// wheel, a left click on a screen row, or anything else.
#[derive(Clone, Copy)]
pub enum Input {
    Key { key: Key, ctrl: bool },
    ScrollDown,
    ScrollUp,
    Click { row: u16 },
    Other,
}

/// What the program around the view does after an event.
#[derive(Debug, Clone, Copy, PartialEq, Eq)]
pub enum Effect {
    Continue,
    Quit,
    /// Load the tasks of this thread, now shown in the tasks pane.
    LoadTasks { thread_id: u32 },
}

/// The view as it starts: the thread list, at the top, nothing selected
/// but the first thread.
pub open spec fn initial_view() -> ViewStateView {
    ViewStateView { pane: PaneView::Threads, scroll: 0, task_scroll: 0, selected: 0, last_g: false, show_help: false }
}

impl ViewState {
    pub fn new() -> (r: ViewState)
        ensures
            r@ == initial_view(),
    {
        ViewState { pane: Pane::Threads, scroll: 0, task_scroll: 0, selected: 0, last_g: false, show_help: false }
    }
}

/// Half a screen, and at least one row.
pub open spec fn page(height: usize) -> int {
    if height / 2 >= 1 { (height / 2) as int } else { 1 }
}

pub open spec fn scrolled_down(scroll: int, rows: int, height: int, amount: int) -> int {
    if scroll + amount < max_scroll(rows, height) { scroll + amount } else { max_scroll(rows, height) }
}

pub open spec fn scrolled_up(scroll: int, amount: int) -> int {
    if scroll >= amount { scroll - amount } else { 0 }
}

/// Shows the tasks of thread `t`, from their top.
pub open spec fn open_tasks(s: ViewStateView, t: ThreadView) -> (ViewStateView, Effect) {
    (
        ViewStateView { pane: PaneView::Tasks { thread_id: t.id, slug: t.slug }, task_scroll: 0, ..s },
        Effect::LoadTasks { thread_id: t.id },
    )
}

pub open spec fn stay(s: ViewStateView) -> (ViewStateView, Effect) {
    (s, Effect::Continue)
}

/// A key pressed on the thread list (`g_pressed`: the key before was `g`).
pub open spec fn threads_key(
    s: ViewStateView,
    key: Key,
    ctrl: bool,
    g_pressed: bool,
    ts: Seq<ThreadView>,
    height: usize,
) -> (ViewStateView, Effect) {
    let count = ordered_spec(ts).len() as int;
    let rows = thread_layout(ts).len() as int;
    match key {
        Key::Char('q') | Key::Esc => (s, Effect::Quit),
        Key::Char('?') => stay(ViewStateView { show_help: true, ..s }),
        Key::Char('j') | Key::Down => {
            let selected = if count > 0 {
                if s.selected + 1 < count - 1 { s.selected + 1 } else { count - 1 }
            } else {
                s.selected as int
            };
            let down = scrolled_down(s.scroll as int, rows, height as int, 0);
            let scroll = if down > s.scroll { down } else { s.scroll as int };
            stay(ViewStateView { selected: selected as usize, scroll: scroll as usize, ..s })
        },
        Key::Char('k') | Key::Up => stay(ViewStateView { selected: scrolled_up(s.selected as int, 1) as usize, ..s }),
        Key::Char('d') if ctrl => stay(ViewStateView {
            scroll: scrolled_down(s.scroll as int, rows, height as int, page(height)) as usize,
            ..s
        }),
        Key::Char('u') if ctrl => stay(ViewStateView { scroll: scrolled_up(s.scroll as int, page(height)) as usize, ..s }),
        Key::Char('g') => if g_pressed {
            stay(ViewStateView { scroll: 0, selected: 0, ..s })
        } else {
            stay(ViewStateView { last_g: true, ..s })
        },
        Key::Char('t') if g_pressed => match first_active_index(ts) {
            Some(i) => open_tasks(s, ts[i as int]),
            None => stay(s),
        },
        Key::Char('G') => stay(ViewStateView {
            scroll: max_scroll(rows, height as int) as usize,
            selected: if count > 0 { (count - 1) as usize } else { s.selected },
            ..s
        }),
        Key::Enter => if s.selected < count {
            open_tasks(s, ordered_spec(ts)[s.selected as int])
        } else {
            stay(s)
        },
        _ => stay(s),
    }
}

/// A key pressed on the tasks pane of a thread that has `n_tasks` tasks.
pub open spec fn tasks_key(
    s: ViewStateView,
    key: Key,
    ctrl: bool,
    g_pressed: bool,
    n_tasks: nat,
    height: usize,
) -> (ViewStateView, Effect) {
    let rows = task_rows_spec(n_tasks) as int;
    match key {
        Key::Char('q') => (s, Effect::Quit),
        Key::Esc => stay(ViewStateView { pane: PaneView::Threads, ..s }),
        Key::Char('o') if ctrl => stay(ViewStateView { pane: PaneView::Threads, ..s }),
        Key::Char('?') => stay(ViewStateView { show_help: true, ..s }),
        Key::Char('j') | Key::Down => stay(ViewStateView {
            task_scroll: scrolled_down(s.task_scroll as int, rows, height as int, 1) as usize,
            ..s
        }),
        Key::Char('k') | Key::Up => stay(ViewStateView { task_scroll: scrolled_up(s.task_scroll as int, 1) as usize, ..s }),
        Key::Char('d') if ctrl => stay(ViewStateView {
            task_scroll: scrolled_down(s.task_scroll as int, rows, height as int, page(height)) as usize,
            ..s
        }),
        Key::Char('u') if ctrl => stay(ViewStateView {
            task_scroll: scrolled_up(s.task_scroll as int, page(height)) as usize,
            ..s
        }),
        Key::Char('g') => if g_pressed {
            stay(ViewStateView { task_scroll: 0, ..s })
        } else {
            stay(ViewStateView { last_g: true, ..s })
        },
        Key::Char('G') => stay(ViewStateView { task_scroll: max_scroll(rows, height as int) as usize, ..s }),
        _ => stay(s),
    }
}

/// What an event does to the view, given the threads and the number of
/// tasks on screen and the height of the pane area. A key press first
/// closes the help popup if it is open, and does nothing else then.
pub open spec fn step_spec(
    s: ViewStateView,
    input: Input,
    ts: Seq<ThreadView>,
    n_tasks: nat,
    height: usize,
) -> (ViewStateView, Effect) {
    match input {
        Input::Key { key, ctrl } => if s.show_help {
            stay(ViewStateView { show_help: false, ..s })
        } else {
            let s1 = ViewStateView { last_g: false, ..s };
            match s.pane {
                PaneView::Threads => threads_key(s1, key, ctrl, s.last_g, ts, height),
                PaneView::Tasks { .. } => tasks_key(s1, key, ctrl, s.last_g, n_tasks, height),
            }
        },
        Input::ScrollDown => match s.pane {
            PaneView::Threads => stay(ViewStateView {
                scroll: scrolled_down(s.scroll as int, thread_layout(ts).len() as int, height as int, 3) as usize,
                ..s
            }),
            PaneView::Tasks { .. } => stay(ViewStateView {
                task_scroll: scrolled_down(s.task_scroll as int, task_rows_spec(n_tasks) as int, height as int, 3) as usize,
                ..s
            }),
        },
        Input::ScrollUp => match s.pane {
            PaneView::Threads => stay(ViewStateView { scroll: scrolled_up(s.scroll as int, 3) as usize, ..s }),
            PaneView::Tasks { .. } => stay(ViewStateView { task_scroll: scrolled_up(s.task_scroll as int, 3) as usize, ..s }),
        },
        Input::Click { row } => match s.pane {
            PaneView::Threads => match row_at(thread_layout(ts), row + s.scroll) {
                Some(k) => if k < ordered_spec(ts).len() {
                    open_tasks(s, ordered_spec(ts)[k as int])
                } else {
                    stay(s)
                },
                None => stay(s),
            },
            PaneView::Tasks { .. } => stay(s),
        },
        Input::Other => stay(s),
    }
}

/// The event's scrolling and selection arithmetic stays within `usize`
/// (outside these bounds the view's arithmetic would overflow).
pub open spec fn step_fits(s: ViewStateView, input: Input, ts: Seq<ThreadView>, height: usize) -> bool {
    match input {
        Input::Key { key, ctrl } => s.show_help || match s.pane {
            PaneView::Threads => {
                &&& ((key == Key::Char('j') || key == Key::Down) && ts.len() > 0) ==> s.selected + 1 <= usize::MAX
                &&& (key == Key::Char('d') && ctrl) ==> s.scroll + page(height) <= usize::MAX
            },
            PaneView::Tasks { .. } => {
                &&& (key == Key::Char('j') || key == Key::Down) ==> s.task_scroll + 1 <= usize::MAX
                &&& (key == Key::Char('d') && ctrl) ==> s.task_scroll + page(height) <= usize::MAX
            },
        },
        Input::ScrollDown => match s.pane {
            PaneView::Threads => s.scroll + 3 <= usize::MAX,
            PaneView::Tasks { .. } => s.task_scroll + 3 <= usize::MAX,
        },
        Input::Click { row } => s.pane is Tasks || row + s.scroll <= usize::MAX,
        _ => true,
    }
}

fn page_of(height: usize) -> (r: usize)
    ensures
        r == page(height),
{
    let half = height / 2;
    if half >= 1 { half } else { 1 }
}

fn scroll_up(scroll: usize, amount: usize) -> (r: usize)
    ensures
        r == scrolled_up(scroll as int, amount as int),
{
    scroll.saturating_sub(amount)
}

/// Shows the tasks of the thread at `i` of `threads`.
fn open_thread(state: &mut ViewState, t: &Thread) -> (e: Effect)
    ensures
        (final(state)@, e) == open_tasks(old(state)@, t@),
{
    state.pane = Pane::Tasks { thread_id: t.id, slug: t.slug.clone() };
    state.task_scroll = 0;
    Effect::LoadTasks { thread_id: t.id }
}

fn threads_key_step(state: &mut ViewState, key: Key, ctrl: bool, g_pressed: bool, threads: &Vec<Thread>, height: usize) -> (e: Effect)
    requires
        threads@.len() + 11 <= usize::MAX,
        ((key == Key::Char('j') || key == Key::Down) && threads@.len() > 0) ==> old(state).selected + 1 <= usize::MAX,
        (key == Key::Char('d') && ctrl) ==> old(state).scroll + page(height) <= usize::MAX,
    ensures
        (final(state)@, e) == threads_key(old(state)@, key, ctrl, g_pressed, threads_view(threads@), height),
{
    let ghost ts = threads_view(threads@);
    let ordered = build_ordered_threads(threads);
    proof {
        lemma_groups_partition(ts);
        assert(ordered@.len() == ordered_spec(ts).len());
    }
    let thread_count = ordered.len();
    match key {
        Key::Char('q') | Key::Esc => Effect::Quit,
        Key::Char('?') => {
            state.show_help = true;
            Effect::Continue
        },
        Key::Char('j') | Key::Down => {
            if thread_count > 0 {
                let next = state.selected + 1;
                state.selected = if next < thread_count - 1 { next } else { thread_count - 1 };
            }
            let row_count = count_rows(threads);
            let down = scroll_down(state.scroll, row_count, height, 0);
            if down > state.scroll {
                state.scroll = down;
            }
            Effect::Continue
        },
        Key::Char('k') | Key::Up => {
            state.selected = scroll_up(state.selected, 1);
            Effect::Continue
        },
        Key::Char('d') if ctrl => {
            let row_count = count_rows(threads);
            state.scroll = scroll_down(state.scroll, row_count, height, page_of(height));
            Effect::Continue
        },
        Key::Char('u') if ctrl => {
            state.scroll = scroll_up(state.scroll, page_of(height));
            Effect::Continue
        },
        Key::Char('g') => {
            if g_pressed {
                state.scroll = 0;
                state.selected = 0;
            } else {
                state.last_g = true;
            }
            Effect::Continue
        },
        Key::Char('t') if g_pressed => match active_thread_index(threads) {
            Some(i) => open_thread(state, &threads[i]),
            None => Effect::Continue,
        },
        Key::Char('G') => {
            let row_count = count_rows(threads);
            state.scroll = scroll_bottom(row_count, height);
            if thread_count > 0 {
                state.selected = thread_count - 1;
            }
            Effect::Continue
        },
        Key::Enter => {
            if state.selected < thread_count {
                let t = ordered[state.selected];
                open_thread(state, t)
            } else {
                Effect::Continue
            }
        },
        _ => Effect::Continue,
    }
}

fn tasks_key_step(state: &mut ViewState, key: Key, ctrl: bool, g_pressed: bool, tasks: &Vec<Task>, height: usize) -> (e: Effect)
    requires
        tasks@.len() + 7 <= usize::MAX,
        (key == Key::Char('j') || key == Key::Down) ==> old(state).task_scroll + 1 <= usize::MAX,
        (key == Key::Char('d') && ctrl) ==> old(state).task_scroll + page(height) <= usize::MAX,
    ensures
        (final(state)@, e) == tasks_key(old(state)@, key, ctrl, g_pressed, tasks@.len(), height),
{
    let row_count = count_task_rows(tasks);
    match key {
        Key::Char('q') => Effect::Quit,
        Key::Esc => {
            state.pane = Pane::Threads;
            Effect::Continue
        },
        Key::Char('o') if ctrl => {
            state.pane = Pane::Threads;
            Effect::Continue
        },
        Key::Char('?') => {
            state.show_help = true;
            Effect::Continue
        },
        Key::Char('j') | Key::Down => {
            state.task_scroll = scroll_down(state.task_scroll, row_count, height, 1);
            Effect::Continue
        },
        Key::Char('k') | Key::Up => {
            state.task_scroll = scroll_up(state.task_scroll, 1);
            Effect::Continue
        },
        Key::Char('d') if ctrl => {
            state.task_scroll = scroll_down(state.task_scroll, row_count, height, page_of(height));
            Effect::Continue
        },
        Key::Char('u') if ctrl => {
            state.task_scroll = scroll_up(state.task_scroll, page_of(height));
            Effect::Continue
        },
        Key::Char('g') => {
            if g_pressed {
                state.task_scroll = 0;
            } else {
                state.last_g = true;
            }
            Effect::Continue
        },
        Key::Char('G') => {
            state.task_scroll = scroll_bottom(row_count, height);
            Effect::Continue
        },
        _ => Effect::Continue,
    }
}

fn fits(a: usize, b: usize) -> (r: bool)
    ensures
        r == (a + b <= usize::MAX),
{
    a <= usize::MAX - b
}

/// Whether `handle_input` can take this event without its arithmetic
/// overflowing.
pub fn input_fits(state: &ViewState, input: Input, threads: &Vec<Thread>, height: usize) -> (r: bool)
    ensures
        r == step_fits(state@, input, threads_view(threads@), height),
{
    let page = page_of(height);
    match input {
        Input::Key { key, ctrl } => {
            if state.show_help {
                return true;
            }
            let is_down = match key {
                Key::Char(c) => c == 'j',
                Key::Down => true,
                _ => false,
            };
            let is_page_down = match key {
                Key::Char(c) => c == 'd' && ctrl,
                _ => false,
            };
            match &state.pane {
                Pane::Threads => {
                    (!(is_down && threads.len() > 0) || fits(state.selected, 1))
                        && (!is_page_down || fits(state.scroll, page))
                },
                Pane::Tasks { .. } => {
                    (!is_down || fits(state.task_scroll, 1)) && (!is_page_down || fits(state.task_scroll, page))
                },
            }
        },
        Input::ScrollDown => match &state.pane {
            Pane::Threads => fits(state.scroll, 3),
            Pane::Tasks { .. } => fits(state.task_scroll, 3),
        },
        Input::Click { row } => match &state.pane {
            Pane::Threads => fits(row as usize, state.scroll),
            Pane::Tasks { .. } => true,
        },
        Input::ScrollUp | Input::Other => true,
    }
}

/// Handles one event: updates the view and says what the program does
/// next. `height` is the number of rows of the pane area.
pub fn handle_input(state: &mut ViewState, input: Input, threads: &Vec<Thread>, tasks: &Vec<Task>, height: usize) -> (e: Effect)
    requires
        threads@.len() + 11 <= usize::MAX,
        tasks@.len() + 7 <= usize::MAX,
        step_fits(old(state)@, input, threads_view(threads@), height),
    ensures
        (final(state)@, e) == step_spec(old(state)@, input, threads_view(threads@), tasks@.len(), height),
{
    match input {
        Input::Key { key, ctrl } => {
            if state.show_help {
                state.show_help = false;
                return Effect::Continue;
            }
            let g_pressed = state.last_g;
            state.last_g = false;
            match &state.pane {
                Pane::Threads => threads_key_step(state, key, ctrl, g_pressed, threads, height),
                Pane::Tasks { .. } => tasks_key_step(state, key, ctrl, g_pressed, tasks, height),
            }
        },
        Input::ScrollDown => {
            match &state.pane {
                Pane::Threads => {
                    let row_count = count_rows(threads);
                    state.scroll = scroll_down(state.scroll, row_count, height, 3);
                },
                Pane::Tasks { .. } => {
                    let row_count = count_task_rows(tasks);
                    state.task_scroll = scroll_down(state.task_scroll, row_count, height, 3);
                },
            }
            Effect::Continue
        },
        Input::ScrollUp => {
            match &state.pane {
                Pane::Threads => {
                    state.scroll = scroll_up(state.scroll, 3);
                },
                Pane::Tasks { .. } => {
                    state.task_scroll = scroll_up(state.task_scroll, 3);
                },
            }
            Effect::Continue
        },
        Input::Click { row } => {
            match &state.pane {
                Pane::Threads => {
                    let click_row = row as usize + state.scroll;
                    let ordered = build_ordered_threads(threads);
                    match row_to_thread_index(threads, click_row) {
                        Some(idx) => {
                            if idx < ordered.len() {
                                let t = ordered[idx];
                                open_thread(state, t)
                            } else {
                                Effect::Continue
                            }
                        },
                        None => Effect::Continue,
                    }
                },
                Pane::Tasks { .. } => Effect::Continue,
            }
        },
        Input::Other => Effect::Continue,
    }
}

/// The selection is a thread of the list (or the first position when the
/// list is empty) and neither pane is scrolled past its last page.
pub open spec fn view_in_range(s: ViewStateView, ts: Seq<ThreadView>, n_tasks: nat, height: usize) -> bool {
    &&& if ordered_spec(ts).len() == 0 { s.selected == 0 } else { s.selected < ordered_spec(ts).len() }
    &&& s.scroll <= max_scroll(thread_layout(ts).len() as int, height as int)
    &&& s.task_scroll <= max_scroll(task_rows_spec(n_tasks) as int, height as int)
}

/// Whatever event comes, a view in range stays in range while the lists
/// it shows stay the same.
pub proof fn law_view_stays_in_range(s: ViewStateView, input: Input, ts: Seq<ThreadView>, n_tasks: nat, height: usize)
    requires
        view_in_range(s, ts, n_tasks, height),
    ensures
        view_in_range(step_spec(s, input, ts, n_tasks, height).0, ts, n_tasks, height),
{
}

/// The view starts in range.
pub proof fn law_initial_view_in_range(ts: Seq<ThreadView>, n_tasks: nat, height: usize)
    ensures
        view_in_range(initial_view(), ts, n_tasks, height),
{
}

/// While the help popup is shown, any key press (`q` and Esc included)
/// only closes the popup: the view goes on, and pane, scroll positions,
/// selection and the pending `g` are left as they were.
pub proof fn law_key_closes_help(s: ViewStateView, key: Key, ctrl: bool, ts: Seq<ThreadView>, n_tasks: nat, height: usize)
    requires
        s.show_help,
    ensures
        step_spec(s, Input::Key { key, ctrl }, ts, n_tasks, height) == (ViewStateView { show_help: false, ..s }, Effect::Continue),
{
}

/// A click on screen row `row` of the thread list opens the thread shown
/// on that screen row, which is layout row `row + scroll`: the view turns
/// to that thread's tasks from their top and asks for them. A click on a
/// row that shows no thread changes nothing.
pub proof fn law_click_opens_thread_on_screen_row(
    s: ViewStateView,
    row: u16,
    ts: Seq<ThreadView>,
    n_tasks: nat,
    height: usize,
)
    requires
        s.pane is Threads,
    ensures
        forall|k: int| 0 <= k < ordered_spec(ts).len() && row + s.scroll == #[trigger] thread_row(ts, k) ==>
            step_spec(s, Input::Click { row }, ts, n_tasks, height) == (
                ViewStateView {
                    pane: PaneView::Tasks { thread_id: ordered_spec(ts)[k].id, slug: ordered_spec(ts)[k].slug },
                    task_scroll: 0,
                    ..s
                },
                Effect::LoadTasks { thread_id: ordered_spec(ts)[k].id },
            ),
        (forall|k: int| 0 <= k < ordered_spec(ts).len() ==> row + s.scroll != #[trigger] thread_row(ts, k)) ==>
            step_spec(s, Input::Click { row }, ts, n_tasks, height) == (s, Effect::Continue),
{
    law_each_thread_has_one_row(ts);
    let r = row + s.scroll;
    let layout = thread_layout(ts);
    if row_at(layout, r) is Some {
        let k = row_at(layout, r)->0;
        assert(r == thread_row(ts, k as int));
    }
}

} // verus!
