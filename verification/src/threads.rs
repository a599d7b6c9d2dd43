//! The daemon's thread registry: how a reference names a thread, how ids are
//! handed out, and what each request does to the list of threads.
//!
//! Each request is a function over the list; the daemon performs the file
//! system work around it (creating directories, appending to the event log,
//! rewriting the index) in the order that the request needs.

use vstd::prelude::*;
use crate::model::{
    abbrev_of, opt_view, parse_priority_spec, threads_view, JsonRpcError, Priority, StateView,
    Thread, ThreadState, ThreadView,
};
use crate::model::id4;
use crate::text::{
    decimal, digits_value, lemma_decimal, lemma_parse_digits, lemma_zeros_value, parse_u32,
    parse_u32_spec, str_eq, zero_pad,
};

verus! {

// ---------------------------------------------------------------------------
// Error codes and errors
// ---------------------------------------------------------------------------

pub const PARSE_ERROR: i64 = -32700;
pub const INVALID_REQUEST: i64 = -32600;
pub const METHOD_NOT_FOUND: i64 = -32601;
pub const INVALID_PARAMS: i64 = -32602;
pub const INTERNAL_ERROR: i64 = -32603;
pub const NOT_FOUND: i64 = -32604;

/// The mathematical value of an error: its code and message.
pub struct ErrorView {
    pub code: i64,
    pub message: Seq<char>,
}

impl View for JsonRpcError {
    type V = ErrorView;

    open spec fn view(&self) -> ErrorView {
        ErrorView { code: self.code, message: self.message@ }
    }
}

pub open spec fn err(code: i64, message: Seq<char>) -> ErrorView {
    ErrorView { code, message }
}

/// An error with a literal message.
pub fn make_error(code: i64, message: &str) -> (r: JsonRpcError)
    ensures
        r@ == err(code, message@),
{
    JsonRpcError { code, message: String::from_str(message) }
}

/// The error for a thread reference that names no thread.
pub open spec fn not_found_error(id: Seq<char>) -> ErrorView {
    err(NOT_FOUND, "Thread not found: "@ + id)
}

pub fn thread_not_found(id: &str) -> (r: JsonRpcError)
    ensures
        r@ == not_found_error(id@),
{
    let mut m = String::from_str("Thread not found: ");
    m.append(id);
    JsonRpcError { code: NOT_FOUND, message: m }
}

// ---------------------------------------------------------------------------
// Resolving a thread reference
// ---------------------------------------------------------------------------

/// `s` without its leading `'0'` characters.
pub open spec fn trim_zeros(s: Seq<char>) -> Seq<char>
    decreases s.len(),
{
    if s.len() > 0 && s[0] == '0' {
        trim_zeros(s.drop_first())
    } else {
        s
    }
}

/// The thread number a reference gives, if it reads as a number: first
/// with its leading zeros removed, then as written.
pub open spec fn ref_number(s: Seq<char>) -> Option<u32> {
    match parse_u32_spec(trim_zeros(s)) {
        Some(n) => Some(n),
        None => parse_u32_spec(s),
    }
}

/// Whether thread `t` is the one that reference `s` names: by number when
/// `s` reads as a number, by slug otherwise.
pub open spec fn ref_matches(s: Seq<char>, t: ThreadView) -> bool {
    match ref_number(s) {
        Some(n) => t.id == n,
        None => t.slug == s,
    }
}

/// `r` is the first index of `ts` whose thread reference `s` names, or
/// `None` when it names none.
pub open spec fn resolves(ts: Seq<ThreadView>, s: Seq<char>, r: Option<usize>) -> bool {
    match r {
        Some(i) => i < ts.len() && ref_matches(s, ts[i as int])
            && forall|j: int| 0 <= j < i ==> !ref_matches(s, #[trigger] ts[j]),
        None => forall|j: int| 0 <= j < ts.len() ==> !ref_matches(s, #[trigger] ts[j]),
    }
}

/// The index that reference `s` resolves to in `ts`.
pub open spec fn resolve_spec(ts: Seq<ThreadView>, s: Seq<char>) -> Option<usize> {
    if exists|i: usize| #[trigger] resolves(ts, s, Some(i)) {
        Some(choose|i: usize| #[trigger] resolves(ts, s, Some(i)))
    } else {
        None
    }
}

/// `resolves` has exactly one answer, and it is `resolve_spec`.
pub proof fn lemma_resolves_unique(ts: Seq<ThreadView>, s: Seq<char>, r: Option<usize>)
    requires
        resolves(ts, s, r),
    ensures
        r == resolve_spec(ts, s),
{
    match r {
        Some(i) => {
            assert(resolves(ts, s, Some(i)));
            let k = choose|k: usize| #[trigger] resolves(ts, s, Some(k));
            if k < i {
                assert(!ref_matches(s, ts[k as int]));
            } else if i < k {
                assert(!ref_matches(s, ts[i as int]));
            }
        },
        None => {
            if exists|i: usize| #[trigger] resolves(ts, s, Some(i)) {
                let k = choose|k: usize| #[trigger] resolves(ts, s, Some(k));
                assert(ref_matches(s, ts[k as int]));
            }
        },
    }
}

/// `s` without its leading zeros.
fn trim_leading_zeros(s: &str) -> (r: &str)
    ensures
        r@ == trim_zeros(s@),
{
    let n = s.unicode_len();
    let mut k: usize = 0;
    assert(s@.subrange(0, n as int) =~= s@);
    while k < n && s.get_char(k) == '0'
        invariant
            k <= n,
            n == s@.len(),
            trim_zeros(s@) == trim_zeros(s@.subrange(k as int, n as int)),
        decreases n - k,
    {
        proof {
            let t = s@.subrange(k as int, n as int);
            assert(t.drop_first() =~= s@.subrange(k + 1, n as int));
        }
        k = k + 1;
    }
    s.substring_char(k, n)
}

/// The number a reference reads as, if any.
pub fn reference_number(s: &str) -> (r: Option<u32>)
    ensures
        r == ref_number(s@),
{
    match parse_u32(trim_leading_zeros(s)) {
        Some(n) => Some(n),
        None => parse_u32(s),
    }
}

/// Resolve a thread index by numeric id (e.g. "1", "0001") or slug.
pub fn resolve_thread_idx(locked: &Vec<Thread>, id_str: &str) -> (r: Option<usize>)
    ensures
        resolves(threads_view(locked@), id_str@, r),
        r == resolve_spec(threads_view(locked@), id_str@),
{
    let ghost tv = threads_view(locked@);
    let num = reference_number(id_str);
    let mut i: usize = 0;
    while i < locked.len()
        invariant
            i <= locked@.len(),
            tv == threads_view(locked@),
            num == ref_number(id_str@),
            forall|j: int| 0 <= j < i ==> !ref_matches(id_str@, #[trigger] tv[j]),
        decreases locked.len() - i,
    {
        let t = &locked[i];
        let hit = match num {
            Some(n) => t.id == n,
            None => str_eq(t.slug.as_str(), id_str),
        };
        if hit {
            proof {
                lemma_resolves_unique(tv, id_str@, Some(i));
            }
            return Some(i);
        }
        i = i + 1;
    }
    proof {
        lemma_resolves_unique(tv, id_str@, None);
    }
    None
}

// ---------------------------------------------------------------------------
// Thread ids
// ---------------------------------------------------------------------------

/// The largest id in `ts`, or 0 when there is none.
pub open spec fn max_id(ts: Seq<ThreadView>) -> nat
    decreases ts.len(),
{
    if ts.len() == 0 {
        0
    } else {
        let m = max_id(ts.drop_last());
        if ts.last().id > m {
            ts.last().id as nat
        } else {
            m
        }
    }
}

/// Every id in `ts` is at most `max_id(ts)`, and `max_id` of a non-empty
/// list is one of its ids.
pub proof fn lemma_max_id(ts: Seq<ThreadView>)
    ensures
        forall|j: int| 0 <= j < ts.len() ==> #[trigger] ts[j].id <= max_id(ts),
        ts.len() > 0 ==> exists|j: int| 0 <= j < ts.len() && ts[j].id == max_id(ts),
        max_id(ts) <= u32::MAX,
    decreases ts.len(),
{
    if ts.len() > 0 {
        lemma_max_id(ts.drop_last());
        assert forall|j: int| 0 <= j < ts.len() implies #[trigger] ts[j].id <= max_id(ts) by {
            if j < ts.len() - 1 {
                assert(ts.drop_last()[j] == ts[j]);
            }
        }
        if ts.len() > 1 && max_id(ts) == max_id(ts.drop_last()) {
            let j = choose|j: int| 0 <= j < ts.len() - 1 && ts.drop_last()[j].id == max_id(ts.drop_last());
            assert(ts[j] == ts.drop_last()[j]);
        } else {
            assert(ts[ts.len() - 1].id == max_id(ts));
        }
    }
}

/// Every id is below `u32::MAX`, so that one more than the largest fits.
pub open spec fn ids_below_max(ts: Seq<ThreadView>) -> bool {
    forall|j: int| 0 <= j < ts.len() ==> #[trigger] ts[j].id < u32::MAX
}

/// The id a new thread gets: one more than the largest id so far.
pub fn next_id(threads: &Vec<Thread>) -> (r: u32)
    requires
        ids_below_max(threads_view(threads@)),
    ensures
        r == max_id(threads_view(threads@)) + 1,
{
    let ghost tv = threads_view(threads@);
    let mut m: u32 = 0;
    let mut i: usize = 0;
    while i < threads.len()
        invariant
            i <= threads@.len(),
            tv == threads_view(threads@),
            ids_below_max(tv),
            m == max_id(tv.take(i as int)),
            m < u32::MAX,
        decreases threads.len() - i,
    {
        proof {
            assert(tv.take(i + 1).drop_last() =~= tv.take(i as int));
            assert(tv[i as int].id < u32::MAX);
        }
        if threads[i].id > m {
            m = threads[i].id;
        }
        i = i + 1;
    }
    proof {
        assert(tv.take(threads.len() as int) =~= tv);
    }
    m + 1
}


// ---------------------------------------------------------------------------
// Registry invariant
// ---------------------------------------------------------------------------

/// No two threads share an id.
pub open spec fn ids_distinct(ts: Seq<ThreadView>) -> bool {
    forall|i: int, j: int| 0 <= i < ts.len() && 0 <= j < ts.len() && i != j ==> #[trigger] ts[i].id != #[trigger] ts[j].id
}

/// No two threads share a slug.
pub open spec fn slugs_distinct(ts: Seq<ThreadView>) -> bool {
    forall|i: int, j: int| 0 <= i < ts.len() && 0 <= j < ts.len() && i != j ==> #[trigger] ts[i].slug != #[trigger] ts[j].slug
}

/// At most one thread is active.
pub open spec fn at_most_one_active(ts: Seq<ThreadView>) -> bool {
    forall|i: int, j: int| 0 <= i < ts.len() && 0 <= j < ts.len() && (#[trigger] ts[i].state is Active) && (#[trigger] ts[j].state is Active) ==> i == j
}

/// What the daemon keeps true of its registry.
pub open spec fn registry_wf(ts: Seq<ThreadView>) -> bool {
    &&& ids_distinct(ts)
    &&& slugs_distinct(ts)
    &&& at_most_one_active(ts)
}

/// A thread with another state.
pub open spec fn with_state(t: ThreadView, s: StateView) -> ThreadView {
    ThreadView { state: s, ..t }
}

/// Whether some thread has slug `slug`.
pub open spec fn slug_taken(ts: Seq<ThreadView>, slug: Seq<char>) -> bool {
    exists|j: int| 0 <= j < ts.len() && (#[trigger] ts[j]).slug == slug
}

/// Whether some thread other than the one at `i` has slug `slug`.
pub open spec fn slug_taken_by_other(ts: Seq<ThreadView>, i: int, slug: Seq<char>) -> bool {
    exists|j: int| 0 <= j < ts.len() && j != i && (#[trigger] ts[j]).slug == slug
}

fn slug_exists(threads: &Vec<Thread>, slug: &str, skip: Option<usize>) -> (r: bool)
    ensures
        r == match skip {
            Some(i) => slug_taken_by_other(threads_view(threads@), i as int, slug@),
            None => slug_taken(threads_view(threads@), slug@),
        },
{
    let ghost tv = threads_view(threads@);
    let mut i: usize = 0;
    while i < threads.len()
        invariant
            i <= threads@.len(),
            tv == threads_view(threads@),
            forall|j: int| 0 <= j < i && (skip != Some(j as usize)) ==> (#[trigger] tv[j]).slug != slug@,
        decreases threads.len() - i,
    {
        let skipped = match skip {
            Some(k) => k == i,
            None => false,
        };
        if !skipped && str_eq(threads[i].slug.as_str(), slug) {
            assert(tv[i as int].slug == slug@);
            return true;
        }
        i = i + 1;
    }
    proof {
        match skip {
            Some(k) => {
                assert forall|j: int| 0 <= j < tv.len() && j != k implies (#[trigger] tv[j]).slug != slug@ by {
                    assert(skip != Some(j as usize));
                }
            },
            None => {},
        }
    }
    false
}

// ---------------------------------------------------------------------------
// thread.create
// ---------------------------------------------------------------------------

/// A newly created thread: paused, with the given id and fields.
pub open spec fn new_thread(id: nat, slug: Seq<char>, priority: Priority, description: Seq<char>) -> ThreadView {
    ThreadView { id: id as u32, slug, state: StateView::Paused, priority, description }
}

/// What `thread.create` answers, before any file is touched: the thread it
/// will add, or why it refuses.
pub open spec fn create_outcome(
    ts: Seq<ThreadView>,
    slug: Option<Seq<char>>,
    priority: Option<Seq<char>>,
    description: Option<Seq<char>>,
) -> Result<ThreadView, ErrorView> {
    match slug {
        None => Err(err(INVALID_PARAMS, "Missing slug"@)),
        Some(slug) => match priority {
            None => Err(err(INVALID_PARAMS, "Missing priority"@)),
            Some(p) => match parse_priority_spec(p) {
                Err(m) => Err(err(INVALID_PARAMS, m)),
                Ok(prio) => if slug_taken(ts, slug) {
                    Err(err(INVALID_REQUEST, "slug already exists"@))
                } else {
                    Ok(new_thread(max_id(ts) + 1, slug, prio, match description {
                        Some(d) => d,
                        None => Seq::empty(),
                    }))
                },
            },
        },
    }
}

/// Plans `thread.create`: checks the parameters and the slug, and gives the
/// thread to add. The daemon then creates its directory and `index.md`,
/// logs the event, and only then adds the thread.
pub fn plan_thread_create(
    threads: &Vec<Thread>,
    slug: Option<String>,
    priority: Option<String>,
    description: Option<String>,
) -> (r: Result<Thread, JsonRpcError>)
    requires
        create_outcome(threads_view(threads@), opt_view(slug), opt_view(priority), opt_view(description)) is Ok
            ==> ids_below_max(threads_view(threads@)),
    ensures
        match (r, create_outcome(threads_view(threads@), opt_view(slug), opt_view(priority), opt_view(description))) {
            (Ok(t), Ok(v)) => t@ == v,
            (Err(e), Err(v)) => e@ == v,
            _ => false,
        },
{
    let slug = match slug {
        Some(s) => s,
        None => return Err(make_error(INVALID_PARAMS, "Missing slug")),
    };
    let priority_str = match priority {
        Some(p) => p,
        None => return Err(make_error(INVALID_PARAMS, "Missing priority")),
    };
    let priority = match Priority::parse(priority_str.as_str()) {
        Ok(p) => p,
        Err(m) => return Err(JsonRpcError { code: INVALID_PARAMS, message: m }),
    };
    let description = match description {
        Some(d) => d,
        None => String::new(),
    };
    if slug_exists(threads, slug.as_str(), None) {
        return Err(make_error(INVALID_REQUEST, "slug already exists"));
    }
    let id = next_id(threads);
    Ok(Thread { id, slug, state: ThreadState::Paused, priority, description })
}

/// Whether every thread id is below `u32::MAX`, so that a new id can be
/// given.
pub fn ids_fit(threads: &Vec<Thread>) -> (r: bool)
    ensures
        r == ids_below_max(threads_view(threads@)),
{
    let mut i: usize = 0;
    while i < threads.len()
        invariant
            i <= threads@.len(),
            forall|j: int| 0 <= j < i ==> #[trigger] threads_view(threads@)[j].id < u32::MAX,
        decreases threads.len() - i,
    {
        assert(threads_view(threads@)[i as int] == threads@[i as int]@);
        if threads[i].id == u32::MAX {
            assert(!(threads_view(threads@)[i as int].id < u32::MAX));
            return false;
        }
        i = i + 1;
    }
    true
}

/// Whether `thread.create` with these parameters would add a thread (and
/// so needs a new id).
pub fn create_would_add(threads: &Vec<Thread>, slug: &Option<String>, priority: &Option<String>) -> (r: bool)
    ensures
        r == create_outcome(threads_view(threads@), opt_view(*slug), opt_view(*priority), None) is Ok,
{
    match (slug, priority) {
        (Some(s), Some(p)) => Priority::parse(p.as_str()).is_ok() && !slug_exists(threads, s.as_str(), None),
        _ => false,
    }
}

// ---------------------------------------------------------------------------
// thread.switch_to
// ---------------------------------------------------------------------------

/// The registry after the thread at `i` becomes active: it is active, every
/// waiting thread keeps waiting, and every other thread is paused.
pub open spec fn switch_spec(ts: Seq<ThreadView>, i: int) -> Seq<ThreadView> {
    Seq::new(ts.len(), |j: int|
        if j == i {
            with_state(ts[j], StateView::Active)
        } else if ts[j].state is Waiting {
            ts[j]
        } else {
            with_state(ts[j], StateView::Paused)
        })
}

/// The ids of all threads but the one at `i`, in order.
pub open spec fn ids_except(ts: Seq<ThreadView>, i: int) -> Seq<u32> {
    ts.remove(i).map_values(|t: ThreadView| t.id)
}

/// The result of a successful `thread.switch_to`.
pub struct SwitchOutcome {
    /// Where the thread now active stands in the list.
    pub index: usize,
    /// The ids of all the other threads, for the event log.
    pub paused_ids: Vec<u32>,
}

/// Which thread a request names, or why it names none: the reference is
/// missing, or it names no thread.
pub open spec fn target_outcome(ts: Seq<ThreadView>, id: Option<Seq<char>>) -> Result<usize, ErrorView> {
    match id {
        None => Err(err(INVALID_PARAMS, "Missing id"@)),
        Some(s) => match resolve_spec(ts, s) {
            None => Err(not_found_error(s)),
            Some(i) => Ok(i),
        },
    }
}

/// `thread.switch_to`: makes the named thread the active one.
pub fn thread_switch_to(threads: &mut Vec<Thread>, id: Option<String>) -> (r: Result<SwitchOutcome, JsonRpcError>)
    ensures
        match (r, target_outcome(threads_view(old(threads)@), opt_view(id))) {
            (Ok(o), Ok(i)) => {
                &&& o.index == i
                &&& threads_view(final(threads)@) == switch_spec(threads_view(old(threads)@), i as int)
                &&& o.paused_ids@ == ids_except(threads_view(old(threads)@), i as int)
            },
            (Err(e), Err(v)) => e@ == v && final(threads)@ == old(threads)@,
            _ => false,
        },
{
    let target = match id {
        Some(s) => s,
        None => return Err(make_error(INVALID_PARAMS, "Missing id")),
    };
    let idx = match resolve_thread_idx(threads, target.as_str()) {
        Some(i) => i,
        None => return Err(thread_not_found(target.as_str())),
    };
    let ghost tv0 = threads_view(threads@);
    let mut paused_ids: Vec<u32> = Vec::new();
    let mut j: usize = 0;
    while j < threads.len()
        invariant
            j <= threads@.len(),
            idx < threads@.len(),
            tv0 == threads_view(threads@),
            paused_ids@ == (if j <= idx { tv0.take(j as int) } else { tv0.take(j as int).remove(idx as int) }).map_values(|t: ThreadView| t.id),
        decreases threads.len() - j,
    {
        proof {
            if j < idx {
                assert(tv0.take(j + 1) =~= tv0.take(j as int).push(tv0[j as int]));
            } else if j > idx {
                assert(tv0.take(j + 1).remove(idx as int) =~= tv0.take(j as int).remove(idx as int).push(tv0[j as int]));
            } else {
                assert(tv0.take(j + 1).remove(idx as int) =~= tv0.take(j as int));
            }
        }
        if j != idx {
            paused_ids.push(threads[j].id);
        }
        proof {
            if j < idx {
                assert(paused_ids@ =~= tv0.take(j + 1).map_values(|t: ThreadView| t.id));
            } else if j > idx {
                assert(paused_ids@ =~= tv0.take(j + 1).remove(idx as int).map_values(|t: ThreadView| t.id));
            } else {
                assert(paused_ids@ =~= tv0.take(j + 1).remove(idx as int).map_values(|t: ThreadView| t.id));
            }
        }
        j = j + 1;
    }
    assert(tv0.take(threads.len() as int) =~= tv0);
    let ghost goal = switch_spec(tv0, idx as int);
    let mut k: usize = 0;
    while k < threads.len()
        invariant
            k <= threads@.len(),
            idx < threads@.len(),
            threads@.len() == tv0.len(),
            goal == switch_spec(tv0, idx as int),
            forall|m: int| 0 <= m < k ==> #[trigger] threads@[m]@ == goal[m],
            forall|m: int| k <= m < threads@.len() ==> #[trigger] threads@[m]@ == tv0[m],
        decreases threads.len() - k,
    {
        let mut t = threads[k].copy();
        if k == idx {
            t.state = ThreadState::Active;
        } else if !t.state.is_waiting() {
            t.state = ThreadState::Paused;
        }
        threads.set(k, t);
        k = k + 1;
    }
    assert(threads_view(threads@) =~= goal);
    Ok(SwitchOutcome { index: idx, paused_ids })
}


// ---------------------------------------------------------------------------
// thread.update
// ---------------------------------------------------------------------------

/// A thread with its slug, description and priority replaced where a new
/// value is given.
pub open spec fn updated_thread(
    t: ThreadView,
    slug: Option<Seq<char>>,
    description: Option<Seq<char>>,
    priority: Option<Priority>,
) -> ThreadView {
    ThreadView {
        slug: match slug { Some(s) => s, None => t.slug },
        description: match description { Some(d) => d, None => t.description },
        priority: match priority { Some(p) => p, None => t.priority },
        ..t
    }
}

/// The registry after updating the thread at `i`.
pub open spec fn update_spec(
    ts: Seq<ThreadView>,
    i: int,
    slug: Option<Seq<char>>,
    description: Option<Seq<char>>,
    priority: Option<Priority>,
) -> Seq<ThreadView> {
    ts.update(i, updated_thread(ts[i], slug, description, priority))
}

/// What `thread.update` answers before any file is touched: the index of
/// the thread and the parsed new priority, or why it refuses. The
/// priority is checked before the thread is looked up, and a new slug may
/// not be another thread's.
pub open spec fn update_outcome(
    ts: Seq<ThreadView>,
    id: Option<Seq<char>>,
    slug: Option<Seq<char>>,
    priority: Option<Seq<char>>,
) -> Result<(usize, Option<Priority>), ErrorView> {
    match id {
        None => Err(err(INVALID_PARAMS, "Missing id"@)),
        Some(s) => {
            let prio: Result<Option<Priority>, Seq<char>> = match priority {
                None => Ok(None),
                Some(p) => match parse_priority_spec(p) {
                    Ok(q) => Ok(Some(q)),
                    Err(m) => Err(m),
                },
            };
            match prio {
                Err(m) => Err(err(INVALID_PARAMS, m)),
                Ok(q) => match resolve_spec(ts, s) {
                    None => Err(not_found_error(s)),
                    Some(i) => if slug is Some && slug_taken_by_other(ts, i as int, slug->0) {
                        Err(err(INVALID_REQUEST, "slug already exists"@))
                    } else {
                        Ok((i, q))
                    },
                },
            }
        },
    }
}

/// A checked `thread.update`, ready to apply.
pub struct UpdatePlan {
    pub index: usize,
    pub slug: Option<String>,
    pub description: Option<String>,
    pub priority: Option<Priority>,
    /// Whether the slug changes, so that the thread's directory moves.
    pub renames: bool,
}

/// Checks a `thread.update` request. The daemon renames the thread's
/// directory when `renames` holds, and then applies the plan.
pub fn plan_thread_update(
    threads: &Vec<Thread>,
    id: Option<String>,
    slug: Option<String>,
    description: Option<String>,
    priority: Option<String>,
) -> (r: Result<UpdatePlan, JsonRpcError>)
    ensures
        match (r, update_outcome(threads_view(threads@), opt_view(id), opt_view(slug), opt_view(priority))) {
            (Ok(p), Ok((i, q))) => {
                &&& p.index == i
                &&& p.priority == q
                &&& opt_view(p.slug) == opt_view(slug)
                &&& opt_view(p.description) == opt_view(description)
                &&& p.renames == (slug is Some && slug->0@ != threads_view(threads@)[i as int].slug)
            },
            (Err(e), Err(v)) => e@ == v,
            _ => false,
        },
{
    let id_str = match id {
        Some(s) => s,
        None => return Err(make_error(INVALID_PARAMS, "Missing id")),
    };
    let new_priority = match priority {
        Some(p) => match Priority::parse(p.as_str()) {
            Ok(q) => Some(q),
            Err(m) => return Err(JsonRpcError { code: INVALID_PARAMS, message: m }),
        },
        None => None,
    };
    let idx = match resolve_thread_idx(threads, id_str.as_str()) {
        Some(i) => i,
        None => return Err(thread_not_found(id_str.as_str())),
    };
    let renames = match &slug {
        Some(s) => {
            if slug_exists(threads, s.as_str(), Some(idx)) {
                return Err(make_error(INVALID_REQUEST, "slug already exists"));
            }
            !str_eq(s.as_str(), threads[idx].slug.as_str())
        },
        None => false,
    };
    Ok(UpdatePlan { index: idx, slug, description, priority: new_priority, renames })
}

/// Applies a checked update to the thread it names.
pub fn apply_thread_update(threads: &mut Vec<Thread>, plan: UpdatePlan)
    requires
        plan.index < old(threads)@.len(),
    ensures
        threads_view(final(threads)@) == update_spec(
            threads_view(old(threads)@),
            plan.index as int,
            opt_view(plan.slug),
            opt_view(plan.description),
            plan.priority,
        ),
{
    let mut t = threads[plan.index].copy();
    match plan.slug {
        Some(s) => { t.slug = s; },
        None => {},
    }
    match plan.description {
        Some(d) => { t.description = d; },
        None => {},
    }
    match plan.priority {
        Some(p) => { t.priority = p; },
        None => {},
    }
    threads.set(plan.index, t);
    assert(threads_view(threads@) =~= update_spec(
        threads_view(old(threads)@),
        plan.index as int,
        opt_view(plan.slug),
        opt_view(plan.description),
        plan.priority,
    ));
}

// ---------------------------------------------------------------------------
// thread.wait and thread.resume
// ---------------------------------------------------------------------------

/// The registry after the thread at `i` starts waiting.
pub open spec fn wait_spec(ts: Seq<ThreadView>, i: int, reason: Option<Seq<char>>) -> Seq<ThreadView> {
    ts.update(i, with_state(ts[i], StateView::Waiting(reason)))
}

/// The registry after the thread at `i` is resumed: it is paused.
pub open spec fn resume_spec(ts: Seq<ThreadView>, i: int) -> Seq<ThreadView> {
    ts.update(i, with_state(ts[i], StateView::Paused))
}

/// What `thread.wait` answers: a thread that waits already is refused.
pub open spec fn wait_outcome(ts: Seq<ThreadView>, id: Option<Seq<char>>) -> Result<usize, ErrorView> {
    match target_outcome(ts, id) {
        Err(e) => Err(e),
        Ok(i) => if ts[i as int].state is Waiting {
            Err(err(INVALID_REQUEST, "Thread is already waiting"@))
        } else {
            Ok(i)
        },
    }
}

/// What `thread.resume` answers: only a waiting thread can be resumed.
pub open spec fn resume_outcome(ts: Seq<ThreadView>, id: Option<Seq<char>>) -> Result<usize, ErrorView> {
    match target_outcome(ts, id) {
        Err(e) => Err(e),
        Ok(i) => if ts[i as int].state is Waiting {
            Ok(i)
        } else {
            Err(err(INVALID_REQUEST, "Thread is not waiting"@))
        },
    }
}

/// `thread.wait`: marks the named thread as waiting, with an optional
/// reason. Gives the thread's index.
pub fn thread_wait(threads: &mut Vec<Thread>, id: Option<String>, reason: Option<String>) -> (r: Result<usize, JsonRpcError>)
    ensures
        match (r, wait_outcome(threads_view(old(threads)@), opt_view(id))) {
            (Ok(i), Ok(j)) => i == j && threads_view(final(threads)@) == wait_spec(threads_view(old(threads)@), i as int, opt_view(reason)),
            (Err(e), Err(v)) => e@ == v && final(threads)@ == old(threads)@,
            _ => false,
        },
{
    let id_str = match id {
        Some(s) => s,
        None => return Err(make_error(INVALID_PARAMS, "Missing id")),
    };
    let idx = match resolve_thread_idx(threads, id_str.as_str()) {
        Some(i) => i,
        None => return Err(thread_not_found(id_str.as_str())),
    };
    if threads[idx].state.is_waiting() {
        return Err(make_error(INVALID_REQUEST, "Thread is already waiting"));
    }
    let mut t = threads[idx].copy();
    t.state = ThreadState::Waiting { reason };
    threads.set(idx, t);
    assert(threads_view(threads@) =~= wait_spec(threads_view(old(threads)@), idx as int, opt_view(reason)));
    Ok(idx)
}

/// `thread.resume`: a waiting thread goes back to paused (becoming active
/// again is a deliberate `thread.switch_to`). Gives the thread's index.
pub fn thread_resume(threads: &mut Vec<Thread>, id: Option<String>) -> (r: Result<usize, JsonRpcError>)
    ensures
        match (r, resume_outcome(threads_view(old(threads)@), opt_view(id))) {
            (Ok(i), Ok(j)) => i == j && threads_view(final(threads)@) == resume_spec(threads_view(old(threads)@), i as int),
            (Err(e), Err(v)) => e@ == v && final(threads)@ == old(threads)@,
            _ => false,
        },
{
    let id_str = match id {
        Some(s) => s,
        None => return Err(make_error(INVALID_PARAMS, "Missing id")),
    };
    let idx = match resolve_thread_idx(threads, id_str.as_str()) {
        Some(i) => i,
        None => return Err(thread_not_found(id_str.as_str())),
    };
    if !threads[idx].state.is_waiting() {
        return Err(make_error(INVALID_REQUEST, "Thread is not waiting"));
    }
    let mut t = threads[idx].copy();
    t.state = ThreadState::Paused;
    threads.set(idx, t);
    assert(threads_view(threads@) =~= resume_spec(threads_view(old(threads)@), idx as int));
    Ok(idx)
}


// ---------------------------------------------------------------------------
// Laws of the registry
// ---------------------------------------------------------------------------

/// Creating a thread keeps ids and slugs unique and at most one thread
/// active; the threads already there are unchanged, and the new one is
/// paused with an id above every other id.
pub proof fn law_create_keeps_registry_wf(
    ts: Seq<ThreadView>,
    slug: Option<Seq<char>>,
    priority: Option<Seq<char>>,
    description: Option<Seq<char>>,
)
    requires
        registry_wf(ts),
        ids_below_max(ts),
        create_outcome(ts, slug, priority, description) is Ok,
    ensures
        ({
            let t = create_outcome(ts, slug, priority, description)->Ok_0;
            let after = ts.push(t);
            &&& registry_wf(after)
            &&& after.take(ts.len() as int) == ts
            &&& t.state is Paused
            &&& forall|j: int| 0 <= j < ts.len() ==> #[trigger] ts[j].id < t.id
        }),
{
    let t = create_outcome(ts, slug, priority, description)->Ok_0;
    let after = ts.push(t);
    lemma_max_id(ts);
    if ts.len() > 0 {
        let k = choose|k: int| 0 <= k < ts.len() && ts[k].id == max_id(ts);
        assert(ts[k].id < u32::MAX);
    }
    assert(t.id == max_id(ts) + 1);
    assert(after.take(ts.len() as int) =~= ts);
    assert forall|i: int, j: int| 0 <= i < after.len() && 0 <= j < after.len() && i != j implies #[trigger] after[i].id != #[trigger] after[j].id by {
        if i < ts.len() && j < ts.len() {
            assert(ts[i].id != ts[j].id);
        } else if i < ts.len() {
            assert(after[i] == ts[i]);
            assert(ts[i].id <= max_id(ts));
        } else {
            assert(after[j] == ts[j]);
            assert(ts[j].id <= max_id(ts));
        }
    }
    assert forall|i: int, j: int| 0 <= i < after.len() && 0 <= j < after.len() && i != j implies #[trigger] after[i].slug != #[trigger] after[j].slug by {
        if i < ts.len() && j < ts.len() {
            assert(ts[i].slug != ts[j].slug);
        } else if i < ts.len() {
            assert(after[i] == ts[i]);
        } else {
            assert(after[j] == ts[j]);
        }
    }
    assert forall|i: int, j: int| 0 <= i < after.len() && 0 <= j < after.len() && (#[trigger] after[i].state is Active) && (#[trigger] after[j].state is Active) implies i == j by {
        if i < ts.len() && j < ts.len() {
            assert(ts[i].state is Active && ts[j].state is Active);
        }
    }
}

/// After `thread.switch_to` the target is the one active thread, every
/// thread that waited still waits with the same reason, every other thread
/// is paused, and ids and slugs stay unique.
pub proof fn law_switch_activates_exactly_target(ts: Seq<ThreadView>, i: int)
    requires
        registry_wf(ts),
        0 <= i < ts.len(),
    ensures
        ({
            let after = switch_spec(ts, i);
            &&& registry_wf(after)
            &&& after.len() == ts.len()
            &&& after[i].state is Active
            &&& forall|j: int| 0 <= j < ts.len() && j != i ==> !(#[trigger] after[j].state is Active)
            &&& forall|j: int| 0 <= j < ts.len() && j != i && ts[j].state is Waiting ==> #[trigger] after[j] == ts[j]
            &&& forall|j: int| 0 <= j < ts.len() && j != i && !(ts[j].state is Waiting) ==> (#[trigger] after[j].state is Paused)
            &&& forall|j: int| 0 <= j < ts.len() ==> #[trigger] after[j].id == ts[j].id && after[j].slug == ts[j].slug
        }),
{
    let after = switch_spec(ts, i);
    assert forall|a: int, b: int| 0 <= a < after.len() && 0 <= b < after.len() && a != b implies #[trigger] after[a].id != #[trigger] after[b].id by {
        assert(ts[a].id != ts[b].id);
    }
    assert forall|a: int, b: int| 0 <= a < after.len() && 0 <= b < after.len() && a != b implies #[trigger] after[a].slug != #[trigger] after[b].slug by {
        assert(ts[a].slug != ts[b].slug);
    }
}

/// An update that names a thread and gives no new field changes nothing.
pub proof fn law_update_without_fields_changes_nothing(ts: Seq<ThreadView>, id: Seq<char>)
    requires
        update_outcome(ts, Some(id), None, None) is Ok,
    ensures
        update_spec(ts, update_outcome(ts, Some(id), None, None)->Ok_0.0 as int, None, None, None) == ts,
{
    lemma_resolve_in_range(ts, id);
    let i = update_outcome(ts, Some(id), None, None)->Ok_0.0 as int;
    assert(updated_thread(ts[i], None, None, None) == ts[i]);
    assert(update_spec(ts, i, None, None, None) =~= ts);
}

/// A checked `thread.update` keeps ids and slugs unique and the set of
/// active threads as it was.
pub proof fn law_update_keeps_registry_wf(
    ts: Seq<ThreadView>,
    id: Option<Seq<char>>,
    slug: Option<Seq<char>>,
    description: Option<Seq<char>>,
    priority: Option<Seq<char>>,
)
    requires
        registry_wf(ts),
        update_outcome(ts, id, slug, priority) is Ok,
    ensures
        ({
            let (i, q) = update_outcome(ts, id, slug, priority)->Ok_0;
            let after = update_spec(ts, i as int, slug, description, q);
            &&& registry_wf(after)
            &&& forall|j: int| 0 <= j < ts.len() ==> #[trigger] after[j].state == ts[j].state && after[j].id == ts[j].id
        }),
{
    let (i, q) = update_outcome(ts, id, slug, priority)->Ok_0;
    let s = id->0;
    lemma_resolve_in_range(ts, s);
    let after = update_spec(ts, i as int, slug, description, q);
    assert forall|a: int, b: int| 0 <= a < after.len() && 0 <= b < after.len() && a != b implies #[trigger] after[a].slug != #[trigger] after[b].slug by {
        if a == i {
            match slug {
                Some(n) => { assert(!(0 <= b < ts.len() && b != i && ts[b].slug == n)); },
                None => { assert(ts[a].slug != ts[b].slug); },
            }
        } else if b == i {
            match slug {
                Some(n) => { assert(!(0 <= a < ts.len() && a != i && ts[a].slug == n)); },
                None => { assert(ts[a].slug != ts[b].slug); },
            }
        } else {
            assert(ts[a].slug != ts[b].slug);
        }
    }
    assert forall|a: int, b: int| 0 <= a < after.len() && 0 <= b < after.len() && a != b implies #[trigger] after[a].id != #[trigger] after[b].id by {
        assert(ts[a].id != ts[b].id);
    }
    assert forall|a: int, b: int| 0 <= a < after.len() && 0 <= b < after.len() && (#[trigger] after[a].state is Active) && (#[trigger] after[b].state is Active) implies a == b by {
        assert(ts[a].state is Active && ts[b].state is Active);
    }
}

/// A resolved index lies within the registry.
pub proof fn lemma_resolve_in_range(ts: Seq<ThreadView>, s: Seq<char>)
    ensures
        resolve_spec(ts, s) matches Some(i) ==> i < ts.len() && ref_matches(s, ts[i as int]),
{
    if exists|i: usize| #[trigger] resolves(ts, s, Some(i)) {
        let k = choose|k: usize| #[trigger] resolves(ts, s, Some(k));
        assert(resolves(ts, s, Some(k)));
    }
}

/// `thread.wait` and `thread.resume` keep the registry well formed; a
/// thread that waits is no longer active.
pub proof fn law_wait_resume_keep_registry_wf(ts: Seq<ThreadView>, i: int, reason: Option<Seq<char>>)
    requires
        registry_wf(ts),
        0 <= i < ts.len(),
    ensures
        registry_wf(wait_spec(ts, i, reason)),
        registry_wf(resume_spec(ts, i)),
        !(wait_spec(ts, i, reason)[i].state is Active),
{
    let w = wait_spec(ts, i, reason);
    let r = resume_spec(ts, i);
    assert forall|a: int, b: int| 0 <= a < w.len() && 0 <= b < w.len() && a != b implies #[trigger] w[a].id != #[trigger] w[b].id && w[a].slug != w[b].slug by {
        assert(ts[a].id != ts[b].id && ts[a].slug != ts[b].slug);
    }
    assert forall|a: int, b: int| 0 <= a < r.len() && 0 <= b < r.len() && a != b implies #[trigger] r[a].id != #[trigger] r[b].id && r[a].slug != r[b].slug by {
        assert(ts[a].id != ts[b].id && ts[a].slug != ts[b].slug);
    }
    assert forall|a: int, b: int| 0 <= a < w.len() && 0 <= b < w.len() && (#[trigger] w[a].state is Active) && (#[trigger] w[b].state is Active) implies a == b by {
        assert(ts[a].state is Active && ts[b].state is Active);
    }
    assert forall|a: int, b: int| 0 <= a < r.len() && 0 <= b < r.len() && (#[trigger] r[a].state is Active) && (#[trigger] r[b].state is Active) implies a == b by {
        assert(ts[a].state is Active && ts[b].state is Active);
    }
}

/// Resuming a thread that was made to wait leaves it paused, whatever it
/// was before, and changes nothing else; a paused thread is back exactly
/// where it started.
pub proof fn law_resume_after_wait(ts: Seq<ThreadView>, i: int, reason: Option<Seq<char>>)
    requires
        0 <= i < ts.len(),
        !(ts[i].state is Waiting),
    ensures
        resume_spec(wait_spec(ts, i, reason), i) == ts.update(i, with_state(ts[i], StateView::Paused)),
        ts[i].state is Paused ==> resume_spec(wait_spec(ts, i, reason), i) == ts,
{
    let back = resume_spec(wait_spec(ts, i, reason), i);
    assert(back =~= ts.update(i, with_state(ts[i], StateView::Paused)));
    if ts[i].state is Paused {
        assert(with_state(ts[i], StateView::Paused) == ts[i]);
        assert(back =~= ts);
    }
}


/// Which thread a reference names depends only on the threads' ids and
/// slugs, so changing states never changes it.
pub proof fn lemma_resolve_depends_on_names(a: Seq<ThreadView>, b: Seq<ThreadView>, s: Seq<char>)
    requires
        a.len() == b.len(),
        a.len() <= usize::MAX,
        forall|j: int| 0 <= j < a.len() ==> (#[trigger] a[j]).id == b[j].id && a[j].slug == b[j].slug,
    ensures
        resolve_spec(a, s) == resolve_spec(b, s),
{
    lemma_resolve_in_range(a, s);
    match resolve_spec(a, s) {
        Some(i) => {
            assert forall|j: int| 0 <= j < i implies !ref_matches(s, #[trigger] b[j]) by {
                assert(a[j].id == b[j].id && a[j].slug == b[j].slug);
                if exists|k: usize| #[trigger] resolves(a, s, Some(k)) {
                    let k = choose|k: usize| #[trigger] resolves(a, s, Some(k));
                    assert(!ref_matches(s, a[j]));
                }
            }
            assert(a[i as int].id == b[i as int].id && a[i as int].slug == b[i as int].slug);
            assert(ref_matches(s, b[i as int]));
            lemma_resolves_unique(b, s, Some(i));
        },
        None => {
            assert forall|j: int| 0 <= j < b.len() implies !ref_matches(s, #[trigger] b[j]) by {
                assert(a[j].id == b[j].id && a[j].slug == b[j].slug);
                if ref_matches(s, a[j]) {
                    lemma_first_match_exists(a, s, j);
                }
            }
            lemma_resolves_unique(b, s, None);
        },
    }
}

/// If some thread matches a reference, the reference resolves.
pub proof fn lemma_first_match_exists(ts: Seq<ThreadView>, s: Seq<char>, j: int)
    requires
        0 <= j < ts.len(),
        ts.len() <= usize::MAX,
        ref_matches(s, ts[j]),
    ensures
        resolve_spec(ts, s) is Some,
    decreases j,
{
    if forall|k: int| 0 <= k < j ==> !ref_matches(s, #[trigger] ts[k]) {
        assert(resolves(ts, s, Some(j as usize)));
        lemma_resolves_unique(ts, s, Some(j as usize));
    } else {
        let k = choose|k: int| 0 <= k < j && !!ref_matches(s, #[trigger] ts[k]);
        lemma_first_match_exists(ts, s, k);
    }
}

/// A thread that waits cannot be made to wait again, and it can be
/// resumed.
pub proof fn law_wait_twice_refused(ts: Seq<ThreadView>, s: Seq<char>, reason: Option<Seq<char>>)
    requires
        ts.len() <= usize::MAX,
        wait_outcome(ts, Some(s)) is Ok,
    ensures
        ({
            let i = wait_outcome(ts, Some(s))->Ok_0;
            let after = wait_spec(ts, i as int, reason);
            &&& wait_outcome(after, Some(s)) == Err::<usize, ErrorView>(err(INVALID_REQUEST, "Thread is already waiting"@))
            &&& resume_outcome(after, Some(s)) == Ok::<usize, ErrorView>(i)
        }),
{
    let i = wait_outcome(ts, Some(s))->Ok_0;
    lemma_resolve_in_range(ts, s);
    let after = wait_spec(ts, i as int, reason);
    lemma_resolve_depends_on_names(ts, after, s);
}


/// Removing leading zeros from zeros followed by a string that does not
/// start with a zero gives that string.
proof fn lemma_trim_zeros_prefix(k: nat, s: Seq<char>)
    requires
        s.len() == 0 || s[0] != '0',
    ensures
        trim_zeros(Seq::new(k, |i: int| '0') + s) == s,
    decreases k,
{
    let z = Seq::new(k, |i: int| '0');
    if k == 0 {
        assert(z + s =~= s);
    } else {
        assert((z + s).drop_first() =~= Seq::new((k - 1) as nat, |i: int| '0') + s);
        lemma_trim_zeros_prefix((k - 1) as nat, s);
    }
}

/// A thread number written in decimal, plainly or zero-padded to four
/// digits, reads as that number.
pub proof fn lemma_number_reads_back(n: u32)
    ensures
        ref_number(decimal(n as nat)) == Some(n),
        ref_number(id4(n)) == Some(n),
{
    lemma_decimal(n as nat);
    let d = decimal(n as nat);
    lemma_parse_digits(d);
    let p = zero_pad(d, 4);
    if n > 0 {
        lemma_trim_zeros_prefix(0, d);
        assert(Seq::new(0, |i: int| '0') + d =~= d);
        if d.len() < 4 {
            lemma_trim_zeros_prefix((4 - d.len()) as nat, d);
        }
    } else {
        assert(d =~= seq!['0']);
        assert(d =~= Seq::new(1, |i: int| '0') + Seq::<char>::empty());
        lemma_trim_zeros_prefix(1, Seq::<char>::empty());
        assert(p =~= Seq::new(4, |i: int| '0'));
        assert(p =~= Seq::new(4, |i: int| '0') + Seq::<char>::empty());
        lemma_trim_zeros_prefix(4, Seq::<char>::empty());
        lemma_zeros_value(4);
        lemma_parse_digits(p);
    }
}

/// A thread is found by its number, written plainly or zero-padded to four
/// digits (`"1"`, `"0001"`), when ids are unique.
pub proof fn law_reference_by_number(ts: Seq<ThreadView>, i: int)
    requires
        ids_distinct(ts),
        0 <= i < ts.len(),
        ts.len() <= usize::MAX,
    ensures
        resolve_spec(ts, decimal(ts[i].id as nat)) == Some(i as usize),
        resolve_spec(ts, id4(ts[i].id)) == Some(i as usize),
{
    let n = ts[i].id;
    lemma_number_reads_back(n);
    assert forall|j: int| 0 <= j < i implies !ref_matches(decimal(n as nat), #[trigger] ts[j]) by {
        assert(ts[j].id != ts[i].id);
    }
    lemma_resolves_unique(ts, decimal(n as nat), Some(i as usize));
    assert forall|j: int| 0 <= j < i implies !ref_matches(id4(n), #[trigger] ts[j]) by {
        assert(ts[j].id != ts[i].id);
    }
    lemma_resolves_unique(ts, id4(n), Some(i as usize));
}

/// A thread is found by its slug when slugs are unique and the slug does
/// not read as a number.
pub proof fn law_reference_by_slug(ts: Seq<ThreadView>, i: int)
    requires
        slugs_distinct(ts),
        0 <= i < ts.len(),
        ts.len() <= usize::MAX,
        ref_number(ts[i].slug) is None,
    ensures
        resolve_spec(ts, ts[i].slug) == Some(i as usize),
{
    assert forall|j: int| 0 <= j < i implies !ref_matches(ts[i].slug, #[trigger] ts[j]) by {
        assert(ts[j].slug != ts[i].slug);
    }
    lemma_resolves_unique(ts, ts[i].slug, Some(i as usize));
}

} // verus!
