//! The command line: the request each command sends, after the checks it
//! makes first, and the thread listing of `tsk context`.

use vstd::prelude::*;
use crate::model::{parse_priority_spec, Priority};
use crate::protocol::Method;
use crate::text::{decimal, left_align, push_left_aligned, push_zero_padded, zero_pad};

verus! {

/// A command of the `tsk` command line, with its arguments.
pub enum CliCommand {
    ThreadCreate { slug: String, priority: String, description: String },
    ThreadList,
    ThreadSwitchTo { id: String },
    ThreadWait { id: String, reason: Option<String> },
    ThreadResume { id: String, note: Option<String> },
    ThreadUpdate { id: String, slug: Option<String>, description: Option<String>, priority: Option<String> },
    TaskCreate { description: String, due_by: Option<String>, thread: Option<String> },
    TaskList { thread: Option<String> },
    TaskStart { id: String, thread: Option<String> },
    TaskBlock { id: String, reason: String, thread: Option<String> },
    TaskComplete { id: String, thread: Option<String> },
    TaskCancel { id: String, thread: Option<String> },
    TaskUpdate { id: String, description: Option<String>, due_by: Option<String>, seq: Option<u32>, thread: Option<String> },
}

/// The value of a request parameter: a string or a number.
pub enum ParamValue {
    Text(String),
    Number(u32),
}

/// The mathematical value of a parameter's value.
pub enum ParamSpec {
    Text(Seq<char>),
    Number(u32),
}

impl View for ParamValue {
    type V = ParamSpec;

    open spec fn view(&self) -> ParamSpec {
        match self {
            ParamValue::Text(s) => ParamSpec::Text(s@),
            ParamValue::Number(n) => ParamSpec::Number(*n),
        }
    }
}

/// One named parameter of a request.
pub struct Param {
    pub key: String,
    pub value: ParamValue,
}

/// A request to send to the daemon: a method and its parameters, in order.
pub struct Request {
    pub method: Method,
    pub params: Vec<Param>,
}

pub open spec fn params_view(ps: Seq<Param>) -> Seq<(Seq<char>, ParamSpec)> {
    ps.map_values(|p: Param| (p.key@, p.value@))
}

pub open spec fn text_param(key: Seq<char>, v: Seq<char>) -> (Seq<char>, ParamSpec) {
    (key, ParamSpec::Text(v))
}

/// The parameter `key` when its value is given, nothing otherwise.
pub open spec fn opt_param(key: Seq<char>, v: Option<String>) -> Seq<(Seq<char>, ParamSpec)> {
    match v {
        Some(s) => seq![text_param(key, s@)],
        None => Seq::empty(),
    }
}

/// The request a command sends, or the message it fails with before
/// sending anything (a priority that is not `BG`, `PRIO` or `INC`).
pub open spec fn request_spec(cmd: CliCommand) -> Result<(Method, Seq<(Seq<char>, ParamSpec)>), Seq<char>> {
    match cmd {
        CliCommand::ThreadCreate { slug, priority, description } => match parse_priority_spec(priority@) {
            Err(m) => Err(m),
            Ok(_) => Ok((Method::ThreadCreate, seq![
                text_param("slug"@, slug@),
                text_param("priority"@, priority@),
                text_param("description"@, description@),
            ])),
        },
        CliCommand::ThreadList => Ok((Method::ThreadList, Seq::empty())),
        CliCommand::ThreadSwitchTo { id } => Ok((Method::ThreadSwitchTo, seq![text_param("id"@, id@)])),
        CliCommand::ThreadWait { id, reason } => Ok((Method::ThreadWait,
            seq![text_param("id"@, id@)] + opt_param("reason"@, reason))),
        CliCommand::ThreadResume { id, note } => Ok((Method::ThreadResume,
            seq![text_param("id"@, id@)] + opt_param("note"@, note))),
        CliCommand::ThreadUpdate { id, slug, description, priority } => {
            if priority is Some && parse_priority_spec(priority->0@) is Err {
                Err(parse_priority_spec(priority->0@)->Err_0)
            } else {
                Ok((Method::ThreadUpdate, seq![text_param("id"@, id@)] + opt_param("slug"@, slug)
                    + opt_param("description"@, description) + opt_param("priority"@, priority)))
            }
        },
        CliCommand::TaskCreate { description, due_by, thread } => Ok((Method::TaskCreate,
            seq![text_param("description"@, description@)] + opt_param("due_by"@, due_by)
                + opt_param("thread"@, thread))),
        CliCommand::TaskList { thread } => Ok((Method::TaskList, opt_param("thread"@, thread))),
        CliCommand::TaskStart { id, thread } => Ok((Method::TaskStart,
            seq![text_param("id"@, id@)] + opt_param("thread"@, thread))),
        CliCommand::TaskBlock { id, reason, thread } => Ok((Method::TaskBlock,
            seq![text_param("id"@, id@), text_param("reason"@, reason@)] + opt_param("thread"@, thread))),
        CliCommand::TaskComplete { id, thread } => Ok((Method::TaskComplete,
            seq![text_param("id"@, id@)] + opt_param("thread"@, thread))),
        CliCommand::TaskCancel { id, thread } => Ok((Method::TaskCancel,
            seq![text_param("id"@, id@)] + opt_param("thread"@, thread))),
        CliCommand::TaskUpdate { id, description, due_by, seq, thread } => Ok((Method::TaskUpdate,
            seq![text_param("id"@, id@)] + opt_param("description"@, description) + opt_param("due_by"@, due_by)
                + (match seq {
                    Some(n) => seq![("seq"@, ParamSpec::Number(n))],
                    None => Seq::empty(),
                }) + opt_param("thread"@, thread))),
    }
}

fn push_text(ps: &mut Vec<Param>, key: &str, v: String)
    ensures
        params_view(final(ps)@) == params_view(old(ps)@).push(text_param(key@, v@)),
{
    ps.push(Param { key: String::from_str(key), value: ParamValue::Text(v) });
    assert(params_view(ps@) =~= params_view(old(ps)@).push(text_param(key@, v@)));
}

fn push_opt(ps: &mut Vec<Param>, key: &str, v: Option<String>)
    ensures
        params_view(final(ps)@) == params_view(old(ps)@) + opt_param(key@, v),
{
    let ghost gv = v;
    match v {
        Some(s) => {
            push_text(ps, key, s);
            assert(params_view(ps@) =~= params_view(old(ps)@) + opt_param(key@, gv));
        },
        None => {
            assert(params_view(ps@) =~= params_view(old(ps)@) + opt_param(key@, gv));
        },
    }
}

/// The request a command sends; a priority given to `thread create` or
/// `thread update` is checked first, and a bad one is refused with the
/// message of `Priority::parse`.
pub fn cli_request(cmd: CliCommand) -> (r: Result<Request, String>)
    ensures
        match (r, request_spec(cmd)) {
            (Ok(q), Ok((m, ps))) => q.method == m && params_view(q.params@) == ps,
            (Err(e), Err(m)) => e@ == m,
            _ => false,
        },
{
    let ghost c = cmd;
    let mut ps: Vec<Param> = Vec::new();
    let method = match cmd {
        CliCommand::ThreadCreate { slug, priority, description } => {
            if let Err(m) = Priority::parse(priority.as_str()) {
                return Err(m);
            }
            push_text(&mut ps, "slug", slug);
            push_text(&mut ps, "priority", priority);
            push_text(&mut ps, "description", description);
            Method::ThreadCreate
        },
        CliCommand::ThreadList => Method::ThreadList,
        CliCommand::ThreadSwitchTo { id } => {
            push_text(&mut ps, "id", id);
            Method::ThreadSwitchTo
        },
        CliCommand::ThreadWait { id, reason } => {
            push_text(&mut ps, "id", id);
            push_opt(&mut ps, "reason", reason);
            Method::ThreadWait
        },
        CliCommand::ThreadResume { id, note } => {
            push_text(&mut ps, "id", id);
            push_opt(&mut ps, "note", note);
            Method::ThreadResume
        },
        CliCommand::ThreadUpdate { id, slug, description, priority } => {
            if let Some(p) = &priority {
                if let Err(m) = Priority::parse(p.as_str()) {
                    return Err(m);
                }
            }
            push_text(&mut ps, "id", id);
            push_opt(&mut ps, "slug", slug);
            push_opt(&mut ps, "description", description);
            push_opt(&mut ps, "priority", priority);
            Method::ThreadUpdate
        },
        CliCommand::TaskCreate { description, due_by, thread } => {
            push_text(&mut ps, "description", description);
            push_opt(&mut ps, "due_by", due_by);
            push_opt(&mut ps, "thread", thread);
            Method::TaskCreate
        },
        CliCommand::TaskList { thread } => {
            push_opt(&mut ps, "thread", thread);
            Method::TaskList
        },
        CliCommand::TaskStart { id, thread } => {
            push_text(&mut ps, "id", id);
            push_opt(&mut ps, "thread", thread);
            Method::TaskStart
        },
        CliCommand::TaskBlock { id, reason, thread } => {
            push_text(&mut ps, "id", id);
            push_text(&mut ps, "reason", reason);
            push_opt(&mut ps, "thread", thread);
            Method::TaskBlock
        },
        CliCommand::TaskComplete { id, thread } => {
            push_text(&mut ps, "id", id);
            push_opt(&mut ps, "thread", thread);
            Method::TaskComplete
        },
        CliCommand::TaskCancel { id, thread } => {
            push_text(&mut ps, "id", id);
            push_opt(&mut ps, "thread", thread);
            Method::TaskCancel
        },
        CliCommand::TaskUpdate { id, description, due_by, seq, thread } => {
            push_text(&mut ps, "id", id);
            push_opt(&mut ps, "description", description);
            push_opt(&mut ps, "due_by", due_by);
            if let Some(n) = seq {
                let ghost before = ps@;
                ps.push(Param { key: String::from_str("seq"), value: ParamValue::Number(n) });
                assert(params_view(ps@) =~= params_view(before).push(("seq"@, ParamSpec::Number(n))));
            }
            push_opt(&mut ps, "thread", thread);
            Method::TaskUpdate
        },
    };
    proof {
        assert(request_spec(c) is Ok);
        assert(params_view(ps@) =~= request_spec(c)->Ok_0.1);
    }
    Ok(Request { method, params: ps })
}

/// Whether the parameters carry `key` with the text `v`.
pub open spec fn carries_text(ps: Seq<(Seq<char>, ParamSpec)>, key: Seq<char>, v: Seq<char>) -> bool {
    exists|i: int| 0 <= i < ps.len() && #[trigger] ps[i] == (key, ParamSpec::Text(v))
}

/// Whether the parameters carry `key` exactly when the argument is given,
/// and then with its text.
pub open spec fn carries_opt(ps: Seq<(Seq<char>, ParamSpec)>, key: Seq<char>, v: Option<String>) -> bool {
    match v {
        Some(s) => carries_text(ps, key, s@),
        None => forall|i: int| 0 <= i < ps.len() ==> (#[trigger] ps[i]).0 != key,
    }
}

/// Every command that passes its checks sends the method of its name, and
/// the request carries every argument the user gave under its name, and an
/// optional argument exactly when it was given; only a priority that does
/// not parse stops `thread create` or `thread update` from sending.
pub proof fn law_requests_carry_arguments(cmd: CliCommand)
    ensures
        match cmd {
            CliCommand::ThreadCreate { slug, priority, description } =>
                (request_spec(cmd) is Ok <==> parse_priority_spec(priority@) is Ok)
                && (request_spec(cmd) matches Ok((m, ps)) ==> m == Method::ThreadCreate
                    && carries_text(ps, "slug"@, slug@) && carries_text(ps, "priority"@, priority@)
                    && carries_text(ps, "description"@, description@)),
            CliCommand::ThreadList => request_spec(cmd) matches Ok((m, ps)) && m == Method::ThreadList && ps.len() == 0,
            CliCommand::ThreadSwitchTo { id } => request_spec(cmd) matches Ok((m, ps))
                && m == Method::ThreadSwitchTo && carries_text(ps, "id"@, id@),
            CliCommand::ThreadWait { id, reason } => request_spec(cmd) matches Ok((m, ps))
                && m == Method::ThreadWait && carries_text(ps, "id"@, id@) && carries_opt(ps, "reason"@, reason),
            CliCommand::ThreadResume { id, note } => request_spec(cmd) matches Ok((m, ps))
                && m == Method::ThreadResume && carries_text(ps, "id"@, id@) && carries_opt(ps, "note"@, note),
            CliCommand::ThreadUpdate { id, slug, description, priority } =>
                (request_spec(cmd) is Ok <==> (priority is None || parse_priority_spec(priority->0@) is Ok))
                && (request_spec(cmd) matches Ok((m, ps)) ==> m == Method::ThreadUpdate
                    && carries_text(ps, "id"@, id@) && carries_opt(ps, "slug"@, slug)
                    && carries_opt(ps, "description"@, description) && carries_opt(ps, "priority"@, priority)),
            CliCommand::TaskCreate { description, due_by, thread } => request_spec(cmd) matches Ok((m, ps))
                && m == Method::TaskCreate && carries_text(ps, "description"@, description@)
                && carries_opt(ps, "due_by"@, due_by) && carries_opt(ps, "thread"@, thread),
            CliCommand::TaskList { thread } => request_spec(cmd) matches Ok((m, ps))
                && m == Method::TaskList && carries_opt(ps, "thread"@, thread),
            CliCommand::TaskStart { id, thread } => request_spec(cmd) matches Ok((m, ps))
                && m == Method::TaskStart && carries_text(ps, "id"@, id@) && carries_opt(ps, "thread"@, thread),
            CliCommand::TaskBlock { id, reason, thread } => request_spec(cmd) matches Ok((m, ps))
                && m == Method::TaskBlock && carries_text(ps, "id"@, id@) && carries_text(ps, "reason"@, reason@)
                && carries_opt(ps, "thread"@, thread),
            CliCommand::TaskComplete { id, thread } => request_spec(cmd) matches Ok((m, ps))
                && m == Method::TaskComplete && carries_text(ps, "id"@, id@) && carries_opt(ps, "thread"@, thread),
            CliCommand::TaskCancel { id, thread } => request_spec(cmd) matches Ok((m, ps))
                && m == Method::TaskCancel && carries_text(ps, "id"@, id@) && carries_opt(ps, "thread"@, thread),
            CliCommand::TaskUpdate { id, description, due_by, seq, thread } => request_spec(cmd) matches Ok((m, ps))
                && m == Method::TaskUpdate && carries_text(ps, "id"@, id@)
                && carries_opt(ps, "description"@, description) && carries_opt(ps, "due_by"@, due_by)
                && carries_opt(ps, "thread"@, thread)
                && (match seq {
                    Some(n) => exists|i: int| 0 <= i < ps.len() && #[trigger] ps[i] == ("seq"@, ParamSpec::Number(n)),
                    None => forall|i: int| 0 <= i < ps.len() ==> (#[trigger] ps[i]).0 != "seq"@,
                }),
        },
{
    reveal_strlit("slug");
    reveal_strlit("priority");
    reveal_strlit("description");
    reveal_strlit("id");
    reveal_strlit("reason");
    reveal_strlit("note");
    reveal_strlit("due_by");
    reveal_strlit("thread");
    reveal_strlit("seq");
    assert("slug"@.len() == 4 && "slug"@[0] == 's');
    assert("priority"@.len() == 8);
    assert("description"@.len() == 11);
    assert("id"@.len() == 2);
    assert("reason"@.len() == 6 && "reason"@[0] == 'r');
    assert("note"@.len() == 4 && "note"@[0] == 'n');
    assert("due_by"@.len() == 6 && "due_by"@[0] == 'd');
    assert("thread"@.len() == 6 && "thread"@[0] == 't');
    assert("seq"@.len() == 3);
    match cmd {
        CliCommand::ThreadCreate { slug, priority, description } => {
            if let Ok((m, ps)) = request_spec(cmd) {
                assert(ps[0] == text_param("slug"@, slug@));
                assert(ps[1] == text_param("priority"@, priority@));
                assert(ps[2] == text_param("description"@, description@));
            }
        },
        CliCommand::ThreadList => {},
        CliCommand::ThreadSwitchTo { id } => {
            assert(request_spec(cmd)->Ok_0.1[0] == text_param("id"@, id@));
        },
        CliCommand::ThreadWait { id, reason } => {
            let ps = request_spec(cmd)->Ok_0.1;
            assert(ps[0] == text_param("id"@, id@));
            if reason is Some {
                assert(ps[1] == text_param("reason"@, reason->0@));
            }
        },
        CliCommand::ThreadResume { id, note } => {
            let ps = request_spec(cmd)->Ok_0.1;
            assert(ps[0] == text_param("id"@, id@));
            if note is Some {
                assert(ps[1] == text_param("note"@, note->0@));
            }
        },
        CliCommand::ThreadUpdate { id, slug, description, priority } => {
            if let Ok((m, ps)) = request_spec(cmd) {
                let a = seq![text_param("id"@, id@)];
                let b = opt_param("slug"@, slug);
                let c = opt_param("description"@, description);
                let d = opt_param("priority"@, priority);
                assert(ps == a + b + c + d);
                assert(ps[0] == text_param("id"@, id@));
                if slug is Some {
                    assert(ps[1] == text_param("slug"@, slug->0@));
                }
                if description is Some {
                    assert(ps[(1 + b.len()) as int] == text_param("description"@, description->0@));
                }
                if priority is Some {
                    assert(ps[(1 + b.len() + c.len()) as int] == text_param("priority"@, priority->0@));
                }
            }
        },
        CliCommand::TaskCreate { description, due_by, thread } => {
            let ps = request_spec(cmd)->Ok_0.1;
            let b = opt_param("due_by"@, due_by);
            assert(ps[0] == text_param("description"@, description@));
            if due_by is Some {
                assert(ps[1] == text_param("due_by"@, due_by->0@));
            }
            if thread is Some {
                assert(ps[(1 + b.len()) as int] == text_param("thread"@, thread->0@));
            }
        },
        CliCommand::TaskList { thread } => {
            if thread is Some {
                assert(request_spec(cmd)->Ok_0.1[0] == text_param("thread"@, thread->0@));
            }
        },
        CliCommand::TaskStart { id, thread } => {
            let ps = request_spec(cmd)->Ok_0.1;
            assert(ps[0] == text_param("id"@, id@));
            if thread is Some {
                assert(ps[1] == text_param("thread"@, thread->0@));
            }
        },
        CliCommand::TaskBlock { id, reason, thread } => {
            let ps = request_spec(cmd)->Ok_0.1;
            assert(ps[0] == text_param("id"@, id@));
            assert(ps[1] == text_param("reason"@, reason@));
            if thread is Some {
                assert(ps[2] == text_param("thread"@, thread->0@));
            }
        },
        CliCommand::TaskComplete { id, thread } => {
            let ps = request_spec(cmd)->Ok_0.1;
            assert(ps[0] == text_param("id"@, id@));
            if thread is Some {
                assert(ps[1] == text_param("thread"@, thread->0@));
            }
        },
        CliCommand::TaskCancel { id, thread } => {
            let ps = request_spec(cmd)->Ok_0.1;
            assert(ps[0] == text_param("id"@, id@));
            if thread is Some {
                assert(ps[1] == text_param("thread"@, thread->0@));
            }
        },
        CliCommand::TaskUpdate { id, description, due_by, seq, thread } => {
            let ps = request_spec(cmd)->Ok_0.1;
            let b = opt_param("description"@, description);
            let c = opt_param("due_by"@, due_by);
            let d: Seq<(Seq<char>, ParamSpec)> = match seq {
                Some(n) => seq![("seq"@, ParamSpec::Number(n))],
                None => Seq::empty(),
            };
            assert(ps == seq![text_param("id"@, id@)] + b + c + d + opt_param("thread"@, thread));
            assert(ps[0] == text_param("id"@, id@));
            if description is Some {
                assert(ps[1] == text_param("description"@, description->0@));
            }
            if due_by is Some {
                assert(ps[(1 + b.len()) as int] == text_param("due_by"@, due_by->0@));
            }
            if seq is Some {
                assert(ps[(1 + b.len() + c.len()) as int] == ("seq"@, ParamSpec::Number(seq->0)));
            }
            if thread is Some {
                assert(ps[(1 + b.len() + c.len() + d.len()) as int] == text_param("thread"@, thread->0@));
            }
        },
    }
}

// ---------------------------------------------------------------------------
// tsk context
// ---------------------------------------------------------------------------

/// A thread as `thread.list` reports it, each field as far as the reply
/// holds it.
pub struct ListedThread {
    pub id: Option<u64>,
    pub slug: Option<String>,
    pub state: Option<String>,
    pub priority: Option<String>,
    pub description: Option<String>,
}

pub open spec fn or_default(v: Option<String>, d: Seq<char>) -> Seq<char> {
    match v {
        Some(s) => s@,
        None => d,
    }
}

/// The line of the listing for one thread: id, slug, priority, state and
/// description in aligned columns; a missing field shows as `?` (id 0,
/// empty description).
pub open spec fn context_line_spec(t: ListedThread) -> Seq<char> {
    "- "@ + zero_pad(decimal(match t.id { Some(n) => n as nat, None => 0 }), 4) + " "@
        + left_align(or_default(t.slug, "?"@), 20) + " "@
        + left_align(or_default(t.priority, "?"@), 6) + " "@
        + left_align(or_default(t.state, "?"@), 6) + " "@
        + or_default(t.description, ""@)
}

/// The thread listing that `tsk context` prints after its overview: a line
/// per thread, or a note that there is none.
pub open spec fn context_lines_spec(ts: Seq<ListedThread>) -> Seq<Seq<char>> {
    if ts.len() == 0 {
        seq!["No threads exist yet."@]
    } else {
        ts.map_values(|t: ListedThread| context_line_spec(t))
    }
}

fn field_or<'a>(v: &'a Option<String>, d: &'a str) -> (r: &'a str)
    ensures
        r@ == or_default(*v, d@),
{
    match v {
        Some(s) => s.as_str(),
        None => d,
    }
}

/// One line of the `tsk context` thread listing.
pub fn context_line(t: &ListedThread) -> (r: String)
    ensures
        r@ == context_line_spec(*t),
{
    let id: u64 = match t.id {
        Some(n) => n,
        None => 0,
    };
    let mut r = String::from_str("- ");
    push_zero_padded(&mut r, id, 4);
    r.append(" ");
    push_left_aligned(&mut r, field_or(&t.slug, "?"), 20);
    r.append(" ");
    push_left_aligned(&mut r, field_or(&t.priority, "?"), 6);
    r.append(" ");
    push_left_aligned(&mut r, field_or(&t.state, "?"), 6);
    r.append(" ");
    r.append(field_or(&t.description, ""));
    r
}

/// The thread listing of `tsk context`.
pub fn context_lines(threads: &Vec<ListedThread>) -> (r: Vec<String>)
    ensures
        r@.map_values(|l: String| l@) == context_lines_spec(threads@),
{
    let mut out: Vec<String> = Vec::new();
    if threads.len() == 0 {
        out.push(String::from_str("No threads exist yet."));
        assert(out@.map_values(|l: String| l@) =~= context_lines_spec(threads@));
        return out;
    }
    let mut i: usize = 0;
    while i < threads.len()
        invariant
            i <= threads@.len(),
            out@.len() == i,
            forall|k: int| 0 <= k < i ==> #[trigger] out@[k]@ == context_line_spec(threads@[k]),
        decreases threads.len() - i,
    {
        let l = context_line(&threads[i]);
        out.push(l);
        i = i + 1;
    }
    assert(out@.map_values(|l: String| l@) =~= context_lines_spec(threads@));
    out
}

} // verus!
