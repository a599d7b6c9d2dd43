//! The daemon's methods: which request names it answers, and the error for
//! any other.

use vstd::prelude::*;
use crate::text::str_eq;
use crate::threads::{err, make_error, ErrorView, METHOD_NOT_FOUND, PARSE_ERROR};
use crate::model::{JsonRpcError, JsonRpcResponse};

verus! {

/// The methods the daemon answers.
#[derive(Debug, Clone, Copy, PartialEq, Eq)]
pub enum Method {
    ThreadCreate,
    ThreadList,
    ThreadSwitchTo,
    ThreadUpdate,
    ThreadWait,
    ThreadResume,
    TaskCreate,
    TaskList,
    TaskStart,
    TaskBlock,
    TaskComplete,
    TaskCancel,
    TaskUpdate,
}

/// The name of a method on the wire.
pub open spec fn method_name(m: Method) -> Seq<char> {
    match m {
        Method::ThreadCreate => "thread.create"@,
        Method::ThreadList => "thread.list"@,
        Method::ThreadSwitchTo => "thread.switch_to"@,
        Method::ThreadUpdate => "thread.update"@,
        Method::ThreadWait => "thread.wait"@,
        Method::ThreadResume => "thread.resume"@,
        Method::TaskCreate => "task.create"@,
        Method::TaskList => "task.list"@,
        Method::TaskStart => "task.start"@,
        Method::TaskBlock => "task.block"@,
        Method::TaskComplete => "task.complete"@,
        Method::TaskCancel => "task.cancel"@,
        Method::TaskUpdate => "task.update"@,
    }
}

/// The answer to a request for a method the daemon does not have.
pub open spec fn method_not_found() -> ErrorView {
    err(METHOD_NOT_FOUND, "Method not found"@)
}

impl Method {
    /// The method a request names, or the "Method not found" error when
    /// the name is none of the daemon's methods.
    pub fn from_name(name: &str) -> (r: Result<Method, JsonRpcError>)
        ensures
            match r {
                Ok(m) => method_name(m) == name@,
                Err(e) => e@ == method_not_found() && forall|m: Method| method_name(m) != name@,
            },
    {
        if str_eq(name, "thread.create") {
            Ok(Method::ThreadCreate)
        } else if str_eq(name, "thread.list") {
            Ok(Method::ThreadList)
        } else if str_eq(name, "thread.switch_to") {
            Ok(Method::ThreadSwitchTo)
        } else if str_eq(name, "thread.update") {
            Ok(Method::ThreadUpdate)
        } else if str_eq(name, "thread.wait") {
            Ok(Method::ThreadWait)
        } else if str_eq(name, "thread.resume") {
            Ok(Method::ThreadResume)
        } else if str_eq(name, "task.create") {
            Ok(Method::TaskCreate)
        } else if str_eq(name, "task.list") {
            Ok(Method::TaskList)
        } else if str_eq(name, "task.start") {
            Ok(Method::TaskStart)
        } else if str_eq(name, "task.block") {
            Ok(Method::TaskBlock)
        } else if str_eq(name, "task.complete") {
            Ok(Method::TaskComplete)
        } else if str_eq(name, "task.cancel") {
            Ok(Method::TaskCancel)
        } else if str_eq(name, "task.update") {
            Ok(Method::TaskUpdate)
        } else {
            Err(make_error(METHOD_NOT_FOUND, "Method not found"))
        }
    }

    /// The name of the method on the wire.
    pub fn name(&self) -> (r: &'static str)
        ensures
            r@ == method_name(*self),
    {
        match self {
            Method::ThreadCreate => "thread.create",
            Method::ThreadList => "thread.list",
            Method::ThreadSwitchTo => "thread.switch_to",
            Method::ThreadUpdate => "thread.update",
            Method::ThreadWait => "thread.wait",
            Method::ThreadResume => "thread.resume",
            Method::TaskCreate => "task.create",
            Method::TaskList => "task.list",
            Method::TaskStart => "task.start",
            Method::TaskBlock => "task.block",
            Method::TaskComplete => "task.complete",
            Method::TaskCancel => "task.cancel",
            Method::TaskUpdate => "task.update",
        }
    }
}

/// The length and eighth character of each method's name, which tell the
/// names apart.
spec fn name_signature(m: Method) -> (nat, char) {
    match m {
        Method::ThreadCreate => (13, 'c'),
        Method::ThreadList => (11, 'l'),
        Method::ThreadSwitchTo => (16, 's'),
        Method::ThreadUpdate => (13, 'u'),
        Method::ThreadWait => (11, 'w'),
        Method::ThreadResume => (13, 'r'),
        Method::TaskCreate => (11, 'e'),
        Method::TaskList => (9, 's'),
        Method::TaskStart => (10, 'a'),
        Method::TaskBlock => (10, 'o'),
        Method::TaskComplete => (13, 'm'),
        Method::TaskCancel => (11, 'n'),
        Method::TaskUpdate => (11, 'd'),
    }
}

proof fn lemma_name_signature(m: Method)
    ensures
        method_name(m).len() == name_signature(m).0,
        method_name(m)[7] == name_signature(m).1,
{
    match m {
        Method::ThreadCreate => {
            reveal_strlit("thread.create");
        },
        Method::ThreadList => {
            reveal_strlit("thread.list");
        },
        Method::ThreadSwitchTo => {
            reveal_strlit("thread.switch_to");
        },
        Method::ThreadUpdate => {
            reveal_strlit("thread.update");
        },
        Method::ThreadWait => {
            reveal_strlit("thread.wait");
        },
        Method::ThreadResume => {
            reveal_strlit("thread.resume");
        },
        Method::TaskCreate => {
            reveal_strlit("task.create");
        },
        Method::TaskList => {
            reveal_strlit("task.list");
        },
        Method::TaskStart => {
            reveal_strlit("task.start");
        },
        Method::TaskBlock => {
            reveal_strlit("task.block");
        },
        Method::TaskComplete => {
            reveal_strlit("task.complete");
        },
        Method::TaskCancel => {
            reveal_strlit("task.cancel");
        },
        Method::TaskUpdate => {
            reveal_strlit("task.update");
        },
    }
}

/// Two methods with the same name are the same method, so a request names
/// at most one method and `from_name` finds every method by its name.
pub proof fn law_method_names_distinct(m: Method, k: Method)
    requires
        method_name(m) == method_name(k),
    ensures
        m == k,
{
    lemma_name_signature(m);
    lemma_name_signature(k);
    assert(name_signature(m) == name_signature(k));
}

/// The answer to a request line that is not a JSON-RPC request: numbered
/// 0, with the parser's complaint in the message.
pub fn parse_error_response(detail: &str) -> (r: JsonRpcResponse)
    ensures
        r.id == 0,
        r.result is None,
        r.error matches Some(e) && e.code == PARSE_ERROR && e.message@ == "Parse error: "@ + detail@,
{
    let mut m = String::from_str("Parse error: ");
    m.append(detail);
    JsonRpcResponse::error(0, PARSE_ERROR, m)
}

} // verus!
