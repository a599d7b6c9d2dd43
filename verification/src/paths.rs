//! Where `tsk` keeps its files, relative to a project root, and the
//! per-project socket of the daemon.
//!
//! Paths are handled as strings; joining follows `PathBuf::join` for a
//! relative component: a `/` separator is inserted unless the base is empty
//! or already ends in one.

use vstd::prelude::*;
use crate::model::id4;
use crate::text::{push_char, push_zero_padded};
use sha2::{Digest, Sha256};

verus! {

/// `base` joined with the relative component `name`.
pub open spec fn join(base: Seq<char>, name: Seq<char>) -> Seq<char> {
    if base.len() == 0 {
        name
    } else if base.last() == '/' {
        base + name
    } else {
        base + "/"@ + name
    }
}

/// Joins a relative component onto a path.
pub fn join_path(base: &str, name: &str) -> (r: String)
    ensures
        r@ == join(base@, name@),
{
    let n = base.unicode_len();
    let mut r = String::from_str(base);
    if n > 0 && base.get_char(n - 1) != '/' {
        r.append("/");
    }
    r.append(name);
    r
}

pub open spec fn tsk_dir_of(root: Seq<char>) -> Seq<char> {
    join(root, "tsk"@)
}

pub open spec fn event_log_dir_of(root: Seq<char>) -> Seq<char> {
    join(tsk_dir_of(root), "event-log"@)
}

pub open spec fn event_log_path_of(root: Seq<char>) -> Seq<char> {
    join(event_log_dir_of(root), "events.ndjson"@)
}

pub open spec fn threads_dir_of(root: Seq<char>) -> Seq<char> {
    join(tsk_dir_of(root), "threads"@)
}

pub open spec fn index_path_of(root: Seq<char>) -> Seq<char> {
    join(threads_dir_of(root), "index.json"@)
}

/// The name of a thread's directory: `{id:04}-{slug}`.
pub open spec fn thread_dir_name(id: u32, slug: Seq<char>) -> Seq<char> {
    id4(id) + "-"@ + slug
}

pub open spec fn thread_dir_of(root: Seq<char>, id: u32, slug: Seq<char>) -> Seq<char> {
    join(threads_dir_of(root), thread_dir_name(id, slug))
}

pub open spec fn tasks_path_of(root: Seq<char>, id: u32, slug: Seq<char>) -> Seq<char> {
    join(thread_dir_of(root, id, slug), "tasks.json"@)
}

/// `{root}/tsk`
pub fn tsk_dir(project_root: &str) -> (r: String)
    ensures
        r@ == tsk_dir_of(project_root@),
{
    join_path(project_root, "tsk")
}

/// `{root}/tsk/event-log`
pub fn event_log_dir(project_root: &str) -> (r: String)
    ensures
        r@ == event_log_dir_of(project_root@),
{
    let d = tsk_dir(project_root);
    join_path(d.as_str(), "event-log")
}

/// `{root}/tsk/event-log/events.ndjson`
pub fn event_log_path(project_root: &str) -> (r: String)
    ensures
        r@ == event_log_path_of(project_root@),
{
    let d = event_log_dir(project_root);
    join_path(d.as_str(), "events.ndjson")
}

/// `{root}/tsk/threads`
pub fn threads_dir(project_root: &str) -> (r: String)
    ensures
        r@ == threads_dir_of(project_root@),
{
    let d = tsk_dir(project_root);
    join_path(d.as_str(), "threads")
}

/// `{root}/tsk/threads/index.json`
pub fn index_path(project_root: &str) -> (r: String)
    ensures
        r@ == index_path_of(project_root@),
{
    let d = threads_dir(project_root);
    join_path(d.as_str(), "index.json")
}

/// Thread working directory: `tsk/threads/{id:04}-{slug}/`
pub fn thread_dir(project_root: &str, id: u32, slug: &str) -> (r: String)
    ensures
        r@ == thread_dir_of(project_root@, id, slug@),
{
    let d = threads_dir(project_root);
    let mut name = String::new();
    push_zero_padded(&mut name, id as u64, 4);
    name.append("-");
    name.append(slug);
    join_path(d.as_str(), name.as_str())
}

/// Path to the tasks file for a thread: `tsk/threads/{id}-{slug}/tasks.json`
pub fn tasks_path(project_root: &str, thread_id: u32, slug: &str) -> (r: String)
    ensures
        r@ == tasks_path_of(project_root@, thread_id, slug@),
{
    let d = thread_dir(project_root, thread_id, slug);
    join_path(d.as_str(), "tasks.json")
}

// ---------------------------------------------------------------------------
// Socket path
// ---------------------------------------------------------------------------

/// The SHA-256 digest of a byte sequence.
pub uninterp spec fn sha256_of(data: Seq<u8>) -> Seq<u8>;

/// Hashes `data` with SHA-256.
///
/// Calls `sha2::Sha256` (`new`, `update`, `finalize`). The contract claims
/// that the digest is a function of the input bytes alone and that it is 32
/// bytes long (the output size of `Sha256`); what the digest is, is not
/// stated.
#[verifier::external_body]
fn sha256_digest(data: &[u8]) -> (r: Vec<u8>)
    ensures
        r@ == sha256_of(data@),
        r@.len() == 32,
{
    let mut hasher = Sha256::new();
    hasher.update(data);
    hasher.finalize().to_vec()
}

/// The lower-case hexadecimal digit of a value below 16.
pub open spec fn hex_digit(v: int) -> char {
    if v < 10 {
        (48 + v) as char
    } else {
        (87 + v) as char
    }
}

/// Lower-case hexadecimal text of a byte sequence, two digits per byte.
pub open spec fn hex_of(bytes: Seq<u8>) -> Seq<char>
    decreases bytes.len(),
{
    if bytes.len() == 0 {
        Seq::empty()
    } else {
        hex_of(bytes.drop_last()) + seq![
            hex_digit(bytes.last() as int / 16),
            hex_digit(bytes.last() as int % 16),
        ]
    }
}

/// The socket of the daemon for a project: `/tmp/tsk-{h}.sock`, where `h`
/// is the hexadecimal text of the first four bytes of the SHA-256 digest of
/// the root path's UTF-8 bytes.
pub open spec fn socket_path_of(root: Seq<char>) -> Seq<char> {
    "/tmp/tsk-"@ + hex_of(sha256_of(vstd::utf8::encode_utf8(root)).take(4)) + ".sock"@
}

fn hex_char(v: u8) -> (c: char)
    requires
        v < 16,
    ensures
        c == hex_digit(v as int),
{
    if v < 10 {
        (48u8 + v) as char
    } else {
        (87u8 + v) as char
    }
}

/// Derives a stable socket path from the project root directory.
/// Uses first 8 chars of SHA-256 of the path string, so multiple projects
/// can have daemons running simultaneously.
pub fn socket_path(project_root: &str) -> (r: String)
    ensures
        r@ == socket_path_of(project_root@),
{
    let digest = sha256_digest(project_root.as_bytes());
    let ghost d = digest@;
    let mut r = String::from_str("/tmp/tsk-");
    let mut i: usize = 0;
    while i < 4
        invariant
            i <= 4,
            digest@ == d,
            d.len() == 32,
            r@ == "/tmp/tsk-"@ + hex_of(d.take(i as int)),
        decreases 4 - i,
    {
        let b = digest[i];
        push_char(&mut r, hex_char(b / 16));
        push_char(&mut r, hex_char(b % 16));
        proof {
            let t = d.take(i + 1);
            assert(t.drop_last() =~= d.take(i as int));
            assert(t.last() == b);
        }
        i = i + 1;
    }
    r.append(".sock");
    r
}

} // verus!
