//! Answering requests.

use crate::codec::{b64_decode, b64_encode, b64_refusal, base64_text, is_base64};
use crate::guest_proto::{
    carried, AgentInfo, ClockResult, DirEntry, ExecRequest, ExecResult, FileContent, FileKind,
    Response, ResponseBody, DEFAULT_EXEC_TIMEOUT_MS, DEFAULT_MAX_OUTPUT, DEFAULT_MAX_READ, MAX_FRAME,
};
use crate::text::{
    concat2, concat3, from_utf8_lossy, lemma_order, lossy_text, no_later, text_le, trim, trimmed,
};
use vstd::prelude::*;
use vstd::string::*;

verus! {

/// Whether `resp` is the response to a request that came to this.
pub open spec fn responds(r: Result<ResponseBody, String>, resp: Response) -> bool {
    match r {
        Ok(body) => resp == (Response { ok: true, result: Some(body), error: None }),
        Err(m) => !resp.ok && resp.result is None && (resp.error matches Some(e) && e@ == m@),
    }
}

/// The response to a request that came to this.
pub fn respond(r: Result<ResponseBody, String>) -> (resp: Response)
    ensures
        responds(r, resp),
{
    match r {
        Ok(body) => Response::ok(body),
        Err(m) => Response::err(m.as_str()),
    }
}

/// What was read off a connection.
#[derive(Debug)]
pub enum Received<T> {
    Request(T),
    /// The peer closed it.
    End,
    /// Not a request, for this reason.
    Bad(String),
}

/// What to do next on a connection.
#[derive(Debug)]
pub enum Turn<T> {
    /// Carry this out, reply, and read on.
    Serve(T),
    /// Send this last reply and close: the stream's position is no longer
    /// trustworthy.
    ReplyAndClose(Response),
    Close,
}

/// Whether `t` is what to do with what was read off a connection.
pub open spec fn turns<T>(r: Received<T>, t: Turn<T>) -> bool {
    match r {
        Received::Request(x) => t == Turn::Serve(x),
        Received::End => t is Close,
        Received::Bad(e) => {
            &&& t matches Turn::ReplyAndClose(resp)
            &&& !resp.ok
            &&& resp.result is None
            &&& resp.error matches Some(m)
            &&& m@ == "bad request: "@ + e@
        },
    }
}

/// Decides what to do with what was read off a connection.
pub fn turn<T>(r: Received<T>) -> (t: Turn<T>)
    ensures
        turns(r, t),
{
    match r {
        Received::Request(x) => Turn::Serve(x),
        Received::End => Turn::Close,
        Received::Bad(e) => Turn::ReplyAndClose(
            Response::err(concat2("bad request: ", e.as_str()).as_str()),
        ),
    }
}

/// The agent's account of itself. `hostname` is as its file has it.
pub fn info(version: &str, hostname: &str, uid: u32, cwd: &str) -> (i: AgentInfo)
    ensures
        i.agent@ == "iso-guest-agent"@,
        i.version@ == version@,
        i.hostname@ == trimmed(hostname@),
        i.uid == uid,
        i.cwd@ == cwd@,
{
    AgentInfo {
        agent: "iso-guest-agent".to_string(),
        version: version.to_string(),
        hostname: trim(hostname),
        uid,
        cwd: cwd.to_string(),
    }
}

/// What is said of an operation on a path that failed.
pub fn io_err(what: &str, path: &str, e: &str) -> (s: String)
    ensures
        s@ == what@ + " "@ + path@ + ": "@ + e@,
{
    let mut s = concat3(what, " ", path);
    s.append(": ");
    s.append(e);
    s
}

// ---- running programs ----

/// One stream of a program's output: at most so many bytes of it.
pub struct Capture {
    kept: Vec<u8>,
    cap: usize,
    cut: bool,
}

impl Capture {
    /// What is kept.
    pub closed spec fn bytes(self) -> Seq<u8> {
        self.kept@
    }

    /// How much is kept at most.
    pub closed spec fn limit(self) -> nat {
        self.cap as nat
    }

    /// Whether anything was dropped.
    pub closed spec fn dropped(self) -> bool {
        self.cut
    }

    /// No more is kept than the limit allows.
    pub open spec fn wf(self) -> bool {
        self.bytes().len() <= self.limit()
    }

    /// Before the first byte.
    pub fn new(cap: usize) -> (c: Self)
        ensures
            c.wf(),
            c.bytes() == Seq::<u8>::empty(),
            c.limit() == cap,
            !c.dropped(),
    {
        Capture { kept: Vec::new(), cap, cut: false }
    }

    /// Takes the next bytes of the stream: as many as there is room for.
    pub fn take(&mut self, chunk: &[u8])
        requires
            old(self).wf(),
        ensures
            final(self).wf(),
            final(self).limit() == old(self).limit(),
            ({
                let room = old(self).limit() - old(self).bytes().len();
                let n = chunk@.len() as int;
                &&& final(self).bytes() == old(self).bytes() + (if n > room {
                    chunk@.subrange(0, room)
                } else {
                    chunk@
                })
                &&& final(self).dropped() == (old(self).dropped() || n > room)
            }),
    {
        let room: usize = self.cap - self.kept.len();
        let n: usize = if chunk.len() > room {
            room
        } else {
            chunk.len()
        };
        let mut i: usize = 0;
        while i < n
            invariant
                i <= n <= chunk.len(),
                self.cap == old(self).cap,
                self.cut == old(self).cut,
                self.kept@ == old(self).kept@ + chunk@.subrange(0, i as int),
            decreases n - i,
        {
            self.kept.push(chunk[i]);
            assert(self.kept@ =~= old(self).kept@ + chunk@.subrange(0, i + 1));
            i += 1;
        }
        if chunk.len() > room {
            self.cut = true;
        } else {
            assert(chunk@.subrange(0, n as int) =~= chunk@);
        }
    }

    /// Whether anything was dropped.
    pub fn truncated(&self) -> (r: bool)
        ensures
            r == self.dropped(),
    {
        self.cut
    }

    /// What is kept.
    pub fn into_bytes(self) -> (v: Vec<u8>)
        ensures
            v@ == self.bytes(),
    {
        self.kept
    }
}

/// **Law.** What a capture keeps is a beginning of the stream, however the
/// stream was cut into chunks: all of it while it fits, and from then on the
/// first bytes up to the limit; and something was dropped exactly when the
/// stream is longer than the limit.
pub proof fn law_a_capture_keeps_the_beginning(
    stream: Seq<u8>,
    before: Capture,
    chunk: Seq<u8>,
    after: Capture,
)
    requires
        before.wf(),
        before.bytes() == stream.subrange(
            0,
            if stream.len() <= before.limit() {
                stream.len() as int
            } else {
                before.limit() as int
            },
        ),
        before.dropped() == (stream.len() > before.limit()),
        after.limit() == before.limit(),
        ({
            let room = before.limit() - before.bytes().len();
            let n = chunk.len() as int;
            &&& after.bytes() == before.bytes() + (if n > room {
                chunk.subrange(0, room)
            } else {
                chunk
            })
            &&& after.dropped() == (before.dropped() || n > room)
        }),
    ensures
        ({
            let longer = stream + chunk;
            &&& after.dropped() == (longer.len() > after.limit())
            &&& after.bytes() == longer.subrange(
                0,
                if longer.len() <= after.limit() {
                    longer.len() as int
                } else {
                    after.limit() as int
                },
            )
        }),
{
    let longer = stream + chunk;
    assert(after.bytes() =~= longer.subrange(
        0,
        if longer.len() <= after.limit() {
            longer.len() as int
        } else {
            after.limit() as int
        },
    ));
}

/// What was asked for, or else a default.
pub open spec fn asked_or(o: Option<u64>, default: u64) -> u64 {
    match o {
        Some(n) => n,
        None => default,
    }
}

/// **Law.** What is asked for is what is done, and only what is not asked for has
/// a default.
pub proof fn law_what_is_asked_for_is_done(o: Option<u64>, default: u64)
    ensures
        o matches Some(n) ==> asked_or(o, default) == n,
        o is None ==> asked_or(o, default) == default,
{
}

/// The wall-clock limit of a run, in milliseconds.
pub fn exec_timeout(req: &ExecRequest) -> (ms: u64)
    ensures
        ms == asked_or(req.timeout_ms, DEFAULT_EXEC_TIMEOUT_MS),
{
    req.timeout_ms.unwrap_or(DEFAULT_EXEC_TIMEOUT_MS)
}

/// How much of each stream is kept.
pub fn exec_cap(req: &ExecRequest) -> (n: u64)
    ensures
        n == asked_or(req.max_output_bytes, DEFAULT_MAX_OUTPUT),
{
    req.max_output_bytes.unwrap_or(DEFAULT_MAX_OUTPUT)
}

/// How a run ended.
#[derive(Clone, Copy, Debug, PartialEq, Eq, Structural)]
pub enum RunEnd {
    /// The program exited, with a code or by a signal, and its streams ended.
    Exited { code: Option<i32>, signal: Option<i32> },
    /// The time was up and its process group was killed.
    TimedOut,
}

/// SIGKILL's number.
pub const SIGKILL: i32 = 9;

/// Whether `r` reports a run that ended so, with what was captured as text.
pub open spec fn reported(
    end: RunEnd,
    out: Seq<char>,
    err: Seq<char>,
    cut: bool,
    duration_ms: u64,
    r: ExecResult,
) -> bool {
    &&& r.stdout@ == out
    &&& r.stderr@ == err
    &&& r.duration_ms == duration_ms
    &&& r.truncated == cut
    &&& match end {
        RunEnd::Exited { code, signal } => {
            &&& r.exit_code == code
            &&& r.signal == signal
            &&& !r.timed_out
        },
        RunEnd::TimedOut => {
            &&& r.exit_code is None
            &&& r.signal == Some(SIGKILL)
            &&& r.timed_out
        },
    }
}

/// Reports a run, given its output as text, and whether any of it was dropped.
pub fn report(end: RunEnd, out: String, err: String, cut: bool, duration_ms: u64) -> (r: ExecResult)
    ensures
        reported(end, out@, err@, cut, duration_ms, r),
{
    let (exit_code, signal, timed_out) = match end {
        RunEnd::Exited { code, signal } => (code, signal, false),
        RunEnd::TimedOut => (None, Some(SIGKILL), true),
    };
    ExecResult {
        exit_code,
        signal,
        stdout: out,
        stderr: err,
        timed_out,
        truncated: cut,
        duration_ms,
    }
}

/// Reports a run with what was captured of its two streams.
pub fn exec_result(end: RunEnd, out: Capture, err: Capture, duration_ms: u64) -> (r: ExecResult)
    ensures
        reported(
            end,
            lossy_text(out.bytes()),
            lossy_text(err.bytes()),
            out.dropped() || err.dropped(),
            duration_ms,
            r,
        ),
{
    let cut = out.truncated() || err.truncated();
    let o = out.into_bytes();
    let e = err.into_bytes();
    report(
        end,
        from_utf8_lossy(o.as_slice()),
        from_utf8_lossy(e.as_slice()),
        cut,
        duration_ms,
    )
}

// ---- files ----

/// How many bytes of a file to read at most.
pub fn read_cap(max_bytes: Option<u64>) -> (n: u64)
    ensures
        n == asked_or(max_bytes, DEFAULT_MAX_READ),
{
    max_bytes.unwrap_or(DEFAULT_MAX_READ)
}

/// Whether `f` is the content of a file of `size` bytes, of which `buf` was read
/// under `cap`.
pub open spec fn holds_file(
    f: FileContent,
    path: Seq<char>,
    size: u64,
    cap: u64,
    buf: Seq<u8>,
) -> bool {
    &&& f.path@ == path
    &&& f.size == size
    &&& f.truncated == (size > cap)
    &&& f.content_b64@ == base64_text(buf)
}

/// The content of a file of `size` bytes, of which `buf` was read under `cap`.
pub fn file_content(path: &str, size: u64, cap: u64, buf: &[u8]) -> (f: FileContent)
    ensures
        holds_file(f, path@, size, cap, buf@),
{
    FileContent {
        path: path.to_string(),
        size,
        truncated: size > cap,
        content_b64: b64_encode(buf),
    }
}

/// What is said of a path that is no regular file.
pub fn not_a_file(path: &str) -> (s: String)
    ensures
        s@ == "read "@ + path@ + ": not a regular file"@,
{
    concat3("read ", path, ": not a regular file")
}

/// The bytes to write to a file.
pub fn write_content(path: &str, content_b64: &str) -> (r: Result<Vec<u8>, String>)
    ensures
        match r {
            Ok(v) => content_b64@ == base64_text(v@),
            Err(m) => !is_base64(content_b64@) && m@ == "write "@ + path@
                + ": content is not base64: "@ + b64_refusal(content_b64@),
        },
{
    match b64_decode(content_b64) {
        Ok(v) => Ok(v),
        Err(e) => {
            let mut m = concat3("write ", path, ": content is not base64: ");
            m.append(e.as_str());
            Err(m)
        },
    }
}

/// **Law.** Writing what was read of a whole file writes that file again: its
/// content is base64, and of no other bytes.
pub proof fn law_a_read_file_writes_back(f: FileContent, buf: Seq<u8>, written: Seq<u8>)
    requires
        f.content_b64@ == base64_text(buf),
    ensures
        is_base64(f.content_b64@),
        f.content_b64@ == base64_text(written) ==> written == buf,
{
    if f.content_b64@ == base64_text(written) {
        crate::codec::law_base64_is_unambiguous(written, buf);
    }
}

/// What a path is, never following a symbolic link.
pub open spec fn is_kind(is_symlink: bool, is_dir: bool, is_file: bool) -> FileKind {
    if is_symlink {
        FileKind::Symlink
    } else if is_dir {
        FileKind::Dir
    } else if is_file {
        FileKind::File
    } else {
        FileKind::Other
    }
}

/// What a path is.
pub fn kind_of(is_symlink: bool, is_dir: bool, is_file: bool) -> (k: FileKind)
    ensures
        k == is_kind(is_symlink, is_dir, is_file),
{
    if is_symlink {
        FileKind::Symlink
    } else if is_dir {
        FileKind::Dir
    } else if is_file {
        FileKind::File
    } else {
        FileKind::Other
    }
}

/// The permission bits of a mode: its low 12 bits.
pub open spec fn permission_bits(mode: u32) -> u32 {
    (mode % 4096) as u32
}

/// **Law.** What a path is does not show in its permissions, and nothing of them
/// is lost: the same permissions of another kind of path are the same bits.
pub proof fn law_permissions_say_nothing_of_the_kind(kind: u32, bits: u32)
    requires
        bits < 4096,
        kind <= 0xfffff,
    ensures
        permission_bits((kind * 4096 + bits) as u32) == bits,
{
    assert((kind * 4096 + bits) % 4096 == bits) by (nonlinear_arith)
        requires
            0 <= bits < 4096,
            kind >= 0,
    ;
}

/// The permission bits of a mode: its low 12 bits.
pub fn permissions(mode: u32) -> (r: u32)
    ensures
        r == permission_bits(mode),
{
    assert(mode & 0xfff == mode % 4096) by (bit_vector);
    mode & 0xfff
}

/// How to remove a path.
#[derive(Clone, Copy, Debug, PartialEq, Eq, Structural)]
pub enum RemoveHow {
    Tree,
    EmptyDir,
    File,
}

/// How to remove a path: a directory with all it holds only when asked to.
pub open spec fn removed_by(is_dir: bool, recursive: bool) -> RemoveHow {
    if !is_dir {
        RemoveHow::File
    } else if recursive {
        RemoveHow::Tree
    } else {
        RemoveHow::EmptyDir
    }
}

/// How to remove a path.
pub fn remove_how(is_dir: bool, recursive: bool) -> (r: RemoveHow)
    ensures
        r == removed_by(is_dir, recursive),
{
    if is_dir {
        if recursive {
            RemoveHow::Tree
        } else {
            RemoveHow::EmptyDir
        }
    } else {
        RemoveHow::File
    }
}

// ---- listing ----

/// How many of the first `n` entries come no later than `name`: where an entry
/// of that name goes behind them.
pub open spec fn rank(v: Seq<DirEntry>, name: Seq<char>) -> int
    decreases v.len(),
{
    if v.len() == 0 {
        0
    } else if no_later(v.last().name@, name) {
        v.len() as int
    } else {
        rank(v.drop_last(), name)
    }
}

/// Entries by name; entries of one name stay in the order they came in.
pub open spec fn by_name(v: Seq<DirEntry>) -> Seq<DirEntry>
    decreases v.len(),
{
    if v.len() == 0 {
        v
    } else {
        let rest = by_name(v.drop_last());
        rest.insert(rank(rest, v.last().name@), v.last())
    }
}

/// Whether names come in order.
pub open spec fn in_order(v: Seq<DirEntry>) -> bool {
    forall|i: int, j: int|
        0 <= i <= j < v.len() ==> no_later((#[trigger] v[i]).name@, (#[trigger] v[j]).name@)
}

proof fn lemma_rank(v: Seq<DirEntry>, name: Seq<char>)
    requires
        in_order(v),
    ensures
        0 <= rank(v, name) <= v.len(),
        forall|i: int| 0 <= i < rank(v, name) ==> no_later((#[trigger] v[i]).name@, name),
        forall|i: int| rank(v, name) <= i < v.len() ==> no_later(name, (#[trigger] v[i]).name@),
    decreases v.len(),
{
    if v.len() > 0 {
        if no_later(v.last().name@, name) {
            assert forall|i: int| 0 <= i < v.len() implies no_later(
                (#[trigger] v[i]).name@,
                name,
            ) by {
                lemma_order(v[i].name@, v.last().name@, name);
            }
        } else {
            let w = v.drop_last();
            assert(in_order(w)) by {
                assert forall|i: int, j: int| 0 <= i <= j < w.len() implies no_later(
                    (#[trigger] w[i]).name@,
                    (#[trigger] w[j]).name@,
                ) by {
                    assert(w[i] == v[i] && w[j] == v[j]);
                }
            }
            lemma_rank(w, name);
            assert forall|i: int| rank(v, name) <= i < v.len() implies no_later(
                name,
                (#[trigger] v[i]).name@,
            ) by {
                if i == v.len() - 1 {
                    lemma_order(name, v.last().name@, name);
                } else {
                    assert(w[i] == v[i]);
                }
            }
            assert forall|i: int| 0 <= i < rank(v, name) implies no_later(
                (#[trigger] v[i]).name@,
                name,
            ) by {
                assert(w[i] == v[i]);
            }
        }
    }
}

proof fn lemma_insert_keeps_order(v: Seq<DirEntry>, e: DirEntry)
    requires
        in_order(v),
    ensures
        in_order(v.insert(rank(v, e.name@), e)),
{
    lemma_rank(v, e.name@);
    let r = rank(v, e.name@);
    let w = v.insert(r, e);
    assert forall|i: int, j: int| 0 <= i <= j < w.len() implies no_later(
        (#[trigger] w[i]).name@,
        (#[trigger] w[j]).name@,
    ) by {
        let a = if i < r {
            v[i]
        } else {
            v[i - 1]
        };
        let b = if j < r {
            v[j]
        } else {
            v[j - 1]
        };
        if i == r && j == r {
            lemma_order(e.name@, e.name@, e.name@);
        } else if i == r {
            assert(w[j] == v[j - 1]);
        } else if j == r {
            assert(w[i] == v[i]);
        } else {
            assert(w[i] == a && w[j] == b);
        }
    }
}

/// **Law.** A listing holds exactly the entries that were found, in the order of
/// their names.
pub proof fn law_a_listing_is_ordered(v: Seq<DirEntry>)
    ensures
        in_order(by_name(v)),
        by_name(v).to_multiset() == v.to_multiset(),
        by_name(v).len() == v.len(),
    decreases v.len(),
{
    if v.len() > 0 {
        let rest = by_name(v.drop_last());
        law_a_listing_is_ordered(v.drop_last());
        lemma_rank(rest, v.last().name@);
        lemma_insert_keeps_order(rest, v.last());
        let r = rank(rest, v.last().name@);
        vstd::seq_lib::to_multiset_insert(rest, r, v.last());
        assert(v =~= v.drop_last().push(v.last()));
        v.drop_last().to_multiset_ensures();
    }
}

/// Sorts entries by name.
pub fn sort_entries(v: Vec<DirEntry>) -> (r: Vec<DirEntry>)
    ensures
        r@ == by_name(v@),
{
    let mut rest = v;
    let mut out: Vec<DirEntry> = Vec::new();
    let ghost all = v@;
    let mut n: usize = 0;
    let total: usize = rest.len();
    assert(all.subrange(0, 0) =~= Seq::<DirEntry>::empty());
    assert(all.subrange(0, all.len() as int) =~= all);
    while n < total
        invariant
            n <= total,
            total == all.len(),
            rest@ == all.subrange(n as int, all.len() as int),
            out@ == by_name(all.subrange(0, n as int)),
            out.len() == n,
        decreases total - n,
    {
        let e = rest.remove(0);
        proof {
            assert(e == all[n as int]);
            assert(rest@ =~= all.subrange(n + 1, all.len() as int));
        }
        let ghost had = out@;
        let mut at: usize = out.len();
        assert(had.subrange(0, had.len() as int) =~= had);
        while at > 0 && !text_le(out[at - 1].name.as_str(), e.name.as_str())
            invariant
                at <= out.len(),
                out@ == had,
                rank(had, e.name@) == rank(had.subrange(0, at as int), e.name@),
            decreases at,
        {
            proof {
                let here = had.subrange(0, at as int);
                assert(here.last() == had[at - 1]);
                assert(here.drop_last() =~= had.subrange(0, at - 1));
            }
            at -= 1;
        }
        proof {
            let here = had.subrange(0, at as int);
            if at > 0 {
                assert(here.last() == had[at - 1]);
            }
            let next = all.subrange(0, n + 1);
            assert(next.drop_last() =~= all.subrange(0, n as int));
            assert(next.last() == e);
        }
        out.insert(at, e);
        n += 1;
    }
    out
}

// ---- the clock ----

/// By how many milliseconds a clock at `here` has to be stepped to read `told`,
/// both in nanoseconds; what is less than one does not count.
pub open spec fn offset(told: int, here: int) -> int {
    if told >= here {
        (told - here) / 1_000_000
    } else {
        -((here - told) / 1_000_000)
    }
}

/// Whether `r` is what is answered to a host that tells the time.
pub open spec fn steps_clock(told: int, here: int, r: ClockResult) -> bool {
    r.offset_ms == offset(told, here) && r.stepped == (r.offset_ms != 0)
}

/// What is answered to a host that tells the time: by how much the clock is off,
/// and whether it is to be stepped.
pub fn clock_step(told: u64, here: u64) -> (r: ClockResult)
    ensures
        steps_clock(told as int, here as int, r),
{
    let offset_ms: i64 = if told >= here {
        ((told - here) / 1_000_000) as i64
    } else {
        -(((here - told) / 1_000_000) as i64)
    };
    ClockResult { offset_ms, stepped: offset_ms != 0 }
}

// ---- laws ----

/// **Law.** The caller gets what the agent came to: a result is carried to it as
/// it is, and an error is never taken for one.
pub proof fn law_a_response_carries_what_came_of_it(
    r: Result<ResponseBody, String>,
    resp: Response,
)
    requires
        responds(r, resp),
    ensures
        resp.ok <==> r is Ok,
        r matches Ok(body) ==> carried(Some(resp)) == Some(body),
        r matches Err(m) ==> carried(Some(resp)) is None && resp.error is Some && resp.error->0@
            == m@,
{
}

/// **Law.** Only a whole request is served, as it came; after anything else the
/// connection is closed, and the peer that is still there is told why.
pub proof fn law_only_requests_are_served<T>(r: Received<T>, t: Turn<T>)
    requires
        turns(r, t),
    ensures
        t is Serve <==> r is Request,
        t matches Turn::Serve(x) ==> r == Received::Request(x),
        t is Close <==> r is End,
        t matches Turn::ReplyAndClose(resp) ==> r is Bad && !resp.ok && resp.result is None,
{
}

/// **Law.** A run that was ended by the clock says so: it has no exit code and the
/// signal that killed it. Any other run has what it exited with, and each stream
/// under its own name.
pub proof fn law_a_run_is_reported_as_it_ended(
    end: RunEnd,
    out: Seq<char>,
    err: Seq<char>,
    cut: bool,
    ms: u64,
    r: ExecResult,
)
    requires
        reported(end, out, err, cut, ms, r),
    ensures
        r.timed_out <==> end is TimedOut,
        end is TimedOut ==> r.exit_code is None && r.signal == Some(9i32),
        end matches RunEnd::Exited { code, signal } ==> r.exit_code == code && r.signal == signal,
        r.stdout@ == out,
        r.stderr@ == err,
        r.truncated == cut,
        r.duration_ms == ms,
{
}

/// **Law.** A file that was read whole says so, and one that is longer than what
/// was asked for says that it was cut; its own size is told either way.
pub proof fn law_a_cut_file_says_so(
    f: FileContent,
    path: Seq<char>,
    size: u64,
    cap: u64,
    buf: Seq<u8>,
)
    requires
        holds_file(f, path, size, cap, buf),
        buf.len() == (if size <= cap {
            size
        } else {
            cap
        }),
    ensures
        f.truncated <==> buf.len() < f.size,
        f.size == size,
        f.path@ == path,
        f.content_b64@ == base64_text(buf),
{
}

/// **Law.** A symbolic link is a symbolic link, whatever it leads to; everything
/// else is what it is.
pub proof fn law_a_link_is_not_what_it_leads_to(is_symlink: bool, is_dir: bool, is_file: bool)
    ensures
        is_kind(is_symlink, is_dir, is_file) is Symlink <==> is_symlink,
        is_kind(is_symlink, is_dir, is_file) is Dir <==> !is_symlink && is_dir,
        is_kind(is_symlink, is_dir, is_file) is File <==> !is_symlink && !is_dir && is_file,
        is_kind(is_symlink, is_dir, is_file) is Other <==> !is_symlink && !is_dir && !is_file,
{
}

/// **Law.** A directory goes with all it holds only where that is asked for; what
/// is no directory goes as a file, however it is asked for.
pub proof fn law_a_tree_goes_only_when_asked_for(is_dir: bool, recursive: bool)
    ensures
        removed_by(is_dir, recursive) is Tree <==> is_dir && recursive,
        removed_by(is_dir, recursive) is EmptyDir <==> is_dir && !recursive,
        removed_by(is_dir, recursive) is File <==> !is_dir,
{
}

/// **Law.** A clock that is stepped by what is answered reads the time that was
/// told, to less than a millisecond; it is stepped exactly where it is off by
/// one or more, forwards where it is behind and backwards where it is ahead.
pub proof fn law_a_stepped_clock_reads_the_time(told: int, here: int, r: ClockResult)
    requires
        0 <= told,
        0 <= here,
        steps_clock(told, here, r),
    ensures
        -1_000_000 < told - (here + r.offset_ms * 1_000_000) < 1_000_000,
        r.stepped <==> told - here >= 1_000_000 || here - told >= 1_000_000,
        told >= here ==> r.offset_ms >= 0,
        told <= here ==> r.offset_ms <= 0,
{
}

/// **Law.** What is read or printed by default is kept small enough to be sent: a
/// run lasts two minutes, a mebibyte of each of its streams is kept, and the
/// sixteen of a file fit one frame when they are encoded.
pub proof fn law_defaults_fit_a_frame(buf: Seq<u8>)
    requires
        buf.len() <= DEFAULT_MAX_READ,
    ensures
        DEFAULT_EXEC_TIMEOUT_MS == 2 * 60 * 1000,
        DEFAULT_MAX_OUTPUT == 1024 * 1024,
        DEFAULT_MAX_READ == 16 * 1024 * 1024,
        MAX_FRAME == 64 * 1024 * 1024,
        base64_text(buf).len() + 4096 <= MAX_FRAME,
{
    lemma_encoded_len(buf);
}

proof fn lemma_encoded_len(b: Seq<u8>)
    ensures
        3 * base64_text(b).len() <= 4 * b.len() + 8,
    decreases b.len(),
{
    if b.len() > 3 {
        lemma_encoded_len(b.subrange(3, b.len() as int));
    }
}

} // verus!
