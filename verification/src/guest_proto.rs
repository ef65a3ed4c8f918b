//! The host to guest-agent protocol.
//!
//! **Length-prefixed frames**, one [`Request`] per frame, answered by exactly one
//! [`Response`] frame. A connection may carry any number of requests in
//! sequence. Framing is a `u32` big-endian byte length followed by the body.

use crate::text::{concat2, decimal, push_decimal};
use std::collections::BTreeMap;
use vstd::prelude::*;
use vstd::string::*;

verus! {

/// The vsock port the guest agent listens on by default.
pub const DEFAULT_PORT: u32 = 5000;

/// Largest frame either side will accept. Bounds a `write_file` body and an
/// `exec` capture; anything larger must be chunked by the caller.
pub const MAX_FRAME: usize = 67108864;

/// Default cap on captured `exec` output (stdout and stderr each).
pub const DEFAULT_MAX_OUTPUT: u64 = 1048576;

/// Default cap on a `read_file` body.
pub const DEFAULT_MAX_READ: u64 = 16777216;

/// Default `exec` timeout.
pub const DEFAULT_EXEC_TIMEOUT_MS: u64 = 120000;

/// A request to the guest agent.
#[derive(Clone, Debug, PartialEq)]
pub enum Request {
    /// Liveness and identity of the agent.
    Ping,
    /// Run a program and capture its output.
    Exec(ExecRequest),
    /// Read a file, base64 in the response.
    ReadFile {
        path: String,
        /// Bytes to return at most (default [`DEFAULT_MAX_READ`]); the response
        /// says whether it was cut.
        max_bytes: Option<u64>,
    },
    /// Write (create or replace) a file from base64 content.
    WriteFile {
        path: String,
        content_b64: String,
        /// Unix permission bits. Default: leave as created.
        mode: Option<u32>,
        /// Create missing parent directories.
        mkdir: bool,
    },
    /// List a directory (not recursive).
    ListDir { path: String },
    /// Metadata for one path.
    Stat { path: String },
    /// Remove a file or directory.
    Remove { path: String, recursive: bool },
    /// Create a directory.
    Mkdir { path: String, parents: bool },
    /// Step the guest's wall clock to the host's.
    SetClock { unix_nanos: u64 },
}

/// `exec` parameters.
#[derive(Clone, Debug, PartialEq)]
pub struct ExecRequest {
    /// Program to run, resolved on the guest's `PATH`.
    pub cmd: String,
    pub args: Vec<String>,
    /// Working directory; default is the agent's.
    pub cwd: Option<String>,
    /// Extra environment, layered over the agent's.
    pub env: BTreeMap<String, String>,
    /// Bytes written to the program's stdin before it is closed.
    pub stdin: Option<String>,
    /// Wall-clock limit; the process group is killed when it elapses.
    pub timeout_ms: Option<u64>,
    /// Cap on captured bytes per stream (default [`DEFAULT_MAX_OUTPUT`]).
    pub max_output_bytes: Option<u64>,
}

impl Default for ExecRequest {
    fn default() -> (r: Self)
        ensures
            r.cmd@ == Seq::<char>::empty(),
            r.args@ == Seq::<String>::empty(),
            r.cwd is None,
            r.env@ == Map::<String, String>::empty(),
            r.stdin is None,
            r.timeout_ms is None,
            r.max_output_bytes is None,
    {
        ExecRequest {
            cmd: String::new(),
            args: Vec::new(),
            cwd: None,
            env: BTreeMap::new(),
            stdin: None,
            timeout_ms: None,
            max_output_bytes: None,
        }
    }
}

/// The agent's answer. `ok` is the discriminator: on success `result` is set,
/// on failure `error` carries a message.
#[derive(Clone, Debug, PartialEq)]
pub struct Response {
    pub ok: bool,
    pub result: Option<ResponseBody>,
    pub error: Option<String>,
}

impl Response {
    pub fn ok(body: ResponseBody) -> (r: Self)
        ensures
            r == (Response { ok: true, result: Some(body), error: None }),
    {
        Response { ok: true, result: Some(body), error: None }
    }

    pub fn err(msg: &str) -> (r: Self)
        ensures
            !r.ok,
            r.result is None,
            r.error matches Some(m) && m@ == msg@,
    {
        Response { ok: false, result: None, error: Some(msg.to_string()) }
    }

    /// Turn the response into a `Result`.
    pub fn into_result(self) -> (r: Result<ResponseBody, String>)
        ensures
            match r {
                Ok(body) => self.ok && self.result == Some(body),
                Err(m) => if self.ok {
                    self.result is None && m@ == "agent returned ok without a result"@
                } else {
                    match self.error {
                        Some(e) => m == e,
                        None => m@ == "agent returned an error without a message"@,
                    }
                },
            },
    {
        if self.ok {
            match self.result {
                Some(body) => Ok(body),
                None => Err("agent returned ok without a result".to_string()),
            }
        } else {
            match self.error {
                Some(e) => Err(e),
                None => Err("agent returned an error without a message".to_string()),
            }
        }
    }
}

/// Successful result payloads.
#[derive(Clone, Debug, PartialEq)]
pub enum ResponseBody {
    Pong(AgentInfo),
    Exec(ExecResult),
    File(FileContent),
    Written { bytes: u64 },
    Dir { entries: Vec<DirEntry> },
    Stat(FileStat),
    Clock(ClockResult),
    Done,
}

#[derive(Clone, Debug, PartialEq)]
pub struct AgentInfo {
    pub agent: String,
    pub version: String,
    pub hostname: String,
    pub uid: u32,
    pub cwd: String,
}

#[derive(Clone, Debug, PartialEq)]
pub struct ExecResult {
    /// The process exit code, or `None` if it was killed by a signal.
    pub exit_code: Option<i32>,
    /// Signal number that terminated the process, when there was one.
    pub signal: Option<i32>,
    /// Captured stdout, lossily decoded as UTF-8.
    pub stdout: String,
    /// Captured stderr, lossily decoded as UTF-8.
    pub stderr: String,
    /// The timeout elapsed and the process group was killed.
    pub timed_out: bool,
    /// One of the captures hit `max_output_bytes`.
    pub truncated: bool,
    pub duration_ms: u64,
}

#[derive(Clone, Debug, PartialEq)]
pub struct FileContent {
    pub path: String,
    /// Total size of the file on disk.
    pub size: u64,
    pub content_b64: String,
    pub truncated: bool,
}

#[derive(Clone, Debug, PartialEq)]
pub struct DirEntry {
    pub name: String,
    pub kind: FileKind,
    pub size: u64,
    /// Permission bits (the low 12 bits of `st_mode`).
    pub mode: u32,
}

#[derive(Clone, Debug, PartialEq)]
pub struct FileStat {
    pub path: String,
    pub kind: FileKind,
    pub size: u64,
    pub mode: u32,
    pub uid: u32,
    pub gid: u32,
    /// Seconds since the Unix epoch.
    pub modified: Option<u64>,
}

#[derive(Clone, Copy, Debug, PartialEq, Eq, Structural)]
pub enum FileKind {
    File,
    Dir,
    Symlink,
    Other,
}

/// What came of setting the guest's clock.
#[derive(Clone, Copy, Debug, PartialEq, Eq, Structural)]
pub struct ClockResult {
    pub offset_ms: i64,
    pub stepped: bool,
}

// ---- framing ----

/// A length as four big-endian bytes.
pub open spec fn header(n: int) -> Seq<u8> {
    seq![
        ((n / 0x100_0000) % 256) as u8,
        ((n / 0x1_0000) % 256) as u8,
        ((n / 0x100) % 256) as u8,
        (n % 256) as u8,
    ]
}

/// The length that four big-endian bytes hold.
pub open spec fn header_value(b: Seq<u8>) -> int {
    b[0] as int * 0x100_0000 + b[1] as int * 0x1_0000 + b[2] as int * 0x100 + b[3] as int
}

/// What is said of a frame that is too large.
pub open spec fn too_large(n: int) -> Seq<char> {
    "frame of "@ + decimal(n as nat) + " bytes exceeds the "@ + decimal(MAX_FRAME as nat)
        + "-byte limit"@
}

fn say_too_large(n: usize) -> (s: String)
    ensures
        s@ == too_large(n as int),
{
    let mut s = "frame of ".to_string();
    push_decimal(&mut s, n as u64);
    s.append(" bytes exceeds the ");
    push_decimal(&mut s, MAX_FRAME as u64);
    s.append("-byte limit");
    s
}

/// Whether `r` is the frame that carries `body`.
pub open spec fn framed(body: Seq<u8>, r: Result<Vec<u8>, String>) -> bool {
    match r {
        Ok(v) => body.len() <= MAX_FRAME && v@ == header(body.len() as int) + body,
        Err(m) => body.len() > MAX_FRAME && m@ == too_large(body.len() as int),
    }
}

/// The frame that carries `body`: its length, then the bytes.
pub fn write_frame(body: &[u8]) -> (r: Result<Vec<u8>, String>)
    ensures
        framed(body@, r),
{
    let n: usize = body.len();
    if n > MAX_FRAME {
        return Err(say_too_large(n));
    }
    let mut v: Vec<u8> = Vec::new();
    v.push(((n / 0x100_0000) % 256) as u8);
    v.push(((n / 0x1_0000) % 256) as u8);
    v.push(((n / 0x100) % 256) as u8);
    v.push((n % 256) as u8);
    assert(v@ =~= header(n as int));
    let mut i: usize = 0;
    while i < n
        invariant
            i <= n,
            n == body.len(),
            v@ == header(n as int) + body@.subrange(0, i as int),
        decreases n - i,
    {
        v.push(body[i]);
        assert(v@ =~= header(n as int) + body@.subrange(0, i + 1));
        i += 1;
    }
    assert(body@.subrange(0, n as int) =~= body@);
    Ok(v)
}

/// The length of the body that follows a header, if either side accepts it.
pub fn frame_len(b: &[u8; 4]) -> (r: Result<usize, String>)
    ensures
        match r {
            Ok(n) => n == header_value(b@) && n <= MAX_FRAME,
            Err(m) => header_value(b@) > MAX_FRAME && m@ == too_large(header_value(b@)),
        },
{
    let n: u32 = (b[0] as u32) * 0x100_0000 + (b[1] as u32) * 0x1_0000 + (b[2] as u32) * 0x100 + (
    b[3] as u32);
    if n as usize > MAX_FRAME {
        return Err(say_too_large(n as usize));
    }
    Ok(n as usize)
}

/// What stands at the front of a stream.
#[derive(Debug, PartialEq)]
pub enum Frame {
    /// The stream ended before any byte of a header: a clean end.
    End,
    /// A body, and how many bytes of the stream it and its header take.
    Body { body: Vec<u8>, taken: usize },
    /// The header announces more than either side accepts.
    TooLarge(String),
    /// The stream ended inside the header or the body.
    Cut,
}

/// Whether `r` is the frame at the front of a stream.
pub open spec fn unframed(input: Seq<u8>, r: Frame) -> bool {
    match r {
        Frame::End => input.len() == 0,
        Frame::Body { body, taken } => {
            let n = header_value(input);
            &&& input.len() >= 4
            &&& input.len() >= 4 + n
            &&& n <= MAX_FRAME
            &&& taken == 4 + n
            &&& body@ == input.subrange(4, 4 + n)
        },
        Frame::TooLarge(m) => {
            &&& input.len() >= 4
            &&& header_value(input) > MAX_FRAME
            &&& m@ == too_large(header_value(input))
        },
        Frame::Cut => {
            &&& input.len() > 0
            &&& input.len() >= 4 ==> header_value(input) <= MAX_FRAME && input.len() < 4
                + header_value(input)
        },
    }
}

/// Reads the frame at the front of a stream.
pub fn read_frame(input: &[u8]) -> (r: Frame)
    ensures
        unframed(input@, r),
{
    if input.len() == 0 {
        return Frame::End;
    }
    if input.len() < 4 {
        return Frame::Cut;
    }
    let head: [u8; 4] = [input[0], input[1], input[2], input[3]];
    assert(header_value(head@) == header_value(input@));
    match frame_len(&head) {
        Err(m) => Frame::TooLarge(m),
        Ok(n) => {
            if input.len() - 4 < n {
                return Frame::Cut;
            }
            let mut body: Vec<u8> = Vec::new();
            let mut i: usize = 0;
            while i < n
                invariant
                    i <= n,
                    n <= input.len() - 4,
                    body@ == input@.subrange(4, 4 + i),
                decreases n - i,
            {
                body.push(input[4 + i]);
                assert(body@ =~= input@.subrange(4, 4 + i + 1));
                i += 1;
            }
            Frame::Body { body, taken: 4 + n }
        },
    }
}

/// **Law.** Reading a stream that begins with a frame gives back the body that
/// was written, and leaves what comes after it.
pub proof fn law_frames_round_trip(body: Seq<u8>, rest: Seq<u8>)
    requires
        body.len() <= MAX_FRAME,
    ensures
        ({
            let stream = header(body.len() as int) + body + rest;
            &&& header_value(stream) == body.len()
            &&& stream.len() >= 4 + header_value(stream)
            &&& stream.subrange(4, 4 + header_value(stream)) == body
            &&& stream.subrange(4 + header_value(stream), stream.len() as int) == rest
        }),
{
    let n = body.len() as int;
    let stream = header(n) + body + rest;
    lemma_header(n);
    assert(header_value(stream) == header_value(header(n)));
    assert(stream.subrange(4, 4 + n) =~= body);
    assert(stream.subrange(4 + n, stream.len() as int) =~= rest);
}

proof fn lemma_header(n: int)
    requires
        0 <= n <= MAX_FRAME,
    ensures
        header_value(header(n)) == n,
{
    let a = n / 0x100;
    let b = a / 0x100;
    let c = b / 0x100;
    vstd::arithmetic::div_mod::lemma_div_denominator(n, 0x100, 0x100);
    vstd::arithmetic::div_mod::lemma_div_denominator(n, 0x1_0000, 0x100);
    assert(n / 0x1_0000 == b);
    assert(n / 0x100_0000 == c);
    assert(c < 256);
    assert(n == a * 256 + n % 256);
    assert(a == b * 256 + a % 256);
    assert(b == c * 256 + b % 256);
    assert(c % 256 == c);
}

// ---- host-side client ----

/// Errors from a [`GuestClient`] call.
#[derive(Debug)]
pub enum ClientError {
    /// Transport failure or malformed frame.
    Io(String),
    /// The agent answered with `ok: false`.
    Agent(String),
    /// The agent answered a different kind of result than the call expects.
    UnexpectedResult(&'static str),
    /// The connection closed before a response arrived.
    Closed,
}

impl ClientError {
    /// The message of this error.
    pub open spec fn said(self) -> Seq<char> {
        match self {
            ClientError::Io(e) => "guest channel: "@ + e@,
            ClientError::Agent(m) => "guest agent: "@ + m@,
            ClientError::UnexpectedResult(k) => "guest agent returned an unexpected "@ + k@,
            ClientError::Closed => "guest agent closed the connection"@,
        }
    }

    /// Renders the message of this error.
    pub fn to_string(&self) -> (s: String)
        ensures
            s@ == self.said(),
    {
        match self {
            ClientError::Io(e) => concat2("guest channel: ", e.as_str()),
            ClientError::Agent(m) => concat2("guest agent: ", m.as_str()),
            ClientError::UnexpectedResult(k) => concat2("guest agent returned an unexpected ", k),
            ClientError::Closed => "guest agent closed the connection".to_string(),
        }
    }
}

/// Whether an answer failed before its kind of result mattered: the connection
/// closed, or the agent said no.
pub open spec fn no_result(resp: Option<Response>, e: ClientError) -> bool {
    match resp {
        None => e is Closed,
        Some(r) => if r.ok {
            r.result is None && (e matches ClientError::Agent(m) && m@
                == "agent returned ok without a result"@)
        } else {
            e matches ClientError::Agent(m) && match r.error {
                Some(said) => m == said,
                None => m@ == "agent returned an error without a message"@,
            }
        },
    }
}

/// The result that an answer carries, if it carries one.
pub open spec fn carried(resp: Option<Response>) -> Option<ResponseBody> {
    match resp {
        Some(r) => if r.ok {
            r.result
        } else {
            None
        },
        None => None,
    }
}

/// **Law.** The response that reports a success carries its result, and one that
/// reports a failure carries none, only the message.
pub proof fn law_responses_carry_their_result(body: ResponseBody, msg: String)
    ensures
        carried(Some(Response { ok: true, result: Some(body), error: None })) == Some(body),
        carried(Some(Response { ok: false, result: None, error: Some(msg) })) is None,
        no_result(
            Some(Response { ok: false, result: None, error: Some(msg) }),
            ClientError::Agent(msg),
        ),
{
}

/// Whether `r` is the result of one round trip.
pub open spec fn called(resp: Option<Response>, r: Result<ResponseBody, ClientError>) -> bool {
    match r {
        Ok(body) => carried(resp) == Some(body),
        Err(e) => carried(resp) is None && no_result(resp, e),
    }
}

/// Whether `e` says that an answer carries another kind of result.
pub open spec fn unexpected(e: ClientError, what: Seq<char>) -> bool {
    e matches ClientError::UnexpectedResult(k) && k@ == what
}

/// Whether `r` is what a `ping` call comes to.
pub open spec fn pinged(resp: Option<Response>, r: Result<AgentInfo, ClientError>) -> bool {
    match r {
        Ok(i) => carried(resp) == Some(ResponseBody::Pong(i)),
        Err(e) => match carried(resp) {
            Some(body) => !(body is Pong) && unexpected(e, "result kind for ping"@),
            None => no_result(resp, e),
        },
    }
}

/// Whether `r` is what a `exec` call comes to.
pub open spec fn ran(resp: Option<Response>, r: Result<ExecResult, ClientError>) -> bool {
    match r {
        Ok(x) => carried(resp) == Some(ResponseBody::Exec(x)),
        Err(e) => match carried(resp) {
            Some(body) => !(body is Exec) && unexpected(e, "result kind for exec"@),
            None => no_result(resp, e),
        },
    }
}

/// Whether `r` is what a `read_file` call comes to.
pub open spec fn was_read(resp: Option<Response>, r: Result<FileContent, ClientError>) -> bool {
    match r {
        Ok(f) => carried(resp) == Some(ResponseBody::File(f)),
        Err(e) => match carried(resp) {
            Some(body) => !(body is File) && unexpected(e, "result kind for read_file"@),
            None => no_result(resp, e),
        },
    }
}

/// Whether `r` is what a `write_file` call comes to.
pub open spec fn was_written(resp: Option<Response>, r: Result<u64, ClientError>) -> bool {
    match r {
        Ok(n) => carried(resp) == Some(ResponseBody::Written { bytes: n }),
        Err(e) => match carried(resp) {
            Some(body) => !(body is Written) && unexpected(
                e,
                "result kind for write_file"@,
            ),
            None => no_result(resp, e),
        },
    }
}

/// Whether `r` is what a `list_dir` call comes to.
pub open spec fn was_listed(resp: Option<Response>, r: Result<Vec<DirEntry>, ClientError>) -> bool {
    match r {
        Ok(v) => carried(resp) == Some(ResponseBody::Dir { entries: v }),
        Err(e) => match carried(resp) {
            Some(body) => !(body is Dir) && unexpected(e, "result kind for list_dir"@),
            None => no_result(resp, e),
        },
    }
}

/// Whether `r` is what a `stat` call comes to.
pub open spec fn was_looked_at(resp: Option<Response>, r: Result<FileStat, ClientError>) -> bool {
    match r {
        Ok(s) => carried(resp) == Some(ResponseBody::Stat(s)),
        Err(e) => match carried(resp) {
            Some(body) => !(body is Stat) && unexpected(e, "result kind for stat"@),
            None => no_result(resp, e),
        },
    }
}

/// Whether `r` is what a `remove` call comes to.
pub open spec fn was_removed(resp: Option<Response>, r: Result<(), ClientError>) -> bool {
    match r {
        Ok(_) => carried(resp) == Some(ResponseBody::Done),
        Err(e) => match carried(resp) {
            Some(body) => !(body is Done) && unexpected(e, "result kind for remove"@),
            None => no_result(resp, e),
        },
    }
}

/// Whether `r` is what a `mkdir` call comes to.
pub open spec fn was_made(resp: Option<Response>, r: Result<(), ClientError>) -> bool {
    match r {
        Ok(_) => carried(resp) == Some(ResponseBody::Done),
        Err(e) => match carried(resp) {
            Some(body) => !(body is Done) && unexpected(e, "result kind for mkdir"@),
            None => no_result(resp, e),
        },
    }
}

/// Whether `r` is what a `set_clock` call comes to.
pub open spec fn was_set(resp: Option<Response>, r: Result<ClockResult, ClientError>) -> bool {
    match r {
        Ok(c) => carried(resp) == Some(ResponseBody::Clock(c)),
        Err(e) => match carried(resp) {
            Some(body) => !(body is Clock) && unexpected(e, "result kind for set_clock"@),
            None => no_result(resp, e),
        },
    }
}

/// A typed client over a connected stream to the guest agent. Each call sends
/// one request and awaits one response; the functions here read that response.
pub struct GuestClient<S> {
    stream: S,
}

impl<S> GuestClient<S> {
    /// The stream it was made over.
    pub closed spec fn over(self) -> S {
        self.stream
    }

    pub fn new(stream: S) -> (r: Self)
        ensures
            r.over() == stream,
    {
        GuestClient { stream }
    }

    pub fn into_inner(self) -> (s: S)
        ensures
            s == self.over(),
    {
        self.stream
    }

    /// The result of one round trip; no response means that the connection
    /// closed first.
    pub fn call(resp: Option<Response>) -> (r: Result<ResponseBody, ClientError>)
        ensures
            called(resp, r),
    {
        match resp {
            None => Err(ClientError::Closed),
            Some(r) => match r.into_result() {
                Ok(body) => Ok(body),
                Err(m) => Err(ClientError::Agent(m)),
            },
        }
    }

    pub fn ping(resp: Option<Response>) -> (r: Result<AgentInfo, ClientError>)
        ensures
            pinged(resp, r),
    {
        match Self::call(resp) {
            Ok(ResponseBody::Pong(i)) => Ok(i),
            Ok(_) => Err(ClientError::UnexpectedResult("result kind for ping")),
            Err(e) => Err(e),
        }
    }

    pub fn exec(resp: Option<Response>) -> (r: Result<ExecResult, ClientError>)
        ensures
            ran(resp, r),
    {
        match Self::call(resp) {
            Ok(ResponseBody::Exec(x)) => Ok(x),
            Ok(_) => Err(ClientError::UnexpectedResult("result kind for exec")),
            Err(e) => Err(e),
        }
    }

    pub fn read_file(resp: Option<Response>) -> (r: Result<FileContent, ClientError>)
        ensures
            was_read(resp, r),
    {
        match Self::call(resp) {
            Ok(ResponseBody::File(f)) => Ok(f),
            Ok(_) => Err(ClientError::UnexpectedResult("result kind for read_file")),
            Err(e) => Err(e),
        }
    }

    pub fn write_file(resp: Option<Response>) -> (r: Result<u64, ClientError>)
        ensures
            was_written(resp, r),
    {
        match Self::call(resp) {
            Ok(ResponseBody::Written { bytes }) => Ok(bytes),
            Ok(_) => Err(ClientError::UnexpectedResult("result kind for write_file")),
            Err(e) => Err(e),
        }
    }

    pub fn list_dir(resp: Option<Response>) -> (r: Result<Vec<DirEntry>, ClientError>)
        ensures
            was_listed(resp, r),
    {
        match Self::call(resp) {
            Ok(ResponseBody::Dir { entries }) => Ok(entries),
            Ok(_) => Err(ClientError::UnexpectedResult("result kind for list_dir")),
            Err(e) => Err(e),
        }
    }

    pub fn stat(resp: Option<Response>) -> (r: Result<FileStat, ClientError>)
        ensures
            was_looked_at(resp, r),
    {
        match Self::call(resp) {
            Ok(ResponseBody::Stat(s)) => Ok(s),
            Ok(_) => Err(ClientError::UnexpectedResult("result kind for stat")),
            Err(e) => Err(e),
        }
    }

    pub fn remove(resp: Option<Response>) -> (r: Result<(), ClientError>)
        ensures
            was_removed(resp, r),
    {
        match Self::call(resp) {
            Ok(ResponseBody::Done) => Ok(()),
            Ok(_) => Err(ClientError::UnexpectedResult("result kind for remove")),
            Err(e) => Err(e),
        }
    }

    pub fn mkdir(resp: Option<Response>) -> (r: Result<(), ClientError>)
        ensures
            was_made(resp, r),
    {
        match Self::call(resp) {
            Ok(ResponseBody::Done) => Ok(()),
            Ok(_) => Err(ClientError::UnexpectedResult("result kind for mkdir")),
            Err(e) => Err(e),
        }
    }

    pub fn set_clock(resp: Option<Response>) -> (r: Result<ClockResult, ClientError>)
        ensures
            was_set(resp, r),
    {
        match Self::call(resp) {
            Ok(ResponseBody::Clock(c)) => Ok(c),
            Ok(_) => Err(ClientError::UnexpectedResult("result kind for set_clock")),
            Err(e) => Err(e),
        }
    }
}

/// **Law.** What one side writes is what the other reads, whatever follows it on
/// the stream: the body comes back whole, and the next frame begins behind it. A
/// body that is too large is never sent.
pub proof fn law_a_written_frame_is_read(
    body: Seq<u8>,
    w: Result<Vec<u8>, String>,
    rest: Seq<u8>,
    r: Frame,
)
    requires
        framed(body, w),
        w matches Ok(v) ==> unframed(v@ + rest, r),
    ensures
        w is Ok <==> body.len() <= MAX_FRAME,
        w is Ok ==> r is Body && r->Body_body@ == body && (w->Ok_0@ + rest).skip(
            r->Body_taken as int,
        ) == rest,
{
    if let Ok(v) = w {
        law_frames_round_trip(body, rest);
        let n = body.len() as int;
        let input = v@ + rest;
        assert(input.subrange(0, 4) =~= header(n));
        assert(header_value(input) == header_value(header(n)));
        assert(header_value(header(n)) == n) by {
            lemma_header(n);
        }
        assert(input.subrange(4, 4 + n) =~= body);
        assert(input.skip(4 + n) =~= rest);
    }
}

/// **Law.** A length is written most significant byte first: a header that is
/// larger in an earlier byte announces more, whatever the later ones are.
pub proof fn law_lengths_are_big_endian(a: Seq<u8>, b: Seq<u8>)
    requires
        a.len() == 4,
        b.len() == 4,
    ensures
        a[0] < b[0] ==> header_value(a) < header_value(b),
        a[0] == b[0] && a[1] < b[1] ==> header_value(a) < header_value(b),
        a[0] == b[0] && a[1] == b[1] && a[2] < b[2] ==> header_value(a) < header_value(b),
        a[0] == 0 && a[1] == 0 && a[2] == 0 ==> header_value(a) == a[3],
{
}

/// **Law.** A stream ends cleanly only between frames, and no frame is read that
/// is larger than either side accepts.
pub proof fn law_a_cut_frame_is_not_read(input: Seq<u8>, r: Frame)
    requires
        unframed(input, r),
    ensures
        r is End <==> input.len() == 0,
        0 < input.len() < 4 ==> r is Cut,
        r matches Frame::Body { body, taken } ==> body@.len() + 4 == taken && taken <= input.len()
            && body@.len() <= MAX_FRAME,
        input.len() >= 4 && header_value(input) > MAX_FRAME ==> r is TooLarge,
        input.len() >= 4 && header_value(input) <= MAX_FRAME ==> (r is Body <==> input.len() >= 4
            + header_value(input)),
{
}

/// **Law.** A call succeeds only with a result that the agent said was one; a
/// closed connection and a refusal are told apart, and the agent's own words are
/// passed on.
pub proof fn law_a_call_brings_the_agents_answer(
    resp: Option<Response>,
    r: Result<ResponseBody, ClientError>,
)
    requires
        called(resp, r),
    ensures
        r is Ok <==> resp is Some && resp->0.ok && resp->0.result is Some,
        r matches Ok(body) ==> resp->0.result == Some(body),
        resp is None ==> r->Err_0 is Closed,
        resp is Some && r is Err ==> r->Err_0 is Agent,
        resp is Some && !resp->0.ok && resp->0.error is Some ==> r is Err && r->Err_0->Agent_0
            == resp->0.error->0,
{
}

/// **Law.** Every call takes the kind of result that it asked for and no other:
/// it succeeds exactly where the agent carried one of that kind, with what the
/// agent carried.
pub proof fn law_a_call_takes_its_own_kind_of_result(
    resp: Option<Response>,
    ping: Result<AgentInfo, ClientError>,
    exec: Result<ExecResult, ClientError>,
    read: Result<FileContent, ClientError>,
    write: Result<u64, ClientError>,
    list: Result<Vec<DirEntry>, ClientError>,
    stat: Result<FileStat, ClientError>,
    remove: Result<(), ClientError>,
    mkdir: Result<(), ClientError>,
    clock: Result<ClockResult, ClientError>,
)
    requires
        pinged(resp, ping),
        ran(resp, exec),
        was_read(resp, read),
        was_written(resp, write),
        was_listed(resp, list),
        was_looked_at(resp, stat),
        was_removed(resp, remove),
        was_made(resp, mkdir),
        was_set(resp, clock),
    ensures
        ping is Ok <==> carried(resp) is Some && carried(resp)->0 is Pong,
        exec is Ok <==> carried(resp) is Some && carried(resp)->0 is Exec,
        read is Ok <==> carried(resp) is Some && carried(resp)->0 is File,
        write is Ok <==> carried(resp) is Some && carried(resp)->0 is Written,
        list is Ok <==> carried(resp) is Some && carried(resp)->0 is Dir,
        stat is Ok <==> carried(resp) is Some && carried(resp)->0 is Stat,
        remove is Ok <==> carried(resp) is Some && carried(resp)->0 is Done,
        mkdir is Ok <==> carried(resp) is Some && carried(resp)->0 is Done,
        clock is Ok <==> carried(resp) is Some && carried(resp)->0 is Clock,
        ping is Ok ==> ping->Ok_0 == carried(resp)->0->Pong_0,
        exec is Ok ==> exec->Ok_0 == carried(resp)->0->Exec_0,
        read is Ok ==> read->Ok_0 == carried(resp)->0->File_0,
        write is Ok ==> write->Ok_0 == carried(resp)->0->Written_bytes,
        list is Ok ==> list->Ok_0 == carried(resp)->0->Dir_entries,
        stat is Ok ==> stat->Ok_0 == carried(resp)->0->Stat_0,
        clock is Ok ==> clock->Ok_0 == carried(resp)->0->Clock_0,
        resp is None ==> exec is Err && exec->Err_0 is Closed && read is Err && read->Err_0
            is Closed,
        carried(resp) is Some && exec is Err ==> exec->Err_0 is UnexpectedResult,
{
}

} // verus!
