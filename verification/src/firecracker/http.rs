//! The HTTP exchange with Firecracker's API socket: one request, one response,
//! delimited by its content length.

use crate::common::error::Error;
use crate::paths::{dir_and_name, join, joined, split_dir};
use crate::text::{
    chars_of, concat2, concat3, cut, decimal, decimal_text, find_text, first_place, from_utf8_lossy,
    lines, lines_of, lossy_text, lower, lowered, number, parse_number, piece, push_decimal, quote,
    quoted, same, second_word, split_once, text_of, texts_of, trim, trimmed, word_two,
};
use vstd::prelude::*;
use vstd::string::*;

verus! {

/// `sun_path` holds 108 bytes including the NUL. A jailed VM's sockets are
/// mostly over that; connecting through the directory's fd sidesteps the limit.
pub const SUN_PATH_MAX: usize = 107;

/// A path the kernel will accept in `sun_path`: the path itself when short
/// enough, else its name below a directory that is to be held open.
#[derive(Debug, PartialEq, Eq)]
pub struct SocketPath {
    /// The path, or the name in `dir`.
    pub path: String,
    /// The directory to reach it through.
    pub dir: Option<String>,
}

/// Whether `r` is how to reach the socket at a path of so many bytes.
pub open spec fn reaches(path: Seq<char>, bytes: nat, r: Result<SocketPath, String>) -> bool {
    if bytes <= SUN_PATH_MAX {
        r matches Ok(s) && s.path@ == path && s.dir is None
    } else {
        match dir_and_name(path) {
            Some(x) => {
                &&& r matches Ok(s)
                &&& s.path@ == x.1
                &&& text_of(s.dir) == Some(x.0)
            },
            None => r matches Err(m) && m@ == "socket path "@ + path + " has no directory"@,
        }
    }
}

impl SocketPath {
    /// How to reach the socket at `path`.
    pub fn new(path: &str) -> (r: Result<Self, String>)
        ensures
            reaches(path@, path.spec_bytes().len(), r),
    {
        let bytes = path.as_bytes();
        if bytes.len() <= SUN_PATH_MAX {
            return Ok(SocketPath { path: path.to_string(), dir: None });
        }
        match split_dir(path) {
            Some(x) => Ok(SocketPath { path: x.1, dir: Some(x.0) }),
            None => Err(concat3("socket path ", path, " has no directory")),
        }
    }

    /// The path to connect to, with `fd` the open directory.
    pub fn through(&self, fd: u32) -> (s: String)
        ensures
            s@ == (match self.dir {
                Some(_) => joined("/proc/self/fd/"@ + decimal(fd as nat), self.path@),
                None => self.path@,
            }),
    {
        match &self.dir {
            Some(_) => {
                let d = concat2("/proc/self/fd/", decimal_text(fd as u64).as_str());
                join(d.as_str(), self.path.as_str())
            },
            None => self.path.clone(),
        }
    }
}

// ---- searching bytes ----

/// Whether `needle` stands in `h` from place `i` on.
pub open spec fn at(h: Seq<u8>, needle: Seq<u8>, i: int) -> bool {
    0 <= i && i + needle.len() <= h.len() && h.subrange(i, i + needle.len()) == needle
}

/// Where `needle` first stands in `haystack`.
pub fn find(haystack: &[u8], needle: &[u8]) -> (r: Option<usize>)
    requires
        needle@.len() > 0,
    ensures
        match r {
            Some(i) => at(haystack@, needle@, i as int) && forall|k: int|
                0 <= k < i ==> !(#[trigger] at(haystack@, needle@, k)),
            None => forall|k: int| !(#[trigger] at(haystack@, needle@, k)),
        },
{
    if haystack.len() < needle.len() {
        return None;
    }
    let last: usize = haystack.len() - needle.len();
    let mut i: usize = 0;
    loop
        invariant
            i <= last,
            last + needle.len() == haystack.len(),
            forall|k: int| 0 <= k < i ==> !(#[trigger] at(haystack@, needle@, k)),
        decreases last - i,
    {
        let mut j: usize = 0;
        while j < needle.len() && haystack[i + j] == needle[j]
            invariant
                j <= needle.len(),
                i <= last,
                last + needle.len() == haystack.len(),
                forall|k: int| 0 <= k < j ==> haystack@[i + k] == needle@[k],
            decreases needle.len() - j,
        {
            j += 1;
        }
        if j == needle.len() {
            assert(haystack@.subrange(i as int, i + needle.len()) =~= needle@);
            return Some(i);
        }
        proof {
            assert(haystack@.subrange(i as int, i + needle.len())[j as int] != needle@[j as int]);
        }
        if i == last {
            return None;
        }
        i += 1;
    }
}

// ---- headers ----

/// The value of the first line of headers with this key, given in lower case.
pub open spec fn header_value(lines: Seq<Seq<char>>, key: Seq<char>) -> Option<Seq<char>>
    decreases lines.len(),
{
    if lines.len() == 0 {
        None
    } else {
        match cut(lines[0], ':') {
            Some(p) => if lowered(p.0) == key {
                Some(p.1)
            } else {
                header_value(lines.subrange(1, lines.len() as int), key)
            },
            None => header_value(lines.subrange(1, lines.len() as int), key),
        }
    }
}

/// The content length that headers declare, if they declare one.
pub open spec fn declared(headers: Seq<char>) -> Option<int> {
    match header_value(lines_of(headers), "content-length"@) {
        Some(v) => number(trimmed(v), 10, usize::MAX as int),
        None => None,
    }
}

/// The content length that headers declare, if they declare one.
pub fn content_length(headers: &str) -> (r: Option<usize>)
    ensures
        match r {
            Some(n) => declared(headers@) == Some(n as int),
            None => declared(headers@) is None,
        },
{
    let v = lines(headers);
    let ghost all = texts_of(v@);
    let mut i: usize = 0;
    assert(all.subrange(0, all.len() as int) =~= all);
    while i < v.len()
        invariant
            i <= v.len(),
            all == texts_of(v@),
            all == lines_of(headers@),
            header_value(all, "content-length"@) == header_value(
                all.subrange(i as int, all.len() as int),
                "content-length"@,
            ),
        decreases v.len() - i,
    {
        proof {
            let here = all.subrange(i as int, all.len() as int);
            assert(here[0] == v@[i as int]@);
            assert(here.subrange(1, here.len() as int) =~= all.subrange(i + 1, all.len() as int));
        }
        if let Some(p) = split_once(v[i].as_str(), ':') {
            if same(lower(p.0.as_str()).as_str(), "content-length") {
                return match parse_number(trim(p.1.as_str()).as_str(), 10, usize::MAX as u64) {
                    Some(n) => Some(n as usize),
                    None => None,
                };
            }
        }
        i += 1;
    }
    None
}

/// The text of a request.
pub open spec fn request_of(
    method: Seq<char>,
    path: Seq<char>,
    len: nat,
    body: Seq<char>,
) -> Seq<char> {
    method + " "@ + path
        + " HTTP/1.1\r\nHost: localhost\r\nAccept: application/json\r\nContent-Type: application/json\r\nContent-Length: "@
        + decimal(len) + "\r\nConnection: close\r\n\r\n"@ + body
}

/// The text of a request.
pub fn request_text(method: &str, path: &str, body: &str) -> (s: String)
    ensures
        s@ == request_of(method@, path@, body.spec_bytes().len(), body@),
{
    let mut s = concat3(method, " ", path);
    s.append(
        " HTTP/1.1\r\nHost: localhost\r\nAccept: application/json\r\nContent-Type: application/json\r\nContent-Length: ",
    );
    let n: usize = body.as_bytes().len();
    push_decimal(&mut s, n as u64);
    s.append("\r\nConnection: close\r\n\r\n");
    s.append(body);
    s
}

/// What ends the headers of a response.
pub open spec fn blank_line() -> Seq<u8> {
    seq![13u8, 10, 13, 10]
}

/// Whether `buf` holds a whole response: its headers, and as much body as they
/// declare.
pub open spec fn whole(buf: Seq<u8>) -> bool {
    exists|he: int|
        {
            &&& #[trigger] at(buf, blank_line(), he)
            &&& forall|k: int| 0 <= k < he ==> !(#[trigger] at(buf, blank_line(), k))
            &&& buf.len() >= he + 4 + needed(lossy_text(buf.subrange(0, he)))
        }
}

/// How much body headers ask to wait for.
pub open spec fn needed(headers: Seq<char>) -> int {
    match declared(headers) {
        Some(n) => n,
        None => 0,
    }
}

/// Whether enough of a response has been read.
pub fn response_complete(buf: &[u8]) -> (r: bool)
    ensures
        r == whole(buf@),
{
    let blank: [u8; 4] = [13, 10, 13, 10];
    assert(blank@ =~= blank_line());
    match find(buf, &blank) {
        Some(he) => {
            let head = vstd::slice::slice_subrange(buf, 0, he);
            let headers = from_utf8_lossy(head);
            let r = body_complete(headers.as_str(), buf.len() - he - 4);
            proof {
                assert forall|k: int|
                    {
                        &&& #[trigger] at(buf@, blank_line(), k)
                        &&& forall|j: int| 0 <= j < k ==> !(#[trigger] at(buf@, blank_line(), j))
                    } implies k == he by {
                    if k < he {
                        assert(!at(buf@, blank_line(), k));
                    }
                    if he < k {
                        assert(!at(buf@, blank_line(), he as int));
                    }
                }
            }
            r
        },
        None => false,
    }
}

/// Whether `have` bytes of body are as many as headers ask to wait for.
pub fn body_complete(headers: &str, have: usize) -> (r: bool)
    ensures
        r == (have >= needed(headers@)),
{
    let need: usize = match content_length(headers) {
        Some(n) => n,
        None => 0,
    };
    have >= need
}

/// What stands behind the first blank line of a text, up to the next one.
pub open spec fn second_part(t: Seq<char>, sep: Seq<char>) -> Seq<char> {
    match first_place(t, sep) {
        Some(i) => {
            let rest = t.subrange(i + sep.len(), t.len() as int);
            match first_place(rest, sep) {
                Some(j) => rest.subrange(0, j),
                None => rest,
            }
        },
        None => Seq::empty(),
    }
}

/// The status of a response, as its text has it.
pub open spec fn status_of(t: Seq<char>) -> Option<int> {
    match second_word(t) {
        Some(w) => number(w, 10, u16::MAX as int),
        None => None,
    }
}

/// Reads the status and the body out of the text of a response.
pub fn parse_response(t: &str) -> (r: Result<(u16, String), Error>)
    ensures
        match r {
            Ok(x) => status_of(t@) == Some(x.0 as int) && x.1@ == second_part(t@, "\r\n\r\n"@),
            Err(e) => {
                &&& status_of(t@) is None
                &&& e matches Error::Backend(m)
                &&& m@ == "malformed firecracker response: "@ + quoted(t@)
            },
        },
{
    let code: Option<u64> = match word_two(t) {
        Some(w) => parse_number(w.as_str(), 10, u16::MAX as u64),
        None => None,
    };
    let code: u16 = match code {
        Some(n) => n as u16,
        None => {
            return Err(
                Error::Backend(concat2("malformed firecracker response: ", quote(t).as_str())),
            );
        },
    };
    let v = chars_of(t);
    let sep = chars_of("\r\n\r\n");
    let body = match find_text(&v, &sep) {
        Some(i) => {
            let rest = piece(&v, i + sep.len(), v.len());
            let w = chars_of(rest.as_str());
            match find_text(&w, &sep) {
                Some(j) => piece(&w, 0, j),
                None => rest,
            }
        },
        None => String::new(),
    };
    Ok((code, body))
}

/// Reads the status and the body out of the bytes of a response.
pub fn read_response(buf: &[u8]) -> (r: Result<(u16, String), Error>)
    ensures
        match r {
            Ok(x) => status_of(lossy_text(buf@)) == Some(x.0 as int) && x.1@ == second_part(
                lossy_text(buf@),
                "\r\n\r\n"@,
            ),
            Err(e) => {
                &&& status_of(lossy_text(buf@)) is None
                &&& e matches Error::Backend(m)
                &&& m@ == "malformed firecracker response: "@ + quoted(lossy_text(buf@))
            },
        },
{
    parse_response(from_utf8_lossy(buf).as_str())
}

/// Whether `r` requires a success of a call.
pub open spec fn expects(
    method: Seq<char>,
    path: Seq<char>,
    code: u16,
    resp: Seq<char>,
    r: Result<(), Error>,
) -> bool {
    match r {
        Ok(_) => 200 <= code < 300,
        Err(e) => {
            &&& !(200 <= code < 300)
            &&& e matches Error::Backend(m)
            &&& m@ == method + " "@ + path + " -> "@ + decimal(code as nat) + ": "@ + resp
        },
    }
}

/// Requires a success of a call.
pub fn expect_ok(method: &str, path: &str, code: u16, resp: &str) -> (r: Result<(), Error>)
    ensures
        expects(method@, path@, code, resp@, r),
{
    if 200 <= code && code < 300 {
        return Ok(());
    }
    let mut m = concat3(method, " ", path);
    m.append(" -> ");
    push_decimal(&mut m, code as u64);
    m.append(": ");
    m.append(resp);
    Err(Error::Backend(m))
}

/// What is said of a call that was not answered in time.
pub fn timed_out(method: &str, path: &str) -> (e: Error)
    ensures
        e matches Error::Backend(m) && m@ == "firecracker API "@ + method@ + " "@ + path@
            + " timed out"@,
{
    let mut m = concat3("firecracker API ", method, " ");
    m.append(path);
    m.append(" timed out");
    Error::Backend(m)
}

/// **Law.** A socket is reached by its own path wherever the kernel accepts that,
/// and otherwise by its name through the directory that it is in: no path that
/// is connected to is too long on account of the directory.
pub proof fn law_a_long_path_goes_through_its_directory(
    path: Seq<char>,
    bytes: nat,
    r: Result<SocketPath, String>,
)
    requires
        reaches(path, bytes, r),
    ensures
        bytes <= 107 ==> r is Ok && r->Ok_0.dir is None && r->Ok_0.path@ == path,
        bytes > 107 && r is Ok ==> r->Ok_0.dir is Some && dir_and_name(path) == Some(
            (r->Ok_0.dir->0@, r->Ok_0.path@),
        ),
        r is Err <==> bytes > 107 && dir_and_name(path) is None,
{
}

/// **Law.** A call counts as done exactly where it was answered with a success.
pub proof fn law_only_a_success_is_one(
    method: Seq<char>,
    path: Seq<char>,
    code: u16,
    resp: Seq<char>,
    r: Result<(), Error>,
)
    requires
        expects(method, path, code, resp, r),
    ensures
        r is Ok <==> 200 <= code <= 299,
        r matches Err(e) ==> e is Backend,
{
}

/// **Law.** A response is not taken before it is whole: its headers have ended,
/// and behind them stands as much as they declare. What comes later does not
/// make it less so.
pub proof fn law_a_response_is_waited_for(buf: Seq<u8>, he: int)
    requires
        at(buf, blank_line(), he),
        forall|k: int| 0 <= k < he ==> !(#[trigger] at(buf, blank_line(), k)),
    ensures
        whole(buf) <==> buf.len() - he - 4 >= needed(lossy_text(buf.subrange(0, he))),
{
    if whole(buf) {
        let k = choose|k: int|
            {
                &&& #[trigger] at(buf, blank_line(), k)
                &&& forall|j: int| 0 <= j < k ==> !(#[trigger] at(buf, blank_line(), j))
                &&& buf.len() >= k + 4 + needed(lossy_text(buf.subrange(0, k)))
            };
        if k < he {
            assert(!at(buf, blank_line(), k));
        }
        if he < k {
            assert(!at(buf, blank_line(), he));
        }
    }
}

/// **Law.** Headers without a length ask for no body, and the first line of
/// headers that declares one counts, whatever the case of its name.
pub proof fn law_the_first_declared_length_counts(
    lines: Seq<Seq<char>>,
    key: Seq<char>,
    i: int,
)
    requires
        0 <= i < lines.len(),
        cut(lines[i], ':') matches Some(p) && lowered(p.0) == key,
        forall|k: int|
            0 <= k < i ==> !(cut(#[trigger] lines[k], ':') matches Some(p) && lowered(p.0) == key),
    ensures
        header_value(lines, key) is Some,
        cut(lines[i], ':') matches Some(p) && header_value(lines, key) == Some(p.1),
    decreases lines.len(),
{
    if i > 0 {
        assert(!(cut(lines[0], ':') matches Some(p) && lowered(p.0) == key));
        let rest = lines.subrange(1, lines.len() as int);
        assert(rest[i - 1] == lines[i]);
        assert forall|k: int| 0 <= k < i - 1 implies !(cut(#[trigger] rest[k], ':') matches Some(p)
            && lowered(p.0) == key) by {
            assert(rest[k] == lines[k + 1]);
        }
        law_the_first_declared_length_counts(rest, key, i - 1);
    }
}

/// **Law.** A request says what is asked for first and carries its body last, with
/// the body's own length declared before it.
pub proof fn law_a_request_declares_its_body(
    method: Seq<char>,
    path: Seq<char>,
    len: nat,
    body: Seq<char>,
)
    ensures
        ({
            let r = request_of(method, path, len, body);
            let line = method + " "@ + path + " HTTP/1.1\r\n"@;
            let last = "Content-Length: "@ + decimal(len) + "\r\nConnection: close\r\n\r\n"@ + body;
            &&& r.subrange(0, line.len() as int) == line
            &&& r.subrange(r.len() - last.len(), r.len() as int) == last
        }),
{
    let r = request_of(method, path, len, body);
    let line = method + " "@ + path + " HTTP/1.1\r\n"@;
    let last = "Content-Length: "@ + decimal(len) + "\r\nConnection: close\r\n\r\n"@ + body;
    reveal_strlit(" HTTP/1.1\r\n");
    reveal_strlit("Content-Length: ");
    reveal_strlit(
        " HTTP/1.1\r\nHost: localhost\r\nAccept: application/json\r\nContent-Type: application/json\r\nContent-Length: ",
    );
    let mid =
        " HTTP/1.1\r\nHost: localhost\r\nAccept: application/json\r\nContent-Type: application/json\r\nContent-Length: "@;
    assert(mid.subrange(0, 11) =~= " HTTP/1.1\r\n"@);
    assert(mid.subrange(mid.len() - 16, mid.len() as int) =~= "Content-Length: "@);
    assert(r.subrange(0, line.len() as int) =~= line);
    assert(r.subrange(r.len() - last.len(), r.len() as int) =~= last);
}

/// **Law.** The body of a response is what stands behind its first blank line.
pub proof fn law_the_body_stands_behind_the_blank_line(
    head: Seq<char>,
    body: Seq<char>,
    sep: Seq<char>,
)
    requires
        sep.len() > 0,
        first_place(head + sep + body, sep) == Some(head.len() as int),
        first_place(body, sep) is None,
    ensures
        second_part(head + sep + body, sep) == body,
{
    let t = head + sep + body;
    assert(t.subrange(head.len() as int + sep.len(), t.len() as int) =~= body);
}

} // verus!
