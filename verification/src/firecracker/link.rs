//! Putting a file into a jail: a hard link where that can be, else one of a copy
//! that is made once per host rather than per VM. And finding the binary that a
//! jail is named after.

use crate::common::error::Error;
use crate::paths::{file_name, file_name_of, joined, join, parts, parts_of};
use crate::text::{
    begins, concat2, concat3, decimal, digit, digit_char, pieces, push_decimal, split, starts_with,
    texts_of,
};
use vstd::prelude::*;
use vstd::string::*;

verus! {

/// Whether an error says what failed while a jail was built, and why.
pub open spec fn jail_error(e: Error, what: Seq<char>, why: Seq<char>) -> bool {
    e matches Error::Backend(m) && m@ == "jail: "@ + what + ": "@ + why
}

fn failed(what: &str, why: &str) -> (e: Error)
    ensures
        jail_error(e, what@, why@),
{
    let mut m = concat3("jail: ", what, ": ");
    m.append(why);
    Error::Backend(m)
}

/// The lowest `n` hex digits of a number, zeros before it.
pub open spec fn hex_digits(x: nat, n: nat) -> Seq<char>
    decreases n,
{
    if n == 0 {
        Seq::empty()
    } else {
        hex_digits(x / 16, (n - 1) as nat).push(digit_char((x % 16) as int))
    }
}

fn push_hex_digits(s: &mut String, x: u64, n: u32)
    ensures
        final(s)@ == old(s)@ + hex_digits(x as nat, n as nat),
    decreases n,
{
    if n > 0 {
        push_hex_digits(s, x / 16, n - 1);
        let c = digit((x % 16) as u8);
        s.push(c);
        assert(s@ =~= old(s)@ + hex_digits(x as nat, n as nat));
    } else {
        assert(s@ =~= old(s)@ + hex_digits(x as nat, n as nat));
    }
}

/// The file to put in, where it goes, and where copies are kept.
#[derive(Debug)]
pub struct Linked {
    pub src: String,
    pub dst: String,
    pub cache: String,
    /// The process that does it, so that two do not share an unfinished copy.
    pub pid: u32,
}

/// The name of a file, where it has one.
pub open spec fn name_of(src: Seq<char>) -> Seq<char> {
    match file_name_of(src) {
        Some(n) => n,
        None => "file"@,
    }
}

/// The directory of a file's copy, by what identifies its present content.
pub open spec fn copy_dir(l: Linked, key: u64) -> Seq<char> {
    joined(l.cache@, hex_digits(key as nat, 16))
}

/// Where a copy is.
pub open spec fn copy_path(l: Linked, key: u64) -> Seq<char> {
    joined(copy_dir(l, key), name_of(l.src@))
}

/// Where a copy is while it is made.
pub open spec fn unfinished_path(l: Linked, key: u64) -> Seq<char> {
    joined(copy_dir(l, key), "."@ + name_of(l.src@) + "."@ + decimal(l.pid as nat))
}

/// A file being put in. Each phase but the last awaits one result.
#[derive(Debug)]
pub enum Linking {
    /// The directory it goes to is made, and what is there is removed.
    Clear { l: Linked },
    Link { l: Linked },
    /// What identifies its present content is found out.
    Identify { l: Linked },
    /// Whether there is a copy.
    Look { l: Linked, key: u64 },
    MakeDir { l: Linked, key: u64 },
    Copy { l: Linked, key: u64 },
    Rename { l: Linked, key: u64 },
    LinkCopy { l: Linked, key: u64 },
    CopyCopy { l: Linked, key: u64 },
    Done { result: Result<(), Error> },
}

/// What a [`Linking`] asks its caller to do.
#[derive(Debug)]
pub enum LinkAction<'a> {
    /// Make the parent directory, and remove the file.
    Clear(&'a String),
    HardLink(String, String),
    /// A hash of the canonical path, the length and the time of change.
    Identify(&'a String),
    Exists(String),
    MakeDir(String),
    Copy(String, String),
    Rename(String, String),
    Nothing,
}

/// What came of it.
#[derive(Debug)]
pub enum LinkEvent {
    Done,
    Failed(String),
    Key(u64),
    Exists(bool),
}

impl Linking {
    /// Whether an event answers what this asks for.
    pub open spec fn awaits(self, ev: LinkEvent) -> bool {
        match self {
            Linking::Identify { .. } => ev is Key || ev is Failed,
            Linking::Look { .. } => ev is Exists,
            Linking::Done { .. } => false,
            _ => ev is Done || ev is Failed,
        }
    }

    /// The whole machine: what `ev` turns this into.
    pub open spec fn follows(self, ev: LinkEvent, r: Linking) -> bool {
        match (self, ev) {
            (Linking::Clear { .. }, LinkEvent::Failed(e)) => ends(r, "mkdir"@, e@),
            (Linking::Clear { l }, _) => r == (Linking::Link { l }),
            (Linking::Link { l }, LinkEvent::Failed(_)) => r == (Linking::Identify { l }),
            (Linking::Link { .. }, _) => r == (Linking::Done { result: Ok(()) }),
            (Linking::Identify { l }, LinkEvent::Failed(e)) => ends(r, "stat "@ + l.src@, e@),
            (Linking::Identify { l }, LinkEvent::Key(key)) => r == (Linking::Look { l, key }),
            (Linking::Look { l, key }, LinkEvent::Exists(there)) => r == if there {
                Linking::LinkCopy { l, key }
            } else {
                Linking::MakeDir { l, key }
            },
            (Linking::MakeDir { .. }, LinkEvent::Failed(e)) => ends(r, "mkdir cache"@, e@),
            (Linking::MakeDir { l, key }, _) => r == (Linking::Copy { l, key }),
            (Linking::Copy { l, .. }, LinkEvent::Failed(e)) => ends(r, "copy "@ + l.src@, e@),
            (Linking::Copy { l, key }, _) => r == (Linking::Rename { l, key }),
            (Linking::Rename { .. }, LinkEvent::Failed(e)) => ends(r, "rename into cache"@, e@),
            (Linking::Rename { l, key }, _) => r == (Linking::LinkCopy { l, key }),
            (Linking::LinkCopy { l, key }, LinkEvent::Failed(_)) => r == (Linking::CopyCopy {
                l,
                key,
            }),
            (Linking::LinkCopy { .. }, _) => r == (Linking::Done { result: Ok(()) }),
            (Linking::CopyCopy { l, key }, LinkEvent::Failed(e)) => ends(
                r,
                "copy "@ + copy_path(l, key),
                e@,
            ),
            (Linking::CopyCopy { .. }, _) => r == (Linking::Done { result: Ok(()) }),
            _ => true,
        }
    }

    /// Whether `a` is what is to be done now.
    pub open spec fn asks(self, a: LinkAction<'_>) -> bool {
        match self {
            Linking::Clear { l } => a matches LinkAction::Clear(d) && *d == l.dst,
            Linking::Link { l } => a matches LinkAction::HardLink(s, d) && s@ == l.src@ && d@
                == l.dst@,
            Linking::Identify { l } => a matches LinkAction::Identify(s) && *s == l.src,
            Linking::Look { l, key } => a matches LinkAction::Exists(p) && p@ == copy_path(
                l,
                key,
            ),
            Linking::MakeDir { l, key } => a matches LinkAction::MakeDir(p) && p@ == copy_dir(
                l,
                key,
            ),
            Linking::Copy { l, key } => a matches LinkAction::Copy(s, d) && s@ == l.src@ && d@
                == unfinished_path(l, key),
            Linking::Rename { l, key } => a matches LinkAction::Rename(s, d) && s@
                == unfinished_path(l, key) && d@ == copy_path(l, key),
            Linking::LinkCopy { l, key } => a matches LinkAction::HardLink(s, d) && s@
                == copy_path(l, key) && d@ == l.dst@,
            Linking::CopyCopy { l, key } => a matches LinkAction::Copy(s, d) && s@
                == copy_path(l, key) && d@ == l.dst@,
            Linking::Done { .. } => a is Nothing,
        }
    }

    pub fn begin(l: Linked) -> (r: Linking)
        ensures
            r == (Linking::Clear { l }),
    {
        Linking::Clear { l }
    }

    /// What is to be done now.
    pub fn action(&self) -> (a: LinkAction<'_>)
        ensures
            self.asks(a),
    {
        match self {
            Linking::Clear { l } => LinkAction::Clear(&l.dst),
            Linking::Link { l } => LinkAction::HardLink(l.src.clone(), l.dst.clone()),
            Linking::Identify { l } => LinkAction::Identify(&l.src),
            Linking::Look { l, key } => LinkAction::Exists(copied(l, *key)),
            Linking::MakeDir { l, key } => LinkAction::MakeDir(copied_dir(l, *key)),
            Linking::Copy { l, key } => LinkAction::Copy(l.src.clone(), unfinished(l, *key)),
            Linking::Rename { l, key } => LinkAction::Rename(unfinished(l, *key), copied(l, *key)),
            Linking::LinkCopy { l, key } => LinkAction::HardLink(copied(l, *key), l.dst.clone()),
            Linking::CopyCopy { l, key } => LinkAction::Copy(copied(l, *key), l.dst.clone()),
            Linking::Done { .. } => LinkAction::Nothing,
        }
    }

    /// What `ev` turns this into.
    pub fn step(self, ev: LinkEvent) -> (r: Linking)
        requires
            self.awaits(ev),
        ensures
            self.follows(ev, r),
    {
        match (self, ev) {
            (Linking::Clear { .. }, LinkEvent::Failed(e)) => Linking::Done {
                result: Err(failed("mkdir", e.as_str())),
            },
            (Linking::Clear { l }, _) => Linking::Link { l },
            (Linking::Link { l }, LinkEvent::Failed(_)) => Linking::Identify { l },
            (Linking::Link { .. }, _) => Linking::Done { result: Ok(()) },
            (Linking::Identify { l }, LinkEvent::Failed(e)) => Linking::Done {
                result: Err(failed(concat2("stat ", l.src.as_str()).as_str(), e.as_str())),
            },
            (Linking::Identify { l }, LinkEvent::Key(key)) => Linking::Look { l, key },
            (Linking::Look { l, key }, LinkEvent::Exists(there)) => if there {
                Linking::LinkCopy { l, key }
            } else {
                Linking::MakeDir { l, key }
            },
            (Linking::MakeDir { .. }, LinkEvent::Failed(e)) => Linking::Done {
                result: Err(failed("mkdir cache", e.as_str())),
            },
            (Linking::MakeDir { l, key }, _) => Linking::Copy { l, key },
            (Linking::Copy { l, .. }, LinkEvent::Failed(e)) => Linking::Done {
                result: Err(failed(concat2("copy ", l.src.as_str()).as_str(), e.as_str())),
            },
            (Linking::Copy { l, key }, _) => Linking::Rename { l, key },
            (Linking::Rename { .. }, LinkEvent::Failed(e)) => Linking::Done {
                result: Err(failed("rename into cache", e.as_str())),
            },
            (Linking::Rename { l, key }, _) => Linking::LinkCopy { l, key },
            (Linking::LinkCopy { l, key }, LinkEvent::Failed(_)) => Linking::CopyCopy { l, key },
            (Linking::LinkCopy { .. }, _) => Linking::Done { result: Ok(()) },
            (Linking::CopyCopy { l, key }, LinkEvent::Failed(e)) => Linking::Done {
                result: Err(
                    failed(concat2("copy ", copied(&l, key).as_str()).as_str(), e.as_str()),
                ),
            },
            (Linking::CopyCopy { .. }, _) => Linking::Done { result: Ok(()) },
            (s, _) => s,
        }
    }
}

/// Whether `r` is the end, with what failed and why.
pub open spec fn ends(r: Linking, what: Seq<char>, why: Seq<char>) -> bool {
    r matches Linking::Done { result: Err(e) } && jail_error(e, what, why)
}

fn own_name(l: &Linked) -> (s: String)
    ensures
        s@ == name_of(l.src@),
{
    match file_name(l.src.as_str()) {
        Some(n) => n,
        None => "file".to_string(),
    }
}

fn copied_dir(l: &Linked, key: u64) -> (s: String)
    ensures
        s@ == copy_dir(*l, key),
{
    let mut k = String::new();
    push_hex_digits(&mut k, key, 16);
    assert(k@ =~= hex_digits(key as nat, 16));
    join(l.cache.as_str(), k.as_str())
}

fn copied(l: &Linked, key: u64) -> (s: String)
    ensures
        s@ == copy_path(*l, key),
{
    join(copied_dir(l, key).as_str(), own_name(l).as_str())
}

fn unfinished(l: &Linked, key: u64) -> (s: String)
    ensures
        s@ == unfinished_path(*l, key),
{
    let mut n = concat3(".", own_name(l).as_str(), ".");
    push_decimal(&mut n, l.pid as u64);
    join(copied_dir(l, key).as_str(), n.as_str())
}

/// **Law.** A copy is complete before it has its name: what a link is made of was
/// there before or came by a rename of a finished copy.
pub proof fn law_only_finished_copies_are_linked(a: Linking, ev: LinkEvent, r: Linking)
    requires
        a.awaits(ev),
        a.follows(ev, r),
        r is LinkCopy,
    ensures
        (a is Look && ev == LinkEvent::Exists(true)) || (a is Rename && ev is Done),
{
}

// ---- binaries ----

/// How many components a path has: the root, a leading `.`, and each part that
/// names something.
pub open spec fn components(p: Seq<char>) -> int {
    parts_of(p).len() + if begins(p, "/"@) {
        1int
    } else if pieces(p, '/')[0] == "."@ {
        1int
    } else {
        0
    }
}

/// Where a binary is looked for: at its own path where that has a directory, else
/// below each directory of the search path, in order.
pub open spec fn places(bin: Seq<char>, path: Seq<char>) -> Seq<Seq<char>> {
    if components(bin) > 1 {
        seq![bin]
    } else {
        pieces(path, ':').map_values(|d: Seq<char>| joined(d, bin))
    }
}

/// Where a binary is looked for; the first that is a file is meant. `searched`
/// says whether it has to be one: a path with a directory is taken as it is.
pub fn look_for(bin: &str, path: &str) -> (r: (Vec<String>, bool))
    ensures
        texts_of(r.0@) == places(bin@, path@),
        r.1 == (components(bin@) <= 1),
{
    let named = parts(bin);
    let raw = split(bin, '/');
    assert(texts_of(named@).len() == named.len());
    assert(pieces(bin@, '/').len() >= 1);
    assert(texts_of(raw@)[0] == raw@[0]@);
    let more: usize = if starts_with(bin, "/") {
        1
    } else if crate::text::same(raw[0].as_str(), ".") {
        1
    } else {
        0
    };
    if named.len() > 1 || (named.len() == 1 && more == 1) {
        let mut v: Vec<String> = Vec::new();
        v.push(bin.to_string());
        assert(texts_of(v@) =~= seq![bin@]);
        return (v, false);
    }
    let dirs = split(path, ':');
    let ghost want = pieces(path@, ':').map_values(|d: Seq<char>| joined(d, bin@));
    let mut out: Vec<String> = Vec::new();
    let mut i: usize = 0;
    while i < dirs.len()
        invariant
            i <= dirs.len(),
            texts_of(dirs@) == pieces(path@, ':'),
            want == pieces(path@, ':').map_values(|d: Seq<char>| joined(d, bin@)),
            texts_of(out@) =~= want.take(i as int),
        decreases dirs.len() - i,
    {
        let ghost had = out@;
        let p = join(dirs[i].as_str(), bin);
        out.push(p);
        proof {
            assert(texts_of(dirs@)[i as int] == dirs@[i as int]@);
            assert(texts_of(out@) =~= texts_of(had).push(p@));
            assert(want.take(i + 1) =~= want.take(i as int).push(want[i as int]));
        }
        i += 1;
    }
    assert(texts_of(dirs@).len() == dirs.len());
    assert(want.take(i as int) =~= want);
    (out, true)
}

/// A binary that is nowhere on the search path.
pub fn not_found(bin: &str) -> (e: Error)
    ensures
        e matches Error::Backend(m) && m@ == "jail: "@ + bin@ + " not found on PATH"@,
{
    Error::Backend(concat3("jail: ", bin, " not found on PATH"))
}

/// **Law.** A file that is said to be put in was put in: success comes only from
/// a link or a copy that was made at its place, of the file itself or of its
/// copy.
pub proof fn law_a_linked_file_is_there(a: Linking, act: LinkAction<'_>, ev: LinkEvent, r: Linking)
    requires
        a.asks(act),
        a.awaits(ev),
        a.follows(ev, r),
        r matches Linking::Done { result } && result is Ok,
    ensures
        ev is Done,
        a matches Linking::Link { l } ==> act matches LinkAction::HardLink(s, d) && s@ == l.src@
            && d@ == l.dst@,
        a matches Linking::LinkCopy { l, key } ==> act matches LinkAction::HardLink(s, d) && s@
            == copy_path(l, key) && d@ == l.dst@,
        a matches Linking::CopyCopy { l, key } ==> act matches LinkAction::Copy(s, d) && s@
            == copy_path(l, key) && d@ == l.dst@,
        a is Link || a is LinkCopy || a is CopyCopy,
{
}

/// **Law.** What is done to put a file in goes on with the same file, and with
/// the same copy of it: the copy is made from the file, under a name that is not
/// its own, and takes its own name by the rename; a link across filesystems is
/// not an error, and neither is a copy that cannot be linked.
pub proof fn law_a_link_falls_back_to_a_copy(
    a: Linking,
    act: LinkAction<'_>,
    ev: LinkEvent,
    r: Linking,
)
    requires
        a.asks(act),
        a.awaits(ev),
        a.follows(ev, r),
    ensures
        a matches Linking::Clear { l } ==> (act matches LinkAction::Clear(d) && *d == l.dst) && (ev
            is Done ==> r == (Linking::Link { l })),
        a matches Linking::Link { l } ==> (ev is Failed ==> r == (Linking::Identify { l })),
        a matches Linking::Identify { l } ==> (act matches LinkAction::Identify(s) && *s == l.src)
            && (ev matches LinkEvent::Key(key) ==> r == (Linking::Look { l, key })),
        a matches Linking::Look { l, key } ==> (act matches LinkAction::Exists(p) && p@ == copy_path(
            l,
            key,
        )) && (r is LinkCopy <==> ev == LinkEvent::Exists(true)) && (r is MakeDir <==> ev
            == LinkEvent::Exists(false)),
        a matches Linking::Copy { l, key } ==> (act matches LinkAction::Copy(s, d) && s@ == l.src@
            && d@ == unfinished_path(l, key)) && (ev is Done ==> r == (Linking::Rename { l, key })),
        a matches Linking::Rename { l, key } ==> (act matches LinkAction::Rename(s, d) && s@
            == unfinished_path(l, key) && d@ == copy_path(l, key)) && (ev is Done ==> r == (
        Linking::LinkCopy { l, key })),
        a matches Linking::LinkCopy { l, key } ==> (ev is Failed ==> r == (Linking::CopyCopy {
            l,
            key,
        })),
        a matches Linking::MakeDir { l, key } ==> (ev is Done ==> r == (Linking::Copy { l, key })),
        ev is Failed && !(a is Link || a is LinkCopy) ==> (r matches Linking::Done { result }
            && result is Err),
{
}

/// **Law.** A binary named by a path is taken there and nowhere else; a bare name
/// is looked for below every directory of the search path, in its order.
pub proof fn law_a_bare_name_is_searched_for(bin: Seq<char>, path: Seq<char>)
    ensures
        begins(bin, "/"@) && parts_of(bin).len() > 0 ==> places(bin, path) == seq![bin],
        parts_of(bin).len() > 1 ==> places(bin, path) == seq![bin],
        parts_of(bin).len() == 1 && !begins(bin, "/"@) && pieces(bin, '/')[0] != "."@ ==> {
            &&& places(bin, path).len() == pieces(path, ':').len()
            &&& forall|i: int|
                0 <= i < pieces(path, ':').len() ==> places(bin, path)[i] == joined(
                    #[trigger] pieces(path, ':')[i],
                    bin,
                )
        },
{
}

} // verus!
