//! Paths as text.

use crate::text::{
    concat2, concat3, finishes, pieces, rcut, rsplit_once, same, split, starts_with, text_of,
    texts_of, begins,
};
use vstd::prelude::*;
use vstd::string::*;

verus! {

/// `b` below `a`; an absolute `b` stands for itself.
pub open spec fn joined(a: Seq<char>, b: Seq<char>) -> Seq<char> {
    if begins(b, "/"@) {
        b
    } else if a.len() == 0 || finishes(a, "/"@) {
        a + b
    } else {
        a + "/"@ + b
    }
}

/// `b` below `a`.
pub fn join(a: &str, b: &str) -> (s: String)
    ensures
        s@ == joined(a@, b@),
{
    if starts_with(b, "/") {
        b.to_string()
    } else if a.is_empty() || crate::text::ends_with(a, "/") {
        concat2(a, b)
    } else {
        concat3(a, "/", b)
    }
}

/// The parts of a path that name something: what its slashes separate, without
/// empty parts and `.`.
pub open spec fn named(parts: Seq<Seq<char>>) -> Seq<Seq<char>>
    decreases parts.len(),
{
    if parts.len() == 0 {
        Seq::empty()
    } else {
        let rest = named(parts.drop_last());
        if parts.last().len() == 0 || parts.last() == "."@ {
            rest
        } else {
            rest.push(parts.last())
        }
    }
}

/// The parts of a path that name something.
pub open spec fn parts_of(p: Seq<char>) -> Seq<Seq<char>> {
    named(pieces(p, '/'))
}

/// The last part of a path, unless that is `..` or there is none.
pub open spec fn file_name_of(p: Seq<char>) -> Option<Seq<char>> {
    let v = parts_of(p);
    if v.len() == 0 || v.last() == ".."@ {
        None
    } else {
        Some(v.last())
    }
}

/// The parts of a path that name something.
pub fn parts(p: &str) -> (v: Vec<String>)
    ensures
        texts_of(v@) == parts_of(p@),
{
    let all = split(p, '/');
    let ghost a = texts_of(all@);
    let mut out: Vec<String> = Vec::new();
    let mut i: usize = 0;
    assert(a.subrange(0, 0) =~= Seq::<Seq<char>>::empty());
    assert(texts_of(out@) =~= Seq::<Seq<char>>::empty());
    while i < all.len()
        invariant
            i <= all.len(),
            a == texts_of(all@),
            texts_of(out@) == named(a.subrange(0, i as int)),
        decreases all.len() - i,
    {
        proof {
            let next = a.subrange(0, i + 1);
            assert(next.drop_last() =~= a.subrange(0, i as int));
            assert(next.last() == all@[i as int]@);
        }
        if !all[i].as_str().is_empty() && !same(all[i].as_str(), ".") {
            let ghost had = out@;
            let t = all[i].clone();
            out.push(t);
            assert(texts_of(out@) =~= texts_of(had).push(t@));
        }
        i += 1;
    }
    assert(a.subrange(0, a.len() as int) =~= a);
    out
}

/// The last part of a path, unless that is `..` or there is none.
pub fn file_name(p: &str) -> (r: Option<String>)
    ensures
        text_of(r) == file_name_of(p@),
{
    let v = parts(p);
    assert(texts_of(v@).len() == v@.len());
    if v.len() == 0 {
        return None;
    }
    let last = v[v.len() - 1].clone();
    assert(texts_of(v@).last() == last@);
    if same(last.as_str(), "..") {
        None
    } else {
        Some(last)
    }
}

/// A path without the slashes and `/.` at its end.
pub open spec fn tidied(p: Seq<char>) -> Seq<char>
    decreases p.len(),
{
    if p.len() > 1 && p.last() == '/' {
        tidied(p.drop_last())
    } else if p.len() > 1 && p.last() == '.' && p[p.len() - 2] == '/' {
        tidied(p.drop_last())
    } else {
        p
    }
}

/// A path without the slashes and `/.` at its end.
pub fn tidy(p: &str) -> (r: String)
    ensures
        r@ == tidied(p@),
{
    let v = crate::text::chars_of(p);
    let mut n: usize = v.len();
    assert(v@.subrange(0, v.len() as int) =~= v@);
    while n > 1 && (v[n - 1] == '/' || (v[n - 1] == '.' && v[n - 2] == '/'))
        invariant
            n <= v.len(),
            v@ == p@,
            tidied(p@) == tidied(v@.subrange(0, n as int)),
        decreases n,
    {
        proof {
            let here = v@.subrange(0, n as int);
            assert(here.last() == v@[n - 1] && here[n - 2] == v@[n - 2]);
            assert(here.drop_last() =~= v@.subrange(0, n - 1));
        }
        n -= 1;
    }
    proof {
        let here = v@.subrange(0, n as int);
        if n > 1 {
            assert(here.last() == v@[n - 1] && here[n - 2] == v@[n - 2]);
        }
    }
    crate::text::piece(&v, 0, n)
}

/// The directory a path is in and its name there. A path without a slash is in
/// no named directory.
pub open spec fn dir_and_name(p: Seq<char>) -> Option<(Seq<char>, Seq<char>)> {
    match rcut(tidied(p), '/') {
        Some(x) => if x.1.len() == 0 || x.1 == ".."@ {
            None
        } else if x.0.len() == 0 {
            Some(("/"@, x.1))
        } else {
            Some(x)
        },
        None => None,
    }
}

/// The directory a path is in and its name there.
pub fn split_dir(p: &str) -> (r: Option<(String, String)>)
    ensures
        crate::text::pair_of(r) == dir_and_name(p@),
{
    match rsplit_once(tidy(p).as_str(), '/') {
        Some(x) => if x.1.as_str().is_empty() || same(x.1.as_str(), "..") {
            None
        } else if x.0.as_str().is_empty() {
            Some(("/".to_string(), x.1))
        } else {
            Some(x)
        },
        None => None,
    }
}

/// **Law.** A path below another stands in it, under its own name; an absolute one
/// stands for itself.
pub proof fn law_a_path_stands_below_another(a: Seq<char>, b: Seq<char>)
    ensures
        begins(b, "/"@) ==> joined(a, b) == b,
        !begins(b, "/"@) ==> begins(joined(a, b), a) && finishes(joined(a, b), b),
        !begins(b, "/"@) && a.len() > 0 && a.last() != '/' ==> joined(a, b) == a + seq!['/'] + b,
        !begins(b, "/"@) && a.len() > 0 && a.last() == '/' ==> joined(a, b) == a + b,
{
    reveal_strlit("/");
    assert("/"@ =~= seq!['/']);
    let j = joined(a, b);
    if !begins(b, "/"@) {
        assert(j.subrange(0, a.len() as int) =~= a);
        assert(j.subrange(j.len() - b.len(), j.len() as int) =~= b);
        if a.len() > 0 {
            assert(a.subrange(a.len() - 1, a.len() as int) =~= seq![a.last()]);
            assert(seq![a.last()][0] == a.last() && seq!['/'][0] == '/');
        }
    }
}

/// **Law.** A path is its directory and its name there: put together again they
/// are the path, but for what says nothing at its end.
pub proof fn law_a_path_is_its_directory_and_name(p: Seq<char>)
    ensures
        dir_and_name(p) matches Some(x) ==> {
            &&& x.1.len() > 0
            &&& !x.1.contains('/')
            &&& x.0 == "/"@ || tidied(p) == x.0 + seq!['/'] + x.1
            &&& x.0 == "/"@ ==> tidied(p) == x.0 + x.1 || tidied(p) == x.0 + seq!['/'] + x.1
        },
{
    reveal_strlit("/");
    assert("/"@ =~= seq!['/']);
    let t = tidied(p);
    crate::text::law_a_text_is_cut_at_its_mark(t, '/');
    if let Some(x) = rcut(t, '/') {
        if x.0.len() == 0 {
            assert(t =~= "/"@ + x.1);
        }
    }
}

} // verus!
