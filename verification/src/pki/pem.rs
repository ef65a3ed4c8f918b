//! The body of a PEM text, and the errors that reading one can end in.

use crate::codec::{b64_decode, b64_refusal, base64_text, is_base64};
use crate::text::{
    begins, concat2, lines, lines_of, quote, quoted, starts_with, texts_of, trim, trimmed,
};
use vstd::prelude::*;
use vstd::string::*;

verus! {

/// Why a certificate could not be had.
#[derive(Debug)]
pub enum PkiError {
    Io(String),
    Rcgen(String),
    Pem(String),
    Name(String, String),
    NoCaKey(String),
    /// Something to sign has a name in it that cannot be written.
    Unwritable,
}

impl PkiError {
    /// The message of this error.
    pub open spec fn said(self) -> Seq<char> {
        match self {
            PkiError::Io(m) => "io: "@ + m@,
            PkiError::Rcgen(m) => "rcgen: "@ + m@,
            PkiError::Pem(m) => "pem: "@ + m@,
            PkiError::Name(n, why) => "invalid name "@ + quoted(n@) + ": "@ + why@,
            PkiError::NoCaKey(m) => m@,
            PkiError::Unwritable => "it has a name in it that cannot be written"@,
        }
    }

    /// The message of this error.
    pub fn to_string(&self) -> (r: String)
        ensures
            r@ == self.said(),
    {
        match self {
            PkiError::Io(m) => concat2("io: ", m.as_str()),
            PkiError::Rcgen(m) => concat2("rcgen: ", m.as_str()),
            PkiError::Pem(m) => concat2("pem: ", m.as_str()),
            PkiError::Name(n, why) => {
                let mut s = concat2("invalid name ", quote(n.as_str()).as_str());
                s.append(": ");
                s.append(why.as_str());
                s
            },
            PkiError::NoCaKey(m) => m.clone(),
            PkiError::Unwritable => "it has a name in it that cannot be written".to_string(),
        }
    }
}

/// What stands between the first `BEGIN` line and the next `END` line, each line
/// trimmed and nothing between them. A further `BEGIN` line is passed over.
pub open spec fn enclosed(v: Seq<Seq<char>>, inside: bool) -> Seq<char>
    decreases v.len(),
{
    if v.len() == 0 {
        Seq::empty()
    } else if begins(v[0], "-----BEGIN"@) {
        enclosed(v.skip(1), true)
    } else if begins(v[0], "-----END"@) {
        Seq::empty()
    } else if inside {
        trimmed(v[0]) + enclosed(v.skip(1), true)
    } else {
        enclosed(v.skip(1), false)
    }
}

/// The base64 body of a PEM text.
pub open spec fn pem_body(pem: Seq<char>) -> Seq<char> {
    enclosed(lines_of(pem), false)
}

/// Decodes the first block of a PEM text.
pub fn pem_to_der(pem: &str) -> (r: Result<Vec<u8>, PkiError>)
    ensures
        match r {
            Ok(v) => pem_body(pem@) == base64_text(v@) && v@.len() > 0,
            Err(PkiError::Pem(m)) => if pem_body(pem@).len() == 0 {
                m@ == "no PEM block found"@
            } else {
                !is_base64(pem_body(pem@)) && m@ == b64_refusal(pem_body(pem@))
            },
            Err(_) => false,
        },
{
    let v = lines(pem);
    let mut body = String::new();
    let mut inside = false;
    let mut i: usize = 0;
    proof {
        assert(texts_of(v@).skip(0) =~= texts_of(v@));
    }
    while i < v.len()
        invariant_except_break
            i <= v.len(),
            body@ + enclosed(texts_of(v@).skip(i as int), inside) =~= pem_body(pem@),
        invariant
            texts_of(v@) == lines_of(pem@),
        ensures
            body@ =~= pem_body(pem@),
        decreases v.len() - i,
    {
        let ghost rest = texts_of(v@).skip(i as int);
        proof {
            assert(rest[0] == v@[i as int]@);
            assert(rest.skip(1) =~= texts_of(v@).skip(i + 1));
        }
        if starts_with(v[i].as_str(), "-----BEGIN") {
            inside = true;
        } else if starts_with(v[i].as_str(), "-----END") {
            break;
        } else if inside {
            let t = trim(v[i].as_str());
            body.append(t.as_str());
        }
        i += 1;
    }
    if body.as_str().is_empty() {
        return Err(PkiError::Pem("no PEM block found".to_string()));
    }
    match b64_decode(body.as_str()) {
        Ok(d) => {
            proof {
                if d@.len() == 0 {
                    assert(base64_text(d@).len() == 0);
                }
            }
            Ok(d)
        },
        Err(e) => Err(PkiError::Pem(e)),
    }
}

/// The lines that are no boundary, one after the other.
pub open spec fn unbounded(v: Seq<Seq<char>>) -> Seq<char>
    decreases v.len(),
{
    if v.len() == 0 {
        Seq::empty()
    } else if begins(v[0], "-----"@) {
        unbounded(v.skip(1))
    } else {
        v[0] + unbounded(v.skip(1))
    }
}

/// Decodes a PEM text of one block: whatever is no boundary line is its body.
pub fn single_pem_to_der(pem: &str) -> (r: Result<Vec<u8>, PkiError>)
    ensures
        match r {
            Ok(v) => trimmed(unbounded(lines_of(pem@))) == base64_text(v@),
            Err(PkiError::Pem(m)) => !is_base64(trimmed(unbounded(lines_of(pem@)))) && m@
                == b64_refusal(trimmed(unbounded(lines_of(pem@)))),
            Err(_) => false,
        },
{
    let v = lines(pem);
    let mut body = String::new();
    let mut i: usize = 0;
    proof {
        assert(texts_of(v@).skip(0) =~= texts_of(v@));
    }
    while i < v.len()
        invariant
            i <= v.len(),
            texts_of(v@) == lines_of(pem@),
            body@ + unbounded(texts_of(v@).skip(i as int)) =~= unbounded(lines_of(pem@)),
        decreases v.len() - i,
    {
        let ghost rest = texts_of(v@).skip(i as int);
        proof {
            assert(rest[0] == v@[i as int]@);
            assert(rest.skip(1) =~= texts_of(v@).skip(i + 1));
        }
        if !starts_with(v[i].as_str(), "-----") {
            body.append(v[i].as_str());
        }
        i += 1;
    }
    proof {
        assert(body@ =~= unbounded(lines_of(pem@)));
    }
    let t = trim(body.as_str());
    match b64_decode(t.as_str()) {
        Ok(d) => Ok(d),
        Err(e) => Err(PkiError::Pem(e)),
    }
}

/// Lines one after the other, each trimmed.
pub open spec fn run_on(v: Seq<Seq<char>>) -> Seq<char>
    decreases v.len(),
{
    if v.len() == 0 {
        Seq::empty()
    } else {
        trimmed(v[0]) + run_on(v.skip(1))
    }
}

proof fn lemma_inside(body: Seq<Seq<char>>, rest: Seq<Seq<char>>)
    requires
        forall|i: int| 0 <= i < body.len() ==> !begins(#[trigger] body[i], "-----"@),
        rest.len() > 0,
        begins(rest[0], "-----END"@),
    ensures
        enclosed(body + rest, true) == run_on(body),
    decreases body.len(),
{
    reveal_strlit("-----");
    reveal_strlit("-----BEGIN");
    reveal_strlit("-----END");
    let v = body + rest;
    if body.len() == 0 {
        assert(v =~= rest);
        if begins(rest[0], "-----BEGIN"@) {
            assert(rest[0].subrange(0, 8)[5] == rest[0].subrange(0, 10)[5]);
            assert("-----BEGIN"@[5] == 'B' && "-----END"@[5] == 'E');
        }
    } else {
        assert(v[0] == body[0]);
        lemma_not_a_bound(body[0]);
        assert(v.skip(1) =~= body.skip(1) + rest);
        assert forall|i: int| 0 <= i < body.skip(1).len() implies !begins(
            #[trigger] body.skip(1)[i],
            "-----"@,
        ) by {
            assert(body.skip(1)[i] == body[i + 1]);
        }
        lemma_inside(body.skip(1), rest);
    }
}

proof fn lemma_not_a_bound(s: Seq<char>)
    requires
        !begins(s, "-----"@),
    ensures
        !begins(s, "-----BEGIN"@),
        !begins(s, "-----END"@),
{
    reveal_strlit("-----");
    reveal_strlit("-----BEGIN");
    reveal_strlit("-----END");
    if begins(s, "-----BEGIN"@) {
        assert(s.subrange(0, 5) =~= s.subrange(0, 10).subrange(0, 5));
        assert("-----BEGIN"@.subrange(0, 5) =~= "-----"@);
    }
    if begins(s, "-----END"@) {
        assert(s.subrange(0, 5) =~= s.subrange(0, 8).subrange(0, 5));
        assert("-----END"@.subrange(0, 5) =~= "-----"@);
    }
}

/// **Law.** The first block of a text is read, and of it what stands between its
/// bounds: whatever stands before it, and whatever follows it, does not count.
pub proof fn law_the_first_block_is_read(
    before: Seq<Seq<char>>,
    begin: Seq<char>,
    body: Seq<Seq<char>>,
    rest: Seq<Seq<char>>,
)
    requires
        forall|i: int| 0 <= i < before.len() ==> !begins(#[trigger] before[i], "-----"@),
        forall|i: int| 0 <= i < body.len() ==> !begins(#[trigger] body[i], "-----"@),
        begins(begin, "-----BEGIN"@),
        rest.len() > 0,
        begins(rest[0], "-----END"@),
    ensures
        enclosed(before + seq![begin] + body + rest, false) == run_on(body),
    decreases before.len(),
{
    let v = before + seq![begin] + body + rest;
    if before.len() == 0 {
        assert(v[0] == begin);
        assert(v.skip(1) =~= body + rest);
        lemma_inside(body, rest);
    } else {
        assert(v[0] == before[0]);
        lemma_not_a_bound(before[0]);
        assert(v.skip(1) =~= before.skip(1) + seq![begin] + body + rest);
        assert forall|i: int| 0 <= i < before.skip(1).len() implies !begins(
            #[trigger] before.skip(1)[i],
            "-----"@,
        ) by {
            assert(before.skip(1)[i] == before[i + 1]);
        }
        law_the_first_block_is_read(before.skip(1), begin, body, rest);
    }
}

} // verus!
