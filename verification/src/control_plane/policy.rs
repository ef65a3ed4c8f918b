//! A VM's egress policy: what a change to it results in, and whether a fleet's
//! signature describes it.

use crate::common::identify::PolicyClaims;
use crate::common::ids::VmId;
use crate::common::network::EgressMode;
use crate::control_plane::error::Error;
use crate::control_plane::types::{egress_name, egress_str};
use crate::text::{
    concat3, decimal, joined, join, push_decimal, quote, quoted, same, same_list, same_option,
    text_of, texts_of,
};
use vstd::prelude::*;
use vstd::string::*;

verus! {

/// An optional text as `None` or `Some("..")`.
pub open spec fn shown_option(o: Option<Seq<char>>) -> Seq<char> {
    match o {
        Some(s) => "Some("@ + quoted(s) + ")"@,
        None => "None"@,
    }
}

/// A list of texts as `["..", ".."]`.
pub open spec fn shown_list(v: Seq<Seq<char>>) -> Seq<char> {
    "["@ + joined(v.map_values(|s: Seq<char>| quoted(s)), ", "@) + "]"@
}

fn show_option(o: &Option<String>) -> (r: String)
    ensures
        r@ == shown_option(text_of(*o)),
{
    match o {
        Some(s) => concat3("Some(", quote(s.as_str()).as_str(), ")"),
        None => "None".to_string(),
    }
}

fn show_list(v: &Vec<String>) -> (r: String)
    ensures
        r@ == shown_list(texts_of(v@)),
{
    let mut q: Vec<String> = Vec::new();
    let mut i: usize = 0;
    while i < v.len()
        invariant
            i <= v.len(),
            q.len() == i,
            forall|k: int| 0 <= k < i ==> (#[trigger] q@[k])@ == quoted(v@[k]@),
        decreases v.len() - i,
    {
        q.push(quote(v[i].as_str()));
        i += 1;
    }
    proof {
        assert(texts_of(q@) =~= texts_of(v@).map_values(|s: Seq<char>| quoted(s)));
    }
    concat3("[", join(&q, ", ").as_str(), "]")
}

/// The policy that a host is about to store for a VM.
pub struct Described {
    pub vm: VmId,
    pub policy_gen: u64,
    pub egress: EgressMode,
    pub principal: Option<String>,
    /// The effective rules: `allow` sugar plus explicit rules, expanded.
    pub effective: Vec<String>,
}

/// Whether claims describe exactly a policy: same VM, generation, mode,
/// principal and effective rules.
pub open spec fn describes(c: PolicyClaims, d: Described) -> bool {
    &&& c.vm@ == d.vm.text()
    &&& c.policy_gen == d.policy_gen
    &&& c.egress@ == egress_name(d.egress)
    &&& text_of(c.principal) == text_of(d.principal)
    &&& texts_of(c.rules@) == texts_of(d.effective@)
}

/// One reason, or none, as a list.
pub open spec fn reason(wrong: bool, text: Seq<char>) -> Seq<Seq<char>> {
    if wrong {
        seq![text]
    } else {
        Seq::empty()
    }
}

/// Every way in which claims fail to describe a policy, in order.
pub open spec fn mismatches(c: PolicyClaims, d: Described) -> Seq<Seq<char>> {
    reason(c.vm@ != d.vm.text(), "it names vm "@ + c.vm@ + " not "@ + d.vm.text()) + reason(
        c.policy_gen != d.policy_gen,
        "it is at generation "@ + decimal(c.policy_gen as nat) + " not "@ + decimal(
            d.policy_gen as nat,
        ),
    ) + reason(
        c.egress@ != egress_name(d.egress),
        "egress "@ + quoted(c.egress@) + " not "@ + quoted(egress_name(d.egress)),
    ) + reason(
        text_of(c.principal) != text_of(d.principal),
        "principal "@ + shown_option(text_of(c.principal)) + " not "@ + shown_option(
            text_of(d.principal),
        ),
    ) + reason(
        texts_of(c.rules@) != texts_of(d.effective@),
        "rules "@ + shown_list(texts_of(c.rules@)) + " not "@ + shown_list(texts_of(d.effective@)),
    )
}

/// All of those reasons in one text.
pub open spec fn joined_mismatches(c: PolicyClaims, d: Described) -> Seq<char> {
    joined(mismatches(c, d), "; "@)
}

proof fn lemma_push_text(v: Seq<String>, s: String)
    ensures
        texts_of(v.push(s)) == texts_of(v).push(s@),
        texts_of(v).push(s@) == texts_of(v) + seq![s@],
{
    assert(texts_of(v.push(s)) =~= texts_of(v).push(s@));
    assert(texts_of(v).push(s@) =~= texts_of(v) + seq![s@]);
}

/// Whether a fleet's signed claims describe exactly the policy this host is
/// about to store. The host cannot check the signature (it holds no key) but it
/// can refuse to file a signature under a policy it does not describe, so what
/// the edge relays and what `identify` answers never disagree.
pub fn check_signed(c: &PolicyClaims, d: &Described) -> (r: Result<(), Error>)
    ensures
        match r {
            Ok(_) => describes(*c, *d),
            Err(e) => {
                &&& !describes(*c, *d)
                &&& e matches Error::SignedMismatch(m)
                &&& m@ == joined_mismatches(*c, *d)
            },
        },
{
    let mut why: Vec<String> = Vec::new();
    let vm = d.vm.to_string();
    proof {
        assert(texts_of(why@) =~= Seq::<Seq<char>>::empty());
    }
    let ghost w0 = why@;
    if !same(c.vm.as_str(), vm.as_str()) {
        let mut s = concat3("it names vm ", c.vm.as_str(), " not ");
        s.append(vm.as_str());
        proof {
            lemma_push_text(why@, s);
        }
        why.push(s);
    }
    let ghost w1 = why@;
    proof {
        assert(texts_of(w1) =~= reason(
            c.vm@ != d.vm.text(),
            "it names vm "@ + c.vm@ + " not "@ + d.vm.text(),
        ));
    }
    if c.policy_gen != d.policy_gen {
        let mut s = "it is at generation ".to_string();
        push_decimal(&mut s, c.policy_gen);
        s.append(" not ");
        push_decimal(&mut s, d.policy_gen);
        proof {
            lemma_push_text(why@, s);
        }
        why.push(s);
    }
    let ghost w2 = why@;
    proof {
        assert(texts_of(w2) =~= texts_of(w1) + reason(
            c.policy_gen != d.policy_gen,
            "it is at generation "@ + decimal(c.policy_gen as nat) + " not "@ + decimal(
                d.policy_gen as nat,
            ),
        ));
    }
    if !same(c.egress.as_str(), egress_str(d.egress)) {
        let mut s = concat3("egress ", quote(c.egress.as_str()).as_str(), " not ");
        s.append(quote(egress_str(d.egress)).as_str());
        proof {
            lemma_push_text(why@, s);
        }
        why.push(s);
    }
    let ghost w3 = why@;
    proof {
        assert(texts_of(w3) =~= texts_of(w2) + reason(
            c.egress@ != egress_name(d.egress),
            "egress "@ + quoted(c.egress@) + " not "@ + quoted(egress_name(d.egress)),
        ));
    }
    if !same_option(&c.principal, &d.principal) {
        let mut s = concat3("principal ", show_option(&c.principal).as_str(), " not ");
        s.append(show_option(&d.principal).as_str());
        proof {
            lemma_push_text(why@, s);
        }
        why.push(s);
    }
    let ghost w4 = why@;
    proof {
        assert(texts_of(w4) =~= texts_of(w3) + reason(
            text_of(c.principal) != text_of(d.principal),
            "principal "@ + shown_option(text_of(c.principal)) + " not "@ + shown_option(
                text_of(d.principal),
            ),
        ));
    }
    if !same_list(&c.rules, &d.effective) {
        let mut s = concat3("rules ", show_list(&c.rules).as_str(), " not ");
        s.append(show_list(&d.effective).as_str());
        proof {
            lemma_push_text(why@, s);
        }
        why.push(s);
    }
    proof {
        assert(texts_of(why@) =~= mismatches(*c, *d));
        assert(why@.len() == texts_of(why@).len());
    }
    if why.len() == 0 {
        Ok(())
    } else {
        Err(Error::SignedMismatch(join(&why, "; ")))
    }
}

/// **Law.** A signature is filed only under the policy it describes: any
/// difference in the VM, the generation, the mode, the principal or the rules is
/// one, and each is said; claims that differ in nothing are not refused.
pub proof fn law_any_difference_is_said(c: PolicyClaims, d: Described)
    ensures
        describes(c, d) <==> mismatches(c, d).len() == 0,
        c.vm@ != d.vm.text() ==> !describes(c, d),
        c.policy_gen != d.policy_gen ==> !describes(c, d),
        c.egress@ != egress_name(d.egress) ==> !describes(c, d),
        text_of(c.principal) != text_of(d.principal) ==> !describes(c, d),
        texts_of(c.rules@) != texts_of(d.effective@) ==> !describes(c, d),
        mismatches(c, d).len() == (if c.vm@ == d.vm.text() {
            0int
        } else {
            1
        }) + (if c.policy_gen == d.policy_gen {
            0int
        } else {
            1
        }) + (if c.egress@ == egress_name(d.egress) {
            0int
        } else {
            1
        }) + (if text_of(c.principal) == text_of(d.principal) {
            0int
        } else {
            1
        }) + (if texts_of(c.rules@) == texts_of(d.effective@) {
            0int
        } else {
            1
        }),
{
}

} // verus!
