//! Who a command runs as: a name or a uid, looked up in the guest's own passwd
//! database.

use crate::text::{
    decimal, decimal_text, law_a_written_number_is_read_back, number, parse_number,
};
use vstd::prelude::*;
use vstd::string::*;

verus! {

/// A resolved account.
#[derive(Debug, PartialEq, Eq)]
pub struct Account {
    pub name: String,
    pub uid: u32,
    pub gid: u32,
    pub home: String,
}

/// What to look up in the passwd database.
#[derive(Clone, Copy, Debug, PartialEq, Eq, Structural)]
pub enum Lookup {
    Uid(u32),
    Name,
}

/// The uid that `who` is, if it is a decimal uid and no name.
pub open spec fn uid_of(who: Seq<char>) -> Option<int> {
    number(who, 10, u32::MAX as int)
}

/// What to look up for `who`: the entry of a uid, or else of the name.
pub fn lookup(who: &str) -> (l: Lookup)
    ensures
        match l {
            Lookup::Uid(n) => uid_of(who@) == Some(n as int),
            Lookup::Name => uid_of(who@) is None,
        },
{
    match parse_number(who, 10, u32::MAX as u64) {
        Some(n) => Lookup::Uid(n as u32),
        None => Lookup::Name,
    }
}

/// Whether `r` is who `who` is, with the entry that was found.
pub open spec fn resolves(
    who: Seq<char>,
    found: Option<Account>,
    r: Result<Account, String>,
) -> bool {
    match found {
        Some(a) => r == Ok::<Account, String>(a),
        None => match uid_of(who) {
            Some(n) => {
                &&& r matches Ok(a)
                &&& a.name@ == decimal(n as nat)
                &&& a.uid == n
                &&& a.gid == n
                &&& a.home@ == "/"@
            },
            None => r matches Err(m) && m@ == "no such user"@,
        },
    }
}

/// Resolve `who`: a name, or a decimal uid; `found` is the entry that its
/// [`lookup`] gave. A uid with no passwd entry is accepted as is (gid = uid,
/// home `/`).
pub fn resolve(who: &str, found: Option<Account>) -> (r: Result<Account, String>)
    ensures
        resolves(who@, found, r),
{
    match found {
        Some(a) => Ok(a),
        None => match lookup(who) {
            Lookup::Uid(uid) => Ok(
                Account { name: decimal_text(uid as u64), uid, gid: uid, home: "/".to_string() },
            ),
            Lookup::Name => Err("no such user".to_string()),
        },
    }
}

/// **Law.** The guest's own entry counts where there is one. Without one a uid is
/// taken as it is, with the group of the same number, and a name is nobody's.
pub proof fn law_a_uid_needs_no_entry(uid: u32, r: Result<Account, String>, who: Seq<char>)
    ensures
        resolves(decimal(uid as nat), None, r) ==> r is Ok && r->Ok_0.uid == uid && r->Ok_0.gid
            == uid && r->Ok_0.home@ == "/"@,
        number(who, 10, u32::MAX as int) is None && resolves(who, None, r) ==> r is Err,
        forall|a: Account|
            #[trigger] resolves(who, Some(a), r) ==> r == Ok::<Account, String>(a),
{
    law_a_written_number_is_read_back(uid as nat, u32::MAX as int);
}

} // verus!
