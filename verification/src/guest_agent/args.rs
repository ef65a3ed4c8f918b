//! The agent's command line.

use crate::guest_proto::DEFAULT_PORT;
use crate::text::{number, parse_number, same};
use vstd::prelude::*;
use vstd::string::*;

verus! {

/// Where the agent listens: on a vsock port, or on a TCP address instead.
#[derive(Debug)]
pub struct Listen {
    pub port: u32,
    pub tcp: Option<String>,
}

/// Where arguments make the agent listen, starting from what those before them
/// came to; nothing where they are not understood. Of an option given twice, the
/// later counts.
pub open spec fn listens(v: Seq<String>, port: u32, tcp: Option<Seq<char>>) -> Option<
    (u32, Option<Seq<char>>),
>
    decreases v.len(),
{
    if v.len() == 0 {
        Some((port, tcp))
    } else if v.len() == 1 {
        None
    } else if v[0]@ == "--port"@ {
        match number(v[1]@, 10, u32::MAX as int) {
            Some(n) => listens(v.skip(2), n as u32, tcp),
            None => None,
        }
    } else if v[0]@ == "--listen-tcp"@ {
        listens(v.skip(2), port, Some(v[1]@))
    } else {
        None
    }
}

/// Where arguments make the agent listen, or that they are not understood.
pub fn parse_args(args: &Vec<String>) -> (r: Option<Listen>)
    ensures
        match r {
            Some(l) => listens(args@, DEFAULT_PORT, None) == Some(
                (l.port, crate::text::text_of(l.tcp)),
            ),
            None => listens(args@, DEFAULT_PORT, None) is None,
        },
{
    let mut port: u32 = DEFAULT_PORT;
    let mut tcp: Option<String> = None;
    let mut i: usize = 0;
    assert(args@.skip(0) =~= args@);
    proof {
        reveal_strlit("--port");
        reveal_strlit("--listen-tcp");
        assert("--port"@[2] == 'p');
        assert("--listen-tcp"@[2] == 'l');
    }
    while i < args.len()
        invariant
            i <= args.len(),
            "--port"@ != "--listen-tcp"@,
            listens(args@, DEFAULT_PORT, None) == listens(
                args@.skip(i as int),
                port,
                crate::text::text_of(tcp),
            ),
        decreases args.len() - i,
    {
        let ghost here = args@.skip(i as int);
        if args.len() - i == 1 {
            return None;
        }
        proof {
            assert(here[0] == args@[i as int] && here[1] == args@[i + 1]);
            assert(here.skip(2) =~= args@.skip(i + 2));
        }
        if same(args[i].as_str(), "--port") {
            match parse_number(args[i + 1].as_str(), 10, u32::MAX as u64) {
                Some(n) => {
                    port = n as u32;
                },
                None => return None,
            }
        } else if same(args[i].as_str(), "--listen-tcp") {
            tcp = Some(args[i + 1].clone());
        } else {
            return None;
        }
        i += 2;
    }
    assert(args@.skip(i as int) =~= Seq::<String>::empty());
    Some(Listen { port, tcp })
}

/// **Law.** Options may stand in any order, and of one given twice the later
/// counts: what the first ones came to is what the rest start from. Without any
/// the agent listens on its own port.
pub proof fn law_the_later_option_counts(v: Seq<String>, port: u32, tcp: Option<Seq<char>>)
    requires
        v.len() >= 2,
    ensures
        v[0]@ == "--listen-tcp"@ ==> listens(v, port, tcp) == listens(
            v.skip(2),
            port,
            Some(v[1]@),
        ),
        v[0]@ == "--port"@ && number(v[1]@, 10, u32::MAX as int) is Some ==> listens(v, port, tcp)
            == listens(v.skip(2), number(v[1]@, 10, u32::MAX as int)->0 as u32, tcp),
        v[0]@ == "--port"@ && number(v[1]@, 10, u32::MAX as int) is None ==> listens(v, port, tcp)
            is None,
        v[0]@ != "--port"@ && v[0]@ != "--listen-tcp"@ ==> listens(v, port, tcp) is None,
        listens(Seq::empty(), port, tcp) == Some((port, tcp)),
{
    reveal_strlit("--port");
    reveal_strlit("--listen-tcp");
    assert("--port"@.len() == 6);
    assert("--listen-tcp"@.len() == 12);
}

} // verus!
