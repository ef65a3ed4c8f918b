//! Base64 (RFC 4648, standard alphabet, padded): a lenient codec of its own for
//! the command line, and the strict one that the agent and the PKI use.

use crate::text::{digit, digit_char};
use base64::Engine as _;
use vstd::prelude::*;
use vstd::string::*;
use vstd::utf8::*;

verus! {

/// The symbol for a six-bit value.
pub open spec fn symbol(v: int) -> char {
    if v < 26 {
        ('A' as int + v) as char
    } else if v < 52 {
        ('a' as int + v - 26) as char
    } else if v < 62 {
        ('0' as int + v - 52) as char
    } else if v == 62 {
        '+'
    } else {
        '/'
    }
}

/// One to three bytes as a 24-bit number, missing bytes as zero.
pub open spec fn packed(b: Seq<u8>) -> int {
    b[0] as int * 65536 + (if b.len() > 1 {
        b[1] as int * 256
    } else {
        0
    }) + (if b.len() > 2 {
        b[2] as int
    } else {
        0
    })
}

/// The four characters for one to three bytes.
pub open spec fn quad(b: Seq<u8>) -> Seq<char> {
    let n = packed(b);
    seq![
        symbol(n / 262144),
        symbol((n / 4096) % 64),
        if b.len() > 1 {
            symbol((n / 64) % 64)
        } else {
            '='
        },
        if b.len() > 2 {
            symbol(n % 64)
        } else {
            '='
        },
    ]
}

/// The base64 form of `b`: four characters for every three bytes, and for what
/// is left over.
pub open spec fn base64_text(b: Seq<u8>) -> Seq<char>
    decreases b.len(),
{
    if b.len() == 0 {
        Seq::empty()
    } else if b.len() <= 3 {
        quad(b)
    } else {
        quad(b.subrange(0, 3)) + base64_text(b.subrange(3, b.len() as int))
    }
}

/// Whether `s` is the base64 form of some bytes.
pub open spec fn is_base64(s: Seq<char>) -> bool {
    exists|b: Seq<u8>| s == #[trigger] base64_text(b)
}

fn symbol_of(v: u32) -> (c: char)
    requires
        v < 64,
    ensures
        c == symbol(v as int),
{
    let x: u8 = v as u8;
    if x < 26 {
        (65 + x) as char
    } else if x < 52 {
        (97 + (x - 26)) as char
    } else if x < 62 {
        (48 + (x - 52)) as char
    } else if x == 62 {
        '+'
    } else {
        '/'
    }
}

/// Encodes bytes as base64.
pub fn base64_encode(input: &[u8]) -> (s: String)
    ensures
        s@ == base64_text(input@),
{
    let mut out = String::new();
    let mut i: usize = 0;
    let ghost all = input@;
    assert(all.subrange(0, all.len() as int) =~= all);
    while i < input.len()
        invariant
            i <= input.len(),
            all == input@,
            base64_text(all) == out@ + base64_text(all.subrange(i as int, all.len() as int)),
        decreases input.len() - i,
    {
        let left: usize = input.len() - i;
        let b0: u32 = input[i] as u32;
        let b1: u32 = if left > 1 {
            input[i + 1] as u32
        } else {
            0
        };
        let b2: u32 = if left > 2 {
            input[i + 2] as u32
        } else {
            0
        };
        let n: u32 = b0 * 65536 + b1 * 256 + b2;
        let ghost had = out@;
        out.push(symbol_of(n / 262144));
        out.push(symbol_of((n / 4096) % 64));
        out.push(
            if left > 1 {
                symbol_of((n / 64) % 64)
            } else {
                '='
            },
        );
        out.push(
            if left > 2 {
                symbol_of(n % 64)
            } else {
                '='
            },
        );
        let next: usize = if left > 3 {
            i + 3
        } else {
            input.len()
        };
        proof {
            let rest = all.subrange(i as int, all.len() as int);
            let chunk = if left > 3 {
                rest.subrange(0, 3)
            } else {
                rest
            };
            assert(packed(chunk) == n);
            assert(out@ =~= had + quad(chunk));
            if left > 3 {
                assert(rest.subrange(3, rest.len() as int) =~= all.subrange(
                    next as int,
                    all.len() as int,
                ));
                assert(had + (quad(chunk) + base64_text(rest.subrange(3, rest.len() as int)))
                    =~= out@ + base64_text(all.subrange(next as int, all.len() as int)));
            } else {
                assert(all.subrange(next as int, all.len() as int) =~= Seq::<u8>::empty());
                assert(had + quad(chunk) =~= out@ + Seq::<char>::empty());
            }
        }
        i = next;
    }
    proof {
        assert(all.subrange(i as int, all.len() as int) =~= Seq::<u8>::empty());
        assert(out@ + Seq::<char>::empty() =~= out@);
    }
    out
}

// ---- the lenient decoder ----

/// The six-bit value that a byte stands for.
pub open spec fn sextet(c: u8) -> Option<int> {
    if 65 <= c <= 90 {
        Some(c - 65)
    } else if 97 <= c <= 122 {
        Some(c - 97 + 26)
    } else if 48 <= c <= 57 {
        Some(c - 48 + 52)
    } else if c == 43 {
        Some(62)
    } else if c == 47 {
        Some(63)
    } else {
        None
    }
}

/// Whether a byte is padding or a line break, which the decoder passes over.
pub open spec fn passed_over(c: u8) -> bool {
    c == 61 || c == 10 || c == 13
}

/// The six-bit values of a text, in order, without what is passed over.
pub open spec fn sextets(b: Seq<u8>) -> Seq<int>
    decreases b.len(),
{
    if b.len() == 0 {
        Seq::empty()
    } else {
        let rest = sextets(b.drop_last());
        match sextet(b.last()) {
            Some(v) => rest.push(v),
            None => rest,
        }
    }
}

/// The first byte that is neither a symbol nor passed over.
pub open spec fn first_bad(b: Seq<u8>) -> Option<u8>
    decreases b.len(),
{
    if b.len() == 0 {
        None
    } else {
        match first_bad(b.drop_last()) {
            Some(c) => Some(c),
            None => if sextet(b.last()) is None && !passed_over(b.last()) {
                Some(b.last())
            } else {
                None
            },
        }
    }
}

/// Byte `i` of the bits that six-bit values hold one after another.
pub open spec fn byte_of(q: Seq<int>, i: int) -> u8 {
    let j = (i / 3) * 4 + i % 3;
    let pair = q[j] * 64 + q[j + 1];
    (if i % 3 == 0 {
        (pair / 16) % 256
    } else if i % 3 == 1 {
        (pair / 4) % 256
    } else {
        pair % 256
    }) as u8
}

/// The whole bytes that six-bit values hold; bits left over are dropped.
pub open spec fn bytes_of(q: Seq<int>) -> Seq<u8> {
    Seq::new((q.len() * 6 / 8) as nat, |i: int| byte_of(q, i))
}

/// The bits left over after the whole bytes.
pub open spec fn left_over(q: Seq<int>) -> int {
    let k = q.len() % 4;
    if k == 0 {
        0
    } else if k == 1 {
        q.last()
    } else if k == 2 {
        q.last() % 16
    } else {
        q.last() % 4
    }
}

/// A byte as `0x` and its hex digits, without a leading zero.
pub open spec fn hex_shown(c: u8) -> Seq<char> {
    if c < 16 {
        "0x"@.push(digit_char(c as int))
    } else {
        "0x"@.push(digit_char(c as int / 16)).push(digit_char(c as int % 16))
    }
}

fn sextet_of(c: u8) -> (r: Option<u32>)
    ensures
        match r {
            Some(v) => sextet(c) == Some(v as int) && v < 64,
            None => sextet(c) is None,
        },
{
    if 65 <= c && c <= 90 {
        Some((c - 65) as u32)
    } else if 97 <= c && c <= 122 {
        Some((c - 97 + 26) as u32)
    } else if 48 <= c && c <= 57 {
        Some((c - 48 + 52) as u32)
    } else if c == 43 {
        Some(62)
    } else if c == 47 {
        Some(63)
    } else {
        None
    }
}

/// Adding one value to the stream adds a byte exactly when eight bits are there.
proof fn lemma_one_more(q: Seq<int>, v: int)
    requires
        0 <= v < 64,
        forall|i: int| 0 <= i < q.len() ==> 0 <= #[trigger] q[i] < 64,
    ensures
        ({
            let acc = left_over(q) * 64 + v;
            let k = q.len() % 4;
            let q2 = q.push(v);
            &&& 0 <= left_over(q)
            &&& k == 0 ==> left_over(q2) == acc && acc < 64 && bytes_of(q2) == bytes_of(q)
            &&& k == 1 ==> left_over(q2) == acc % 16 && acc < 4096 && bytes_of(q2) == bytes_of(
                q,
            ).push((acc / 16) as u8) && acc / 16 < 256
            &&& k == 2 ==> left_over(q2) == acc % 4 && acc < 1024 && bytes_of(q2) == bytes_of(
                q,
            ).push((acc / 4) as u8) && acc / 4 < 256
            &&& k == 3 ==> left_over(q2) == 0 && acc < 256 && bytes_of(q2) == bytes_of(q).push(
                acc as u8,
            )
        }),
{
    let q2 = q.push(v);
    let m = q.len() as int;
    let k = m % 4;
    let n = m * 6 / 8;
    assert forall|i: int| 0 <= i < n implies byte_of(q2, i) == byte_of(q, i) by {
        let j = (i / 3) * 4 + i % 3;
        lemma_index_in_range(m, i);
        assert(q2[j] == q[j] && q2[j + 1] == q[j + 1]);
    }
    lemma_next_index(m);
    if k == 0 {
        assert(bytes_of(q2) =~= bytes_of(q));
    } else {
        let x = q[m - 1];
        assert(0 <= x < 64);
        lemma_pair(x, v);
        assert(q2[m - 1] == x && q2[m] == v);
        assert(bytes_of(q2) =~= bytes_of(q).push(byte_of(q2, n)));
    }
}

proof fn lemma_index_in_range(m: int, i: int)
    requires
        0 <= i < m * 6 / 8,
    ensures
        0 <= (i / 3) * 4 + i % 3,
        (i / 3) * 4 + i % 3 + 1 < m,
{
}

proof fn lemma_next_index(m: int)
    requires
        m >= 0,
    ensures
        m % 4 == 0 ==> (m + 1) * 6 / 8 == m * 6 / 8,
        m % 4 != 0 ==> (m + 1) * 6 / 8 == m * 6 / 8 + 1,
        m % 4 != 0 ==> ((m * 6 / 8) / 3) * 4 + (m * 6 / 8) % 3 == m - 1,
        m % 4 != 0 ==> (m * 6 / 8) % 3 == m % 4 - 1,
{
    let a = m / 4;
    let k = m % 4;
    assert(m == 4 * a + k);
    assert(m * 6 / 8 == 3 * a + k * 6 / 8);
}

proof fn lemma_pair(x: int, v: int)
    requires
        0 <= x < 64,
        0 <= v < 64,
    ensures
        ((x * 64 + v) / 16) % 256 == (x * 64 + v) / 16,
        (x * 64 + v) / 16 < 256,
        ((x * 64 + v) / 4) % 256 == ((x % 16) * 64 + v) / 4,
        ((x % 16) * 64 + v) / 4 < 256,
        (x % 16) * 64 + v < 1024,
        (x * 64 + v) % 256 == (x % 4) * 64 + v,
        (x % 4) * 64 + v < 256,
        x * 64 + v < 4096,
{
    let (c, w) = (v / 4, v % 4);
    vstd::arithmetic::div_mod::lemma_fundamental_div_mod_converse(x * 64 + v, 4, 16 * x + c, w);
    vstd::arithmetic::div_mod::lemma_fundamental_div_mod_converse(
        (x % 16) * 64 + v,
        4,
        16 * (x % 16) + c,
        w,
    );
    vstd::arithmetic::div_mod::lemma_fundamental_div_mod_converse(
        16 * x + c,
        256,
        x / 16,
        16 * (x % 16) + c,
    );
    vstd::arithmetic::div_mod::lemma_fundamental_div_mod_converse(
        x * 64 + v,
        256,
        x / 4,
        (x % 4) * 64 + v,
    );
    vstd::arithmetic::div_mod::lemma_fundamental_div_mod_converse(
        x * 64 + v,
        16,
        4 * x + v / 16,
        v % 16,
    );
    vstd::arithmetic::div_mod::lemma_small_mod((4 * x + v / 16) as nat, 256);
}

/// Decodes base64, passing over padding and line breaks wherever they stand and
/// dropping bits left over at the end. Any other byte is an error.
pub fn base64_decode(input: &str) -> (r: Result<Vec<u8>, String>)
    ensures
        match r {
            Ok(v) => first_bad(input.spec_bytes()) is None && v@ == bytes_of(
                sextets(input.spec_bytes()),
            ),
            Err(m) => first_bad(input.spec_bytes()) matches Some(c) && m@
                == "invalid base64 byte "@ + hex_shown(c),
        },
{
    let b = input.as_bytes();
    let mut out: Vec<u8> = Vec::new();
    let mut acc: u32 = 0;
    let mut bits: u32 = 0;
    let mut i: usize = 0;
    let ghost q: Seq<int> = Seq::empty();
    assert(b@.subrange(0, 0) =~= Seq::<u8>::empty());
    assert(bytes_of(q) =~= Seq::<u8>::empty());
    while i < b.len()
        invariant
            i <= b.len(),
            b@ == input.spec_bytes(),
            q == sextets(b@.subrange(0, i as int)),
            first_bad(b@.subrange(0, i as int)) is None,
            forall|k: int| 0 <= k < q.len() ==> 0 <= #[trigger] q[k] < 64,
            out@ == bytes_of(q),
            acc == left_over(q),
            bits == (q.len() * 6) % 8,
        decreases b.len() - i,
    {
        let c: u8 = b[i];
        proof {
            let next = b@.subrange(0, i + 1);
            assert(next.drop_last() =~= b@.subrange(0, i as int));
            assert(next.last() == c);
        }
        match sextet_of(c) {
            Some(v) => {
                proof {
                    lemma_one_more(q, v as int);
                    q = q.push(v as int);
                }
                acc = acc * 64 + v;
                bits += 6;
                if bits == 12 {
                    out.push((acc / 16) as u8);
                    acc = acc % 16;
                    bits = 4;
                } else if bits == 10 {
                    out.push((acc / 4) as u8);
                    acc = acc % 4;
                    bits = 2;
                } else if bits == 8 {
                    out.push(acc as u8);
                    acc = 0;
                    bits = 0;
                }
            },
            None => {
                if !(c == 61 || c == 10 || c == 13) {
                    let mut m = "invalid base64 byte ".to_string();
                    m.append("0x");
                    if c >= 16 {
                        m.push(digit(c / 16));
                    }
                    m.push(digit(c % 16));
                    proof {
                        lemma_first_bad_stays(b@, i + 1);
                        if c >= 16 {
                            assert(m@ =~= "invalid base64 byte "@ + hex_shown(c));
                        } else {
                            assert(c as int % 16 == c as int);
                            assert(m@ =~= "invalid base64 byte "@ + hex_shown(c));
                        }
                    }
                    return Err(m);
                }
            },
        }
        i += 1;
    }
    assert(b@.subrange(0, b.len() as int) =~= b@);
    Ok(out)
}

proof fn lemma_first_bad_stays(b: Seq<u8>, n: int)
    requires
        0 <= n <= b.len(),
        first_bad(b.subrange(0, n)) is Some,
    ensures
        first_bad(b) == first_bad(b.subrange(0, n)),
    decreases b.len(),
{
    if n == b.len() {
        assert(b.subrange(0, n) =~= b);
    } else {
        assert(b.drop_last().subrange(0, n) =~= b.subrange(0, n));
        lemma_first_bad_stays(b.drop_last(), n);
    }
}

// ---- decoding gives back what was encoded ----

/// The byte of an ASCII character.
pub open spec fn ascii_bytes(s: Seq<char>) -> Seq<u8> {
    Seq::new(s.len(), |i: int| s[i] as u8)
}

proof fn lemma_symbol(v: int)
    requires
        0 <= v < 64,
    ensures
        sextet(symbol(v) as u8) == Some(v),
        (symbol(v) as u32) < 128,
{
}

proof fn lemma_sextets_concat(a: Seq<u8>, b: Seq<u8>)
    ensures
        sextets(a + b) == sextets(a) + sextets(b),
        first_bad(a) is None && first_bad(b) is None ==> first_bad(a + b) is None,
    decreases b.len(),
{
    if b.len() == 0 {
        assert(a + b =~= a);
        assert(sextets(a) + Seq::<int>::empty() =~= sextets(a));
    } else {
        lemma_sextets_concat(a, b.drop_last());
        assert((a + b).drop_last() =~= a + b.drop_last());
        assert((a + b).last() == b.last());
        match sextet(b.last()) {
            Some(v) => {
                assert((sextets(a) + sextets(b.drop_last())).push(v) =~= sextets(a) + sextets(
                    b.drop_last(),
                ).push(v));
            },
            None => {},
        }
    }
}

proof fn lemma_quad(b: Seq<u8>)
    requires
        1 <= b.len() <= 3,
    ensures
        ({
            let t = ascii_bytes(quad(b));
            let n = packed(b);
            &&& first_bad(t) is None
            &&& sextets(t) == seq![n / 262144, (n / 4096) % 64] + (if b.len() > 1 {
                seq![(n / 64) % 64]
            } else {
                Seq::empty()
            }) + (if b.len() > 2 {
                seq![n % 64]
            } else {
                Seq::empty()
            })
            &&& is_ascii_chars(quad(b))
        }),
{
    let n = packed(b);
    let t = ascii_bytes(quad(b));
    let c0 = symbol(n / 262144);
    let c1 = symbol((n / 4096) % 64);
    let c2 = quad(b)[2];
    let c3 = quad(b)[3];
    lemma_symbol(n / 262144);
    lemma_symbol((n / 4096) % 64);
    lemma_symbol((n / 64) % 64);
    lemma_symbol(n % 64);
    let t0 = Seq::<u8>::empty();
    let t1 = t0.push(c0 as u8);
    let t2 = t1.push(c1 as u8);
    let t3 = t2.push(c2 as u8);
    let t4 = t3.push(c3 as u8);
    lemma_sextets_push(t0, c0 as u8);
    lemma_sextets_push(t1, c1 as u8);
    lemma_sextets_push(t2, c2 as u8);
    lemma_sextets_push(t3, c3 as u8);
    assert(t =~= t4);
    assert('=' as u8 == 61);
    assert(sextets(t2) =~= seq![n / 262144, (n / 4096) % 64]);
    if b.len() > 1 {
        assert(c2 == symbol((n / 64) % 64));
    } else {
        assert(c2 == '=');
    }
    if b.len() > 2 {
        assert(c3 == symbol(n % 64));
    } else {
        assert(c3 == '=');
    }
    assert(sextets(t) =~= seq![n / 262144, (n / 4096) % 64] + (if b.len() > 1 {
        seq![(n / 64) % 64]
    } else {
        Seq::empty()
    }) + (if b.len() > 2 {
        seq![n % 64]
    } else {
        Seq::empty()
    }));
    assert forall|i: int| 0 <= i < 4 implies '\0' <= #[trigger] quad(b)[i] <= '\u{7f}' by {
        assert(quad(b)[0] == c0 && quad(b)[1] == c1);
    }
}

proof fn lemma_sextets_push(s: Seq<u8>, c: u8)
    ensures
        sextets(s.push(c)) == (match sextet(c) {
            Some(v) => sextets(s).push(v),
            None => sextets(s),
        }),
        first_bad(s) is None && (sextet(c) is Some || passed_over(c)) ==> first_bad(s.push(c)) is None,
{
    assert(s.push(c).drop_last() =~= s);
    assert(s.push(c).last() == c);
}

/// The three bytes of a 24-bit number, from its four six-bit parts.
#[verifier::spinoff_prover]
proof fn lemma_unpack(b0: int, b1: int, b2: int)
    requires
        0 <= b0 < 256,
        0 <= b1 < 256,
        0 <= b2 < 256,
    ensures
        ({
            let n = b0 * 65536 + b1 * 256 + b2;
            let q0 = n / 262144;
            let q1 = (n / 4096) % 64;
            let q2 = (n / 64) % 64;
            let q3 = n % 64;
            &&& ((q0 * 64 + q1) / 16) % 256 == b0
            &&& ((q1 * 64 + q2) / 4) % 256 == b1
            &&& (q2 * 64 + q3) % 256 == b2
        }),
{
    let n = b0 * 65536 + b1 * 256 + b2;
    let (a, x) = (b0 / 4, b0 % 4);
    let (c, y) = (b1 / 16, b1 % 16);
    let (d, z) = (b2 / 64, b2 % 64);
    let (q0, q1, q2, q3) = (a, 16 * x + c, 4 * y + d, z);
    lemma_divided(n, 262144, a, 65536 * x + 4096 * c + 256 * y + 64 * d + z);
    lemma_divided(n, 4096, 64 * a + 16 * x + c, 256 * y + 64 * d + z);
    lemma_divided(64 * a + 16 * x + c, 64, a, 16 * x + c);
    lemma_divided(n, 64, 4096 * a + 1024 * x + 64 * c + 4 * y + d, z);
    lemma_divided(
        4096 * a + 1024 * x + 64 * c + 4 * y + d,
        64,
        64 * a + 16 * x + c,
        4 * y + d,
    );
    lemma_divided(q0 * 64 + q1, 16, 4 * a + x, c);
    lemma_divided(4 * a + x, 256, 0, 4 * a + x);
    lemma_divided(q1 * 64 + q2, 4, 256 * x + 16 * c + y, d);
    lemma_divided(256 * x + 16 * c + y, 256, x, 16 * c + y);
    lemma_divided(q2 * 64 + q3, 256, y, 64 * d + z);
}

proof fn lemma_divided(n: int, m: int, q: int, r: int)
    requires
        m > 0,
        0 <= r < m,
        n == q * m + r,
    ensures
        n / m == q,
        n % m == r,
{
    vstd::arithmetic::div_mod::lemma_fundamental_div_mod_converse(n, m, q, r);
}

proof fn lemma_quad_back(b: Seq<u8>)
    requires
        1 <= b.len() <= 3,
    ensures
        bytes_of(sextets(ascii_bytes(quad(b)))) == b,
{
    lemma_quad(b);
    let q = sextets(ascii_bytes(quad(b)));
    let b0 = b[0] as int;
    let b1 = if b.len() > 1 {
        b[1] as int
    } else {
        0
    };
    let b2 = if b.len() > 2 {
        b[2] as int
    } else {
        0
    };
    assert(packed(b) == b0 * 65536 + b1 * 256 + b2);
    lemma_unpack(b0, b1, b2);
    let n = packed(b);
    assert(q[0] == n / 262144 && q[1] == (n / 4096) % 64);
    assert(byte_of(q, 0) == b[0]);
    if b.len() > 1 {
        assert(q[2] == (n / 64) % 64);
        assert(byte_of(q, 1) == b[1]);
    }
    if b.len() > 2 {
        assert(q[3] == n % 64);
        assert(byte_of(q, 2) == b[2]);
    }
    assert(bytes_of(q) =~= b);
}

proof fn lemma_bytes_concat(a: Seq<int>, b: Seq<int>)
    requires
        a.len() == 4,
    ensures
        bytes_of(a + b) == bytes_of(a) + bytes_of(b),
{
    let c = a + b;
    assert(((4 + b.len()) * 6 / 8) as int == 3 + (b.len() * 6 / 8) as int);
    assert forall|i: int| 0 <= i < bytes_of(c).len() implies #[trigger] bytes_of(c)[i] == (
    bytes_of(a) + bytes_of(b))[i] by {
        if i < 3 {
            assert(c[i] == a[i] && c[i + 1] == a[i + 1]);
        } else {
            let k = i - 3;
            let j = (k / 3) * 4 + k % 3;
            assert(i / 3 == k / 3 + 1 && i % 3 == k % 3);
            assert(c[j + 4] == b[j] && c[j + 5] == b[j + 1]);
        }
    }
    assert(bytes_of(c) =~= bytes_of(a) + bytes_of(b));
}

proof fn lemma_round_trip(b: Seq<u8>)
    ensures
        bytes_of(sextets(ascii_bytes(base64_text(b)))) == b,
        first_bad(ascii_bytes(base64_text(b))) is None,
        is_ascii_chars(base64_text(b)),
    decreases b.len(),
{
    if b.len() == 0 {
        assert(ascii_bytes(base64_text(b)) =~= Seq::<u8>::empty());
        assert(bytes_of(Seq::<int>::empty()) =~= b);
    } else if b.len() <= 3 {
        lemma_quad(b);
        lemma_quad_back(b);
    } else {
        let h = b.subrange(0, 3);
        let t = b.subrange(3, b.len() as int);
        lemma_quad(h);
        lemma_quad_back(h);
        lemma_round_trip(t);
        let x = ascii_bytes(quad(h));
        let y = ascii_bytes(base64_text(t));
        assert(ascii_bytes(base64_text(b)) =~= x + y);
        lemma_sextets_concat(x, y);
        lemma_bytes_concat(sextets(x), sextets(y));
        assert(h + t =~= b);
        is_ascii_chars_concat(base64_text(b), quad(h), base64_text(t));
    }
}

/// **Law.** Decoding the base64 form of any bytes gives those bytes back: the
/// form holds nothing that the decoder rejects, and its bits are theirs.
pub proof fn law_base64_round_trips(b: Seq<u8>)
    ensures
        first_bad(encode_utf8(base64_text(b))) is None,
        bytes_of(sextets(encode_utf8(base64_text(b)))) == b,
{
    lemma_round_trip(b);
    let s = base64_text(b);
    lemma_ascii_bytes(s);
}

proof fn lemma_ascii_bytes(s: Seq<char>)
    requires
        is_ascii_chars(s),
    ensures
        encode_utf8(s) == ascii_bytes(s),
{
    is_ascii_chars_encode_utf8(s);
    let e = encode_utf8(s);
    assert forall|i: int| 0 <= i < s.len() implies e[i] == #[trigger] ascii_bytes(s)[i] by {
        assert(s[i] as u8 == e[i]);
    }
    assert(e =~= ascii_bytes(s));
}

/// **Law.** No two byte strings have the same base64 form, so what a strict
/// decoder finds is unique.
pub proof fn law_base64_is_unambiguous(a: Seq<u8>, b: Seq<u8>)
    requires
        base64_text(a) == base64_text(b),
    ensures
        a == b,
{
    lemma_round_trip(a);
    lemma_round_trip(b);
}

// ---- the strict codec ----

/// How the strict decoder words its refusal of a text.
pub uninterp spec fn b64_refusal(s: Seq<char>) -> Seq<char>;

/// `Engine::encode` of the `base64` crate with its `STANDARD` engine: the padded
/// RFC 4648 form.
#[verifier::external_body]
pub(crate) fn b64_encode(b: &[u8]) -> (s: String)
    ensures
        s@ == base64_text(b@),
{
    base64::engine::general_purpose::STANDARD.encode(b)
}

/// `Engine::decode` of the `base64` crate with its `STANDARD` engine. That
/// engine requires canonical padding and allows no trailing bits, so it accepts
/// the base64 form of some bytes and nothing else, and gives those bytes.
#[verifier::external_body]
pub(crate) fn b64_decode(s: &str) -> (r: Result<Vec<u8>, String>)
    ensures
        match r {
            Ok(v) => s@ == base64_text(v@),
            Err(m) => !is_base64(s@) && m@ == b64_refusal(s@),
        },
{
    base64::engine::general_purpose::STANDARD.decode(s).map_err(|e| e.to_string())
}

/// **Law.** The alphabet is base64's own: the capital letters, the small ones, the
/// digits, `+` and `/`, in this order; and three bytes are packed most
/// significant first.
pub proof fn law_the_alphabet_is_the_standard_one(v: int, a: u8, b: u8, c: u8)
    requires
        0 <= v < 64,
    ensures
        v < 26 ==> symbol(v) as int == 'A' as int + v,
        26 <= v < 52 ==> symbol(v) as int == 'a' as int + (v - 26),
        52 <= v < 62 ==> symbol(v) as int == '0' as int + (v - 52),
        v == 62 ==> symbol(v) == '+',
        v == 63 ==> symbol(v) == '/',
        packed(seq![a, b, c]) == a as int * 65536 + b as int * 256 + c as int,
{
}

/// **Law.** The decoder passes over padding and line breaks, and refuses the first
/// byte that is neither one of those nor of the alphabet.
pub proof fn law_the_first_bad_byte_is_refused(b: Seq<u8>, i: int)
    requires
        0 <= i < b.len(),
        sextet(b[i]) is None,
        b[i] != 61,
        b[i] != 10,
        b[i] != 13,
        forall|k: int|
            0 <= k < i ==> sextet(#[trigger] b[k]) is Some || b[k] == 61 || b[k] == 10 || b[k] == 13,
    ensures
        first_bad(b) == Some(b[i]),
    decreases b.len(),
{
    let w = b.drop_last();
    if i < w.len() {
        assert(w[i] == b[i]);
        law_the_first_bad_byte_is_refused(w, i);
    } else {
        lemma_none_bad(w);
    }
}

proof fn lemma_none_bad(b: Seq<u8>)
    requires
        forall|k: int|
            0 <= k < b.len() ==> sextet(#[trigger] b[k]) is Some || b[k] == 61 || b[k] == 10 || b[k]
                == 13,
    ensures
        first_bad(b) is None,
    decreases b.len(),
{
    if b.len() > 0 {
        lemma_none_bad(b.drop_last());
        assert(b[b.len() - 1] == b.last());
    }
}

} // verus!
