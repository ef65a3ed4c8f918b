//! Core identifiers: a VM's identity and its placement.

use crate::common::error::Error;
use crate::text::{
    chars_of, decimal, decimal_text, digit_char, digit_of, digit_value, hex_byte, push_hex,
};
use vstd::prelude::*;
use vstd::string::*;

verus! {

/// Durable, globally-unique VM **identity**.
///
/// Stable for the lifetime of a VM across hosts and restarts. Stored as the raw
/// 128 bits of a UUID; rendered in canonical hyphenated form.
#[derive(Clone, Copy, PartialEq, Eq, Hash, Debug, Structural)]
pub struct VmId {
    bits: u128,
}

/// 256 to the power `n`.
pub open spec fn pow256(n: nat) -> int
    decreases n,
{
    if n == 0 {
        1
    } else {
        256 * pow256((n - 1) as nat)
    }
}

/// Byte `i` of `v`, the most significant first.
pub open spec fn byte_at(v: u128, i: int) -> u8 {
    ((v as int / pow256((15 - i) as nat)) % 256) as u8
}

/// The sixteen bytes of `v`, the most significant first.
pub open spec fn be_bytes(v: u128) -> Seq<u8> {
    Seq::new(16, |i: int| byte_at(v, i))
}

/// The number whose big-endian bytes are `b`.
pub open spec fn from_be(b: Seq<u8>) -> int
    decreases b.len(),
{
    if b.len() == 0 {
        0
    } else {
        from_be(b.drop_last()) * 256 + b.last() as int
    }
}

/// Whether a `-` stands before byte `i` in the canonical form.
pub open spec fn hyphen_before(i: int) -> bool {
    i == 4 || i == 6 || i == 8 || i == 10
}

/// The canonical hyphenated form of the bytes `b`: two hex digits each, in
/// groups of 4, 2, 2, 2 and 6 bytes.
pub open spec fn uuid_text(b: Seq<u8>) -> Seq<char>
    decreases b.len(),
{
    if b.len() == 0 {
        Seq::empty()
    } else {
        let rest = uuid_text(b.drop_last());
        (if hyphen_before(b.len() - 1) {
            rest.push('-')
        } else {
            rest
        }) + hex_byte(b.last())
    }
}

/// Where the first hex digit of byte `i` stands in the canonical form.
pub open spec fn digit_pos(i: int) -> int {
    2 * i + (if i >= 4 {
        1int
    } else {
        0
    }) + (if i >= 6 {
        1int
    } else {
        0
    }) + (if i >= 8 {
        1int
    } else {
        0
    }) + (if i >= 10 {
        1int
    } else {
        0
    })
}

/// Whether `s` is laid out as a canonical UUID: 36 characters, hex digits of
/// either case, and hyphens after 8, 12, 16 and 20 digits.
pub open spec fn is_uuid(s: Seq<char>) -> bool {
    &&& s.len() == 36
    &&& forall|i: int|
        0 <= i < 36 ==> if i == 8 || i == 13 || i == 18 || i == 23 {
            #[trigger] s[i] == '-'
        } else {
            digit_of(s[i]) < 16
        }
}

/// The bytes that a canonical UUID spells.
pub open spec fn uuid_bytes(s: Seq<char>) -> Seq<u8> {
    Seq::new(
        16,
        |i: int| (digit_of(s[digit_pos(i)]) * 16 + digit_of(s[digit_pos(i) + 1])) as u8,
    )
}

impl VmId {
    /// The raw 128-bit value.
    pub closed spec fn value(self) -> u128 {
        self.bits
    }

    /// Wrap raw 128 bits as a `VmId`.
    pub fn from_u128(v: u128) -> (r: Self)
        ensures
            r.value() == v,
    {
        VmId { bits: v }
    }

    /// The raw 128-bit value.
    pub fn as_u128(self) -> (r: u128)
        ensures
            r == self.value(),
    {
        self.bits
    }

    /// The canonical hyphenated form.
    pub open spec fn text(self) -> Seq<char> {
        uuid_text(be_bytes(self.value()))
    }

    /// Renders the canonical hyphenated form.
    pub fn to_string(&self) -> (s: String)
        ensures
            s@ == self.text(),
    {
        let mut s = String::new();
        let mut i: usize = 0;
        let ghost b = be_bytes(self.value());
        assert(b.subrange(0, 0) =~= Seq::<u8>::empty());
        let mut scale: u128 = 0x0100_0000_0000_0000_0000_0000_0000_0000;
        proof {
            reveal_with_fuel(pow256, 17);
        }
        while i < 16
            invariant
                i <= 16,
                b == be_bytes(self.value()),
                s@ == uuid_text(b.subrange(0, i as int)),
                i < 16 ==> scale == pow256((15 - i) as nat),
                i < 16 ==> scale > 0,
            decreases 16 - i,
        {
            let x: u8 = ((self.bits / scale) % 256) as u8;
            assert(x == b[i as int]);
            if i == 4 || i == 6 || i == 8 || i == 10 {
                s.push('-');
            }
            push_hex(&mut s, x);
            proof {
                let next = b.subrange(0, i + 1);
                assert(next.drop_last() =~= b.subrange(0, i as int));
                if i < 15 {
                    assert(scale / 256 == pow256((14 - i) as nat));
                    lemma_pow256_positive((14 - i) as nat);
                }
            }
            scale = scale / 256;
            i += 1;
        }
        assert(b.subrange(0, 16) =~= b);
        s
    }

    /// Reads a canonical hyphenated form.
    pub fn parse(s: &str) -> (r: Option<Self>)
        ensures
            match r {
                Some(id) => is_uuid(s@) && id.value() == from_be(uuid_bytes(s@)),
                None => !is_uuid(s@),
            },
    {
        let v = chars_of(s);
        if v.len() != 36 {
            return None;
        }
        let mut i: usize = 0;
        while i < 36
            invariant
                i <= 36,
                v@ == s@,
                v.len() == 36,
                forall|k: int|
                    0 <= k < i ==> if k == 8 || k == 13 || k == 18 || k == 23 {
                        #[trigger] v@[k] == '-'
                    } else {
                        digit_of(v@[k]) < 16
                    },
            decreases 36 - i,
        {
            if i == 8 || i == 13 || i == 18 || i == 23 {
                if v[i] != '-' {
                    return None;
                }
            } else if digit_value(v[i]) >= 16 {
                return None;
            }
            i += 1;
        }
        let ghost b = uuid_bytes(s@);
        assert(b.subrange(0, 0) =~= Seq::<u8>::empty());
        let mut n: u128 = 0;
        let mut k: usize = 0;
        let mut at: usize = 0;
        proof {
            reveal_with_fuel(pow256, 17);
        }
        while k < 16
            invariant
                k <= 16,
                v@ == s@,
                is_uuid(s@),
                b == uuid_bytes(s@),
                at == digit_pos(k as int),
                n == from_be(b.subrange(0, k as int)),
                n < pow256(k as nat),
                pow256(16) == 0x1_0000_0000_0000_0000_0000_0000_0000_0000,
            decreases 16 - k,
        {
            assert(at + 1 < 36);
            assert(s@[at as int] == v@[at as int] && s@[at + 1] == v@[at + 1]);
            assert(digit_of(s@[at as int]) < 16 && digit_of(s@[at + 1]) < 16);
            let x: u64 = digit_value(v[at]) * 16 + digit_value(v[at + 1]);
            proof {
                let next = b.subrange(0, k + 1);
                assert(next.drop_last() =~= b.subrange(0, k as int));
                assert(next.last() == b[k as int]);
                assert(x == b[k as int]);
                assert(pow256((k + 1) as nat) == 256 * pow256(k as nat));
                lemma_pow256_grows((k + 1) as nat, 16);
            }
            n = n * 256 + x as u128;
            at += 2;
            if k == 3 || k == 5 || k == 7 || k == 9 {
                at += 1;
            }
            k += 1;
        }
        assert(b.subrange(0, 16) =~= b);
        Some(VmId { bits: n })
    }
}

proof fn lemma_pow256_positive(n: nat)
    ensures
        pow256(n) > 0,
    decreases n,
{
    if n > 0 {
        lemma_pow256_positive((n - 1) as nat);
    }
}

proof fn lemma_pow256_grows(a: nat, b: nat)
    requires
        a <= b,
    ensures
        pow256(a) <= pow256(b),
    decreases b,
{
    lemma_pow256_positive(a);
    if a < b {
        lemma_pow256_grows(a, (b - 1) as nat);
        lemma_pow256_positive((b - 1) as nat);
    }
}

proof fn lemma_digit_char(d: int)
    requires
        0 <= d < 16,
    ensures
        digit_of(digit_char(d)) == d,
        digit_char(d) != '-',
{
}

/// Where each digit and hyphen of a rendered identity stands.
proof fn lemma_uuid_layout(b: Seq<u8>)
    requires
        b.len() <= 16,
    ensures
        b.len() > 0 ==> uuid_text(b).len() == digit_pos(b.len() - 1) + 2,
        b.len() == 0 ==> uuid_text(b).len() == 0,
        forall|i: int|
            0 <= i < b.len() ==> uuid_text(b)[#[trigger] digit_pos(i)] == digit_char(b[i] as int / 16)
                && uuid_text(b)[digit_pos(i) + 1] == digit_char(b[i] as int % 16),
        b.len() > 4 ==> uuid_text(b)[8] == '-',
        b.len() > 6 ==> uuid_text(b)[13] == '-',
        b.len() > 8 ==> uuid_text(b)[18] == '-',
        b.len() > 10 ==> uuid_text(b)[23] == '-',
    decreases b.len(),
{
    if b.len() > 0 {
        let p = b.drop_last();
        lemma_uuid_layout(p);
        let n = b.len() - 1;
        let t = if hyphen_before(n) {
            uuid_text(p).push('-')
        } else {
            uuid_text(p)
        };
        assert(t.len() == digit_pos(n));
        assert(uuid_text(b) == t + hex_byte(b[n]));
        assert forall|i: int| 0 <= i < b.len() implies uuid_text(b)[#[trigger] digit_pos(i)]
            == digit_char(b[i] as int / 16) && uuid_text(b)[digit_pos(i) + 1] == digit_char(
            b[i] as int % 16,
        ) by {
            if i < n {
                assert(digit_pos(i) + 1 < uuid_text(p).len());
                assert(p[i] == b[i]);
            }
        }
    }
}

/// Reading back the bytes of a number, a prefix at a time.
proof fn lemma_from_be_prefix(v: u128, k: int)
    requires
        0 <= k <= 16,
    ensures
        from_be(be_bytes(v).subrange(0, k)) == v as int / pow256((16 - k) as nat),
    decreases k,
{
    let b = be_bytes(v);
    reveal_with_fuel(pow256, 17);
    if k == 0 {
        assert(pow256(16) == 0x1_0000_0000_0000_0000_0000_0000_0000_0000);
        vstd::arithmetic::div_mod::lemma_basic_div(v as int, pow256(16));
    } else {
        lemma_from_be_prefix(v, k - 1);
        let s = b.subrange(0, k);
        assert(s.drop_last() =~= b.subrange(0, k - 1));
        assert(s.last() == byte_at(v, k - 1));
        let d = pow256((16 - k) as nat);
        lemma_pow256_positive((16 - k) as nat);
        assert(pow256((17 - k) as nat) == d * 256);
        vstd::arithmetic::div_mod::lemma_div_denominator(v as int, d, 256);
        vstd::arithmetic::div_mod::lemma_fundamental_div_mod(v as int / d, 256);
    }
}

/// **Law.** Reading the rendered form of an identity gives that identity back:
/// the form is canonical, and it spells the identity's own bits.
pub proof fn law_parse_reads_what_was_rendered(id: VmId)
    ensures
        is_uuid(id.text()),
        from_be(uuid_bytes(id.text())) == id.value(),
{
    let v = id.value();
    let b = be_bytes(v);
    let s = id.text();
    lemma_uuid_layout(b);
    assert forall|i: int| 0 <= i < 16 implies digit_of(s[#[trigger] digit_pos(i)]) == b[i] as int
        / 16 && digit_of(s[digit_pos(i) + 1]) == b[i] as int % 16 by {
        lemma_digit_char(b[i] as int / 16);
        lemma_digit_char(b[i] as int % 16);
    }
    assert forall|k: int| 0 <= k < 36 implies if k == 8 || k == 13 || k == 18 || k == 23 {
        #[trigger] s[k] == '-'
    } else {
        digit_of(s[k]) < 16
    } by {
        let i = if k < 8 {
            k / 2
        } else if k < 13 {
            (k - 1) / 2
        } else if k < 18 {
            (k - 2) / 2
        } else if k < 23 {
            (k - 3) / 2
        } else {
            (k - 4) / 2
        };
        if !(k == 8 || k == 13 || k == 18 || k == 23) {
            assert(0 <= i < 16);
            assert(k == digit_pos(i) || k == digit_pos(i) + 1);
        }
    }
    assert(uuid_bytes(s) =~= b) by {
        assert forall|i: int| 0 <= i < 16 implies #[trigger] uuid_bytes(s)[i] == b[i] by {
            assert(digit_of(s[digit_pos(i)]) == b[i] as int / 16);
            assert((b[i] as int / 16) * 16 + b[i] as int % 16 == b[i]);
        }
    }
    lemma_from_be_prefix(v, 16);
    assert(b.subrange(0, 16) =~= b);
    assert(pow256(0) == 1);
    assert(v as int / 1 == v as int);
}

/// **Law.** No two VMs are rendered alike.
pub proof fn law_a_rendered_id_names_one_vm(a: VmId, b: VmId)
    requires
        a.text() == b.text(),
    ensures
        a == b,
{
    law_parse_reads_what_was_rendered(a);
    law_parse_reads_what_was_rendered(b);
}

/// Largest valid slot (`2^15 - 1`).
pub const SLOT_MAX: u16 = 32767;

/// Per-host, recyclable **placement** slot.
///
/// The slot *is* the network address allocation: every fixture derives from it.
/// Valid range is `0..=32767`.
#[derive(Clone, Copy, PartialEq, Eq, PartialOrd, Ord, Hash, Debug, Structural)]
pub struct SlotId {
    slot: u16,
}

impl SlotId {
    /// Largest valid slot (`2^15 - 1`).
    pub const MAX: u16 = 32767;

    /// Every slot is in range.
    #[verifier::type_invariant]
    spec fn in_range(self) -> bool {
        self.slot <= SLOT_MAX
    }

    /// The raw slot value.
    pub closed spec fn value(self) -> u16 {
        self.slot
    }

    /// Construct a slot, validating it is within range.
    pub fn new(v: u16) -> (r: Result<Self, Error>)
        ensures
            v <= SLOT_MAX ==> (r matches Ok(s) && s.value() == v),
            v > SLOT_MAX ==> r == Err::<SlotId, Error>(Error::SlotOutOfRange(v)),
    {
        if v <= SLOT_MAX {
            Ok(SlotId { slot: v })
        } else {
            Err(Error::SlotOutOfRange(v))
        }
    }

    /// The raw slot value, which is in range whatever the slot.
    pub fn get(self) -> (r: u16)
        ensures
            r == self.value(),
            self.value() <= SLOT_MAX,
    {
        proof {
            use_type_invariant(self);
        }
        self.slot
    }

    /// Renders the slot number.
    pub fn to_string(&self) -> (s: String)
        ensures
            s@ == decimal(self.value() as nat),
    {
        decimal_text(self.slot as u64)
    }
}

/// **Law.** There are as many slots as fifteen bits tell apart.
pub proof fn law_slots_are_numbered_in_fifteen_bits()
    ensures
        SLOT_MAX as int + 1 == 128 * 256,
        SlotId::MAX == SLOT_MAX,
{
}

/// **Law.** The first byte of an identity weighs most: put before others, a byte
/// counts as many times as those others can spell.
pub proof fn law_earlier_bytes_weigh_more(x: u8, rest: Seq<u8>)
    ensures
        from_be(seq![x] + rest) == x as int * pow256(rest.len()) + from_be(rest),
    decreases rest.len(),
{
    let b = seq![x] + rest;
    let xi = x as int;
    if rest.len() == 0 {
        assert(b.drop_last() =~= Seq::<u8>::empty());
        assert(b.last() == x);
        assert(from_be(b.drop_last()) == 0);
        assert(from_be(b) == xi);
        assert(from_be(rest) == 0);
        assert(pow256(0) == 1);
        assert(xi * pow256(rest.len()) == xi);
    } else {
        let w = rest.drop_last();
        law_earlier_bytes_weigh_more(x, w);
        assert(b.drop_last() =~= seq![x] + w);
        assert(b.last() == rest.last());
        let p = pow256(w.len());
        let f = from_be(w);
        let l = rest.last() as int;
        assert(pow256(rest.len()) == 256 * p);
        assert(from_be(b) == from_be(seq![x] + w) * 256 + l);
        assert(from_be(b) == (xi * p + f) * 256 + l);
        assert(from_be(rest) == f * 256 + l);
        assert((xi * p + f) * 256 == xi * (256 * p) + f * 256) by (nonlinear_arith);
    }
}

} // verus!
