//! Text as a sequence of characters: the small vocabulary that the parsers and
//! renderers of this crate are stated in.

use vstd::prelude::*;
use vstd::string::*;

verus! {

/// `String::push` adds one character at the end.
pub assume_specification[ String::push ](s: &mut String, c: char)
    ensures
        final(s)@ == old(s)@.push(c),
;

/// `str::eq` compares the characters of two string slices.
pub assume_specification[ <str as PartialEq>::eq ](a: &str, b: &str) -> (r: bool)
    ensures
        r == (a@ == b@),
;

/// How std's `Debug` renders a text: in double quotes, with escapes.
pub uninterp spec fn quoted(s: Seq<char>) -> Seq<char>;

/// std's `Debug` for `str`. Nothing is claimed of its escapes, only that they
/// depend on the text alone.
#[verifier::external_body]
pub(crate) fn quote(s: &str) -> (r: String)
    ensures
        r@ == quoted(s@),
{
    format!("{:?}", s)
}

/// Whether two texts hold the same characters.
pub fn same(a: &str, b: &str) -> (r: bool)
    ensures
        r == (a@ == b@),
{
    a.eq(b)
}

/// The characters of an optional text.
pub open spec fn text_of(o: Option<String>) -> Option<Seq<char>> {
    match o {
        Some(s) => Some(s@),
        None => None,
    }
}

/// The characters of each text of a list.
pub open spec fn texts_of(v: Seq<String>) -> Seq<Seq<char>> {
    v.map_values(|s: String| s@)
}

/// Whether two optional texts are both absent, or both there and the same.
pub fn same_option(a: &Option<String>, b: &Option<String>) -> (r: bool)
    ensures
        r == (text_of(*a) == text_of(*b)),
{
    match a {
        Some(x) => match b {
            Some(y) => same(x.as_str(), y.as_str()),
            None => false,
        },
        None => b.is_none(),
    }
}

/// Whether two lists hold the same texts in the same order.
pub fn same_list(a: &Vec<String>, b: &Vec<String>) -> (r: bool)
    ensures
        r == (texts_of(a@) == texts_of(b@)),
{
    if a.len() != b.len() {
        proof {
            assert(texts_of(a@).len() != texts_of(b@).len());
        }
        return false;
    }
    let mut i: usize = 0;
    while i < a.len()
        invariant
            i <= a.len(),
            a.len() == b.len(),
            forall|k: int| 0 <= k < i ==> (#[trigger] a@[k])@ == b@[k]@,
        decreases a.len() - i,
    {
        if !same(a[i].as_str(), b[i].as_str()) {
            proof {
                assert(texts_of(a@)[i as int] != texts_of(b@)[i as int]);
            }
            return false;
        }
        i += 1;
    }
    proof {
        assert(texts_of(a@) =~= texts_of(b@));
    }
    true
}

/// Whether a list holds a text.
pub fn list_has(v: &Vec<String>, s: &str) -> (r: bool)
    ensures
        r == texts_of(v@).contains(s@),
{
    let mut i: usize = 0;
    while i < v.len()
        invariant
            i <= v.len(),
            forall|k: int| 0 <= k < i ==> (#[trigger] v@[k])@ != s@,
        decreases v.len() - i,
    {
        if same(v[i].as_str(), s) {
            proof {
                assert(texts_of(v@)[i as int] == s@);
            }
            return true;
        }
        i += 1;
    }
    proof {
        assert forall|k: int| 0 <= k < texts_of(v@).len() implies texts_of(v@)[k] != s@ by {
            assert(v@[k]@ != s@);
        }
    }
    false
}

/// The characters of `s`, one by one.
pub fn chars_of(s: &str) -> (v: Vec<char>)
    ensures
        v@ == s@,
{
    let mut v: Vec<char> = Vec::new();
    for c in it: s.chars()
        invariant
            v@ == it.seq().take(it.index() as int),
            it.seq() == s@,
    {
        v.push(c);
    }
    v
}

/// The text made of the characters `from..to` of `v`.
pub fn piece(v: &Vec<char>, from: usize, to: usize) -> (s: String)
    requires
        from <= to <= v.len(),
    ensures
        s@ == v@.subrange(from as int, to as int),
{
    let mut s = String::new();
    let mut i: usize = from;
    while i < to
        invariant
            from <= i <= to <= v.len(),
            s@ == v@.subrange(from as int, i as int),
        decreases to - i,
    {
        s.push(v[i]);
        i += 1;
        assert(v@.subrange(from as int, i as int) =~= v@.subrange(from as int, i - 1).push(
            v@[i - 1],
        ));
    }
    s
}

// ---- searching ----

/// Whether `s` begins with `p`.
pub open spec fn begins(s: Seq<char>, p: Seq<char>) -> bool {
    p.len() <= s.len() && s.subrange(0, p.len() as int) == p
}

/// Whether `s` ends with `p`.
pub open spec fn finishes(s: Seq<char>, p: Seq<char>) -> bool {
    p.len() <= s.len() && s.subrange(s.len() - p.len(), s.len() as int) == p
}

/// Where `c` first stands in `s`.
pub open spec fn first_index(s: Seq<char>, c: char) -> Option<int>
    decreases s.len(),
{
    if s.len() == 0 {
        None
    } else if s[0] == c {
        Some(0)
    } else {
        match first_index(s.subrange(1, s.len() as int), c) {
            Some(i) => Some(i + 1),
            None => None,
        }
    }
}

/// `first_index` is the one place with `c` there and nowhere before it.
pub proof fn lemma_first_index(s: Seq<char>, c: char)
    ensures
        match first_index(s, c) {
            Some(i) => 0 <= i < s.len() && s[i] == c && forall|k: int| 0 <= k < i ==> s[k] != c,
            None => forall|k: int| 0 <= k < s.len() ==> s[k] != c,
        },
    decreases s.len(),
{
    if s.len() > 0 && s[0] != c {
        let t = s.subrange(1, s.len() as int);
        lemma_first_index(t, c);
        assert forall|k: int| 1 <= k < s.len() implies s[k] == t[k - 1] by {}
        match first_index(t, c) {
            Some(i) => {
                assert forall|k: int| 0 <= k < i + 1 implies s[k] != c by {
                    if k > 0 {
                        assert(t[k - 1] != c);
                    }
                }
            },
            None => {
                assert forall|k: int| 0 <= k < s.len() implies s[k] != c by {
                    if k > 0 {
                        assert(t[k - 1] != c);
                    }
                }
            },
        }
    }
}

/// A place with `c` there and nowhere before it is `first_index`.
pub proof fn lemma_first_index_is(s: Seq<char>, c: char, i: int)
    requires
        0 <= i < s.len(),
        s[i] == c,
        forall|k: int| 0 <= k < i ==> s[k] != c,
    ensures
        first_index(s, c) == Some(i),
{
    lemma_first_index(s, c);
    match first_index(s, c) {
        Some(j) => {
            if j < i {
                assert(s[j] != c);
            }
            if i < j {
                assert(s[i] != c);
            }
        },
        None => {
            assert(s[i] != c);
        },
    }
}

/// Where `c` first stands in `v`.
pub fn find_char(v: &Vec<char>, c: char) -> (r: Option<usize>)
    ensures
        match r {
            Some(i) => first_index(v@, c) == Some(i as int) && i < v.len(),
            None => first_index(v@, c) is None,
        },
{
    let mut i: usize = 0;
    while i < v.len()
        invariant
            i <= v.len(),
            forall|k: int| 0 <= k < i ==> v@[k] != c,
        decreases v.len() - i,
    {
        if v[i] == c {
            proof {
                lemma_first_index_is(v@, c, i as int);
            }
            return Some(i);
        }
        i += 1;
    }
    proof {
        lemma_first_index(v@, c);
    }
    None
}

/// Where `c` last stands in `s`.
pub open spec fn last_index(s: Seq<char>, c: char) -> Option<int>
    decreases s.len(),
{
    if s.len() == 0 {
        None
    } else if s.last() == c {
        Some(s.len() - 1)
    } else {
        last_index(s.drop_last(), c)
    }
}

/// Where `c` last stands in `v`.
pub fn rfind_char(v: &Vec<char>, c: char) -> (r: Option<usize>)
    ensures
        match r {
            Some(i) => last_index(v@, c) == Some(i as int) && i < v.len() && v@[i as int] == c,
            None => last_index(v@, c) is None,
        },
{
    let mut n: usize = v.len();
    assert(v@.subrange(0, v.len() as int) =~= v@);
    while n > 0
        invariant
            n <= v.len(),
            last_index(v@, c) == last_index(v@.subrange(0, n as int), c),
        decreases n,
    {
        let ghost here = v@.subrange(0, n as int);
        if v[n - 1] == c {
            assert(here.last() == c);
            return Some(n - 1);
        }
        assert(here.drop_last() =~= v@.subrange(0, n - 1));
        n -= 1;
    }
    None
}

/// Whether `v` has `p` as its characters from `at` on.
pub fn matches_at(v: &Vec<char>, at: usize, p: &Vec<char>) -> (r: bool)
    requires
        at <= v.len(),
    ensures
        r == (p.len() <= v.len() - at && v@.subrange(at as int, at + p.len()) == p@),
{
    if p.len() > v.len() - at {
        return false;
    }
    let mut i: usize = 0;
    while i < p.len()
        invariant
            i <= p.len() <= v.len() - at,
            at <= v.len(),
            forall|k: int| 0 <= k < i ==> v@[at + k] == p@[k],
        decreases p.len() - i,
    {
        if v[at + i] != p[i] {
            proof {
                assert(v@.subrange(at as int, at + p.len())[i as int] != p@[i as int]);
            }
            return false;
        }
        i += 1;
    }
    proof {
        assert(v@.subrange(at as int, at + p.len()) =~= p@);
    }
    true
}

/// Whether `s` begins with `p`.
pub fn starts_with(s: &str, p: &str) -> (r: bool)
    ensures
        r == begins(s@, p@),
{
    let v = chars_of(s);
    let q = chars_of(p);
    matches_at(&v, 0, &q)
}

/// Whether `s` ends with `p`.
pub fn ends_with(s: &str, p: &str) -> (r: bool)
    ensures
        r == finishes(s@, p@),
{
    let v = chars_of(s);
    let q = chars_of(p);
    if q.len() > v.len() {
        return false;
    }
    matches_at(&v, v.len() - q.len(), &q)
}

// ---- trimming ----

/// The characters with Unicode's `White_Space` property.
pub open spec fn is_space(c: char) -> bool {
    let n = c as u32;
    9 <= n <= 13 || n == 0x20 || n == 0x85 || n == 0xa0 || n == 0x1680 || 0x2000 <= n <= 0x200a
        || n == 0x2028 || n == 0x2029 || n == 0x202f || n == 0x205f || n == 0x3000
}

/// Whether `c` is white space.
pub fn space(c: char) -> (r: bool)
    ensures
        r == is_space(c),
{
    let n: u32 = c as u32;
    (9 <= n && n <= 13) || n == 0x20 || n == 0x85 || n == 0xa0 || n == 0x1680 || (0x2000 <= n && n
        <= 0x200a) || n == 0x2028 || n == 0x2029 || n == 0x202f || n == 0x205f || n == 0x3000
}

/// `s` without its leading white space.
pub open spec fn trim_front(s: Seq<char>) -> Seq<char>
    decreases s.len(),
{
    if s.len() > 0 && is_space(s[0]) {
        trim_front(s.subrange(1, s.len() as int))
    } else {
        s
    }
}

/// `s` without its trailing white space.
pub open spec fn trim_back(s: Seq<char>) -> Seq<char>
    decreases s.len(),
{
    if s.len() > 0 && is_space(s.last()) {
        trim_back(s.drop_last())
    } else {
        s
    }
}

/// `s` without the white space at either end.
pub open spec fn trimmed(s: Seq<char>) -> Seq<char> {
    trim_back(trim_front(s))
}

/// `s` without the white space at either end.
pub fn trim(s: &str) -> (r: String)
    ensures
        r@ == trimmed(s@),
{
    let v = chars_of(s);
    let mut from: usize = 0;
    assert(v@.subrange(0, v.len() as int) =~= v@);
    while from < v.len() && space(v[from])
        invariant
            from <= v.len(),
            v@ == s@,
            trim_front(v@.subrange(from as int, v.len() as int)) == trim_front(s@),
        decreases v.len() - from,
    {
        proof {
            let here = v@.subrange(from as int, v.len() as int);
            assert(here.subrange(1, here.len() as int) =~= v@.subrange(from + 1, v.len() as int));
        }
        from += 1;
    }
    let ghost front = v@.subrange(from as int, v.len() as int);
    assert(front == trim_front(s@));
    let mut to: usize = v.len();
    while to > from && space(v[to - 1])
        invariant
            from <= to <= v.len(),
            trim_back(v@.subrange(from as int, to as int)) == trim_back(front),
        decreases to,
    {
        proof {
            let here = v@.subrange(from as int, to as int);
            assert(here.last() == v@[to - 1]);
            assert(here.drop_last() =~= v@.subrange(from as int, to - 1));
        }
        to -= 1;
    }
    proof {
        let here = v@.subrange(from as int, to as int);
        if to > from {
            assert(here.last() == v@[to - 1]);
        }
    }
    piece(&v, from, to)
}

/// `s` without the characters `c` at its end.
pub open spec fn without_trailing(s: Seq<char>, c: char) -> Seq<char>
    decreases s.len(),
{
    if s.len() > 0 && s.last() == c {
        without_trailing(s.drop_last(), c)
    } else {
        s
    }
}

/// `s` without the characters `c` at its end.
pub fn trim_end_char(s: &str, c: char) -> (r: String)
    ensures
        r@ == without_trailing(s@, c),
{
    let v = chars_of(s);
    let mut to: usize = v.len();
    assert(v@.subrange(0, v.len() as int) =~= v@);
    while to > 0 && v[to - 1] == c
        invariant
            to <= v.len(),
            v@ == s@,
            without_trailing(v@.subrange(0, to as int), c) == without_trailing(s@, c),
        decreases to,
    {
        assert(v@.subrange(0, to as int).drop_last() =~= v@.subrange(0, to - 1));
        to -= 1;
    }
    piece(&v, 0, to)
}

// ---- numbers ----

/// The value of `c` as a digit of any base up to sixteen.
pub open spec fn digit_of(c: char) -> int {
    let n = c as int;
    if '0' as int <= n <= '9' as int {
        n - '0' as int
    } else if 'a' as int <= n <= 'f' as int {
        n - 'a' as int + 10
    } else if 'A' as int <= n <= 'F' as int {
        n - 'A' as int + 10
    } else {
        99
    }
}

/// The number that the digits `s` spell in base `radix`, most significant first.
pub open spec fn spelled(s: Seq<char>, radix: int) -> int
    decreases s.len(),
{
    if s.len() == 0 {
        0
    } else {
        spelled(s.drop_last(), radix) * radix + digit_of(s.last())
    }
}

/// What is left of a number after one leading `+`.
pub open spec fn unsigned(s: Seq<char>) -> Seq<char> {
    if s.len() > 0 && s[0] == '+' {
        s.subrange(1, s.len() as int)
    } else {
        s
    }
}

/// The number up to `max` that `s` spells in base `radix`: at least one digit,
/// digits only, and at most one `+` before them.
pub open spec fn number(s: Seq<char>, radix: int, max: int) -> Option<int> {
    let d = unsigned(s);
    if d.len() > 0 && (forall|i: int| 0 <= i < d.len() ==> digit_of(#[trigger] d[i]) < radix)
        && spelled(d, radix) <= max {
        Some(spelled(d, radix))
    } else {
        None
    }
}

/// The value of a character as a digit.
pub fn digit_value(c: char) -> (r: u64)
    ensures
        r == digit_of(c),
{
    let n: u32 = c as u32;
    if 48 <= n && n <= 57 {
        (n - 48) as u64
    } else if 97 <= n && n <= 102 {
        (n - 97 + 10) as u64
    } else if 65 <= n && n <= 70 {
        (n - 65 + 10) as u64
    } else {
        99
    }
}

proof fn lemma_spelled_grows(s: Seq<char>, n: int, radix: int)
    requires
        0 <= n <= s.len(),
        radix >= 1,
        forall|i: int| 0 <= i < s.len() ==> digit_of(#[trigger] s[i]) < radix,
    ensures
        0 <= spelled(s.subrange(0, n), radix) <= spelled(s, radix),
    decreases s.len(),
{
    assert forall|i: int| 0 <= i < s.len() implies digit_of(#[trigger] s[i]) >= 0 by {}
    if n == s.len() {
        assert(s.subrange(0, n) =~= s);
        if n > 0 {
            lemma_spelled_grows(s.drop_last(), n - 1, radix);
            let p = spelled(s.drop_last(), radix);
            assert(s.drop_last().subrange(0, n - 1) =~= s.drop_last());
            assert(p * radix >= 0) by (nonlinear_arith)
                requires
                    p >= 0,
                    radix >= 1,
            ;
        }
    } else {
        lemma_spelled_grows(s.drop_last(), n, radix);
        assert(s.drop_last().subrange(0, n) =~= s.subrange(0, n));
        let p = spelled(s.drop_last(), radix);
        assert(digit_of(s[s.len() - 1]) >= 0);
        assert(p * radix >= p) by (nonlinear_arith)
            requires
                p >= 0,
                radix >= 1,
        ;
    }
}

/// Reads a number no larger than `max`, written in base `radix`.
pub fn parse_number(s: &str, radix: u64, max: u64) -> (r: Option<u64>)
    requires
        2 <= radix <= 16,
    ensures
        match r {
            Some(n) => number(s@, radix as int, max as int) == Some(n as int),
            None => number(s@, radix as int, max as int) is None,
        },
{
    let v = chars_of(s);
    let from: usize = if v.len() > 0 && v[0] == '+' {
        1
    } else {
        0
    };
    let ghost d = unsigned(s@);
    assert(d =~= v@.subrange(from as int, v.len() as int));
    if from == v.len() {
        return None;
    }
    let mut n: u64 = 0;
    let mut i: usize = from;
    assert(d.subrange(0, 0) =~= Seq::<char>::empty());
    while i < v.len()
        invariant
            from <= i <= v.len(),
            v@ == s@,
            d == unsigned(s@),
            d == v@.subrange(from as int, v.len() as int),
            2 <= radix <= 16,
            n <= max,
            n == spelled(d.subrange(0, i - from), radix as int),
            forall|k: int| 0 <= k < i - from ==> digit_of(#[trigger] d[k]) < radix,
        decreases v.len() - i,
    {
        let x: u64 = digit_value(v[i]);
        assert(d[i - from] == v@[i as int]);
        if x >= radix {
            return None;
        }
        assert(n * radix <= n * 16) by (nonlinear_arith)
            requires
                radix <= 16,
        ;
        assert(n * radix + x <= 16 * u64::MAX + 16);
        let m: u128 = (n as u128) * (radix as u128) + (x as u128);
        proof {
            let next = d.subrange(0, i - from + 1);
            assert(next.drop_last() =~= d.subrange(0, i - from));
            assert(next.last() == d[i - from]);
            if m > max {
                if forall|k: int| 0 <= k < d.len() ==> digit_of(#[trigger] d[k]) < radix {
                    lemma_spelled_grows(d, i - from + 1, radix as int);
                }
            }
        }
        if m > max as u128 {
            return None;
        }
        n = m as u64;
        i += 1;
    }
    assert(d.subrange(0, d.len() as int) =~= d);
    Some(n)
}

/// The decimal digits of `n`, without leading zeros.
pub open spec fn decimal(n: nat) -> Seq<char>
    decreases n,
{
    if n < 10 {
        seq![digit_char(n as int)]
    } else {
        decimal(n / 10).push(digit_char((n % 10) as int))
    }
}

/// The lower-case digit for a value below sixteen.
pub open spec fn digit_char(d: int) -> char {
    if d < 10 {
        ('0' as int + d) as char
    } else {
        ('a' as int + d - 10) as char
    }
}

/// The lower-case digit for a value below sixteen.
pub fn digit(d: u8) -> (c: char)
    requires
        d < 16,
    ensures
        c == digit_char(d as int),
        digit_of(c) == d,
{
    if d < 10 {
        (48 + d) as char
    } else {
        (97 + (d - 10)) as char
    }
}

/// Adds the decimal digits of `n` at the end of `s`.
pub fn push_decimal(s: &mut String, n: u64)
    ensures
        final(s)@ == old(s)@ + decimal(n as nat),
    decreases n,
{
    if n >= 10 {
        push_decimal(s, n / 10);
    }
    let c: char = digit((n % 10) as u8);
    s.push(c);
    proof {
        if n < 10 {
            assert(old(s)@.push(c) =~= old(s)@ + decimal(n as nat));
        } else {
            assert((old(s)@ + decimal((n / 10) as nat)).push(c) =~= old(s)@ + decimal(n as nat));
        }
    }
}

/// The decimal rendering of `n`.
pub fn decimal_text(n: u64) -> (s: String)
    ensures
        s@ == decimal(n as nat),
{
    let mut s = String::new();
    push_decimal(&mut s, n);
    assert(Seq::<char>::empty() + decimal(n as nat) =~= decimal(n as nat));
    s
}

/// Two lower-case hex digits for a byte.
pub open spec fn hex_byte(b: u8) -> Seq<char> {
    seq![digit_char(b as int / 16), digit_char(b as int % 16)]
}

/// Adds the two hex digits of `b` at the end of `s`.
pub fn push_hex(s: &mut String, b: u8)
    ensures
        final(s)@ == old(s)@ + hex_byte(b),
{
    s.push(digit(b / 16));
    s.push(digit(b % 16));
    assert(s@ =~= old(s)@ + hex_byte(b));
}

/// The hex digits of each byte in turn.
pub open spec fn hex_text(b: Seq<u8>) -> Seq<char>
    decreases b.len(),
{
    if b.len() == 0 {
        Seq::empty()
    } else {
        hex_text(b.drop_last()) + hex_byte(b.last())
    }
}

/// Renders bytes as lower-case hex.
pub fn hex(b: &[u8]) -> (s: String)
    ensures
        s@ == hex_text(b@),
{
    let mut s = String::new();
    let mut i: usize = 0;
    assert(b@.subrange(0, 0) =~= Seq::<u8>::empty());
    while i < b.len()
        invariant
            i <= b.len(),
            s@ == hex_text(b@.subrange(0, i as int)),
        decreases b.len() - i,
    {
        push_hex(&mut s, b[i]);
        proof {
            let next = b@.subrange(0, i + 1);
            assert(next.drop_last() =~= b@.subrange(0, i as int));
        }
        i += 1;
    }
    assert(b@.subrange(0, b.len() as int) =~= b@);
    s
}

// ---- joining ----

/// The texts of a list one after another, with `sep` between each two.
pub open spec fn joined(v: Seq<Seq<char>>, sep: Seq<char>) -> Seq<char>
    decreases v.len(),
{
    if v.len() == 0 {
        Seq::empty()
    } else if v.len() == 1 {
        v[0]
    } else {
        joined(v.drop_last(), sep) + sep + v.last()
    }
}

/// Joins texts with `sep` between each two.
pub fn join(v: &Vec<String>, sep: &str) -> (s: String)
    ensures
        s@ == joined(texts_of(v@), sep@),
{
    let mut s = String::new();
    let mut i: usize = 0;
    let ghost all = texts_of(v@);
    assert(all.subrange(0, 0) =~= Seq::<Seq<char>>::empty());
    while i < v.len()
        invariant
            i <= v.len(),
            all == texts_of(v@),
            s@ == joined(all.subrange(0, i as int), sep@),
        decreases v.len() - i,
    {
        if i > 0 {
            s.append(sep);
        }
        s.append(v[i].as_str());
        proof {
            let next = all.subrange(0, i + 1);
            assert(next.drop_last() =~= all.subrange(0, i as int));
            assert(next.last() == v@[i as int]@);
            if i == 0 {
                assert(s@ =~= joined(next, sep@));
            }
        }
        i += 1;
    }
    assert(all.subrange(0, v.len() as int) =~= all);
    s
}

/// Two texts one after the other.
pub fn concat2(a: &str, b: &str) -> (s: String)
    ensures
        s@ == a@ + b@,
{
    let mut s = String::new();
    s.append(a);
    s.append(b);
    assert(s@ =~= a@ + b@);
    s
}

/// Three texts one after the other.
pub fn concat3(a: &str, b: &str, c: &str) -> (s: String)
    ensures
        s@ == a@ + b@ + c@,
{
    let mut s = concat2(a, b);
    s.append(c);
    s
}

// ---- splitting ----

/// `s` before and after its first `c`, if it has one.
pub open spec fn cut(s: Seq<char>, c: char) -> Option<(Seq<char>, Seq<char>)> {
    match first_index(s, c) {
        Some(i) => Some((s.subrange(0, i), s.subrange(i + 1, s.len() as int))),
        None => None,
    }
}

/// `s` before and after its last `c`, if it has one.
pub open spec fn rcut(s: Seq<char>, c: char) -> Option<(Seq<char>, Seq<char>)> {
    match last_index(s, c) {
        Some(i) => Some((s.subrange(0, i), s.subrange(i + 1, s.len() as int))),
        None => None,
    }
}

/// Two texts as two sequences of characters.
pub open spec fn pair_of(o: Option<(String, String)>) -> Option<(Seq<char>, Seq<char>)> {
    match o {
        Some(p) => Some((p.0@, p.1@)),
        None => None,
    }
}

/// Splits at the first `c`.
pub fn split_once(s: &str, c: char) -> (r: Option<(String, String)>)
    ensures
        pair_of(r) == cut(s@, c),
{
    let v = chars_of(s);
    match find_char(&v, c) {
        Some(i) => Some((piece(&v, 0, i), piece(&v, i + 1, v.len()))),
        None => None,
    }
}

/// Splits at the last `c`.
pub fn rsplit_once(s: &str, c: char) -> (r: Option<(String, String)>)
    ensures
        pair_of(r) == rcut(s@, c),
{
    let v = chars_of(s);
    match rfind_char(&v, c) {
        Some(i) => Some((piece(&v, 0, i), piece(&v, i + 1, v.len()))),
        None => None,
    }
}

/// Whether `c` stands in `s`.
pub fn has_char(s: &str, c: char) -> (r: bool)
    ensures
        r == s@.contains(c),
{
    let v = chars_of(s);
    let mut i: usize = 0;
    while i < v.len()
        invariant
            i <= v.len(),
            v@ == s@,
            forall|k: int| 0 <= k < i ==> v@[k] != c,
        decreases v.len() - i,
    {
        if v[i] == c {
            assert(s@[i as int] == c);
            return true;
        }
        i += 1;
    }
    false
}

/// Whether `p` stands in `s` from place `i` on.
pub open spec fn stands_at(s: Seq<char>, p: Seq<char>, i: int) -> bool {
    0 <= i && i + p.len() <= s.len() && s.subrange(i, i + p.len()) == p
}

/// Whether `p` stands somewhere in `s`.
pub open spec fn holds(s: Seq<char>, p: Seq<char>) -> bool {
    exists|i: int| #[trigger] stands_at(s, p, i)
}

/// Whether `p` stands somewhere in `s`.
pub fn contains(s: &str, p: &str) -> (r: bool)
    ensures
        r == holds(s@, p@),
{
    let v = chars_of(s);
    let q = chars_of(p);
    let mut i: usize = 0;
    loop
        invariant
            i <= v.len(),
            v@ == s@,
            q@ == p@,
            forall|k: int| 0 <= k < i ==> !(#[trigger] stands_at(s@, p@, k)),
        decreases v.len() - i,
    {
        if matches_at(&v, i, &q) {
            assert(stands_at(s@, p@, i as int));
            return true;
        }
        assert(!stands_at(s@, p@, i as int));
        if i == v.len() {
            return false;
        }
        i += 1;
    }
}

/// `s` without the prefix `p`, if it has it.
pub open spec fn without_prefix(s: Seq<char>, p: Seq<char>) -> Option<Seq<char>> {
    if begins(s, p) {
        Some(s.subrange(p.len() as int, s.len() as int))
    } else {
        None
    }
}

/// `s` without the prefix `p`, if it has it.
pub fn strip_prefix(s: &str, p: &str) -> (r: Option<String>)
    ensures
        text_of(r) == without_prefix(s@, p@),
{
    let v = chars_of(s);
    let q = chars_of(p);
    if matches_at(&v, 0, &q) {
        Some(piece(&v, q.len(), v.len()))
    } else {
        None
    }
}

/// The pieces of `s` between its `c`s: one more than there are of them.
pub open spec fn pieces(s: Seq<char>, c: char) -> Seq<Seq<char>>
    decreases s.len(),
{
    match last_index(s, c) {
        Some(i) => if 0 <= i < s.len() {
            pieces(s.subrange(0, i), c).push(s.subrange(i + 1, s.len() as int))
        } else {
            seq![s]
        },
        None => seq![s],
    }
}

proof fn lemma_last_index_is(s: Seq<char>, c: char, i: int)
    requires
        0 <= i < s.len(),
        s[i] == c,
        forall|k: int| i < k < s.len() ==> s[k] != c,
    ensures
        last_index(s, c) == Some(i),
    decreases s.len(),
{
    if i < s.len() - 1 {
        lemma_last_index_is(s.drop_last(), c, i);
    }
}

proof fn lemma_no_last_index(s: Seq<char>, c: char)
    requires
        forall|k: int| 0 <= k < s.len() ==> s[k] != c,
    ensures
        last_index(s, c) is None,
    decreases s.len(),
{
    if s.len() > 0 {
        lemma_no_last_index(s.drop_last(), c);
    }
}

/// The pieces of `s` between its `c`s.
pub fn split(s: &str, c: char) -> (r: Vec<String>)
    ensures
        texts_of(r@) == pieces(s@, c),
{
    let v = chars_of(s);
    let mut out: Vec<String> = Vec::new();
    let mut from: usize = 0;
    let mut i: usize = 0;
    assert(texts_of(out@) =~= Seq::<Seq<char>>::empty());
    while i < v.len()
        invariant
            from <= i <= v.len(),
            v@ == s@,
            forall|k: int| from <= k < i ==> v@[k] != c,
            from == 0 ==> out.len() == 0,
            from > 0 ==> v@[from - 1] == c && texts_of(out@) == pieces(v@.subrange(0, from - 1), c),
        decreases v.len() - i,
    {
        if v[i] == c {
            let t = piece(&v, from, i);
            let ghost had = out@;
            out.push(t);
            proof {
                lemma_split_step(v@, c, from as int, i as int);
                assert(texts_of(out@) =~= texts_of(had).push(t@));
                if from == 0 {
                    assert(texts_of(out@) =~= seq![t@]);
                }
            }
            from = i + 1;
        }
        i += 1;
    }
    let t = piece(&v, from, v.len());
    let ghost had = out@;
    out.push(t);
    proof {
        lemma_split_step(v@, c, from as int, v.len() as int);
        assert(v@.subrange(0, v.len() as int) =~= v@);
        assert(texts_of(out@) =~= texts_of(had).push(t@));
        if from == 0 {
            assert(texts_of(out@) =~= seq![t@]);
        }
    }
    out
}

/// The pieces of the first `i` characters, when `from` is where the last piece
/// of them begins.
proof fn lemma_split_step(s: Seq<char>, c: char, from: int, i: int)
    requires
        0 <= from <= i <= s.len(),
        forall|k: int| from <= k < i ==> s[k] != c,
        from > 0 ==> s[from - 1] == c,
    ensures
        from == 0 ==> pieces(s.subrange(0, i), c) == seq![s.subrange(0, i)],
        from > 0 ==> pieces(s.subrange(0, i), c) == pieces(s.subrange(0, from - 1), c).push(
            s.subrange(from, i),
        ),
{
    let t = s.subrange(0, i);
    if from == 0 {
        lemma_no_last_index(t, c);
    } else {
        lemma_last_index_is(t, c, from - 1);
        assert(t.subrange(0, from - 1) =~= s.subrange(0, from - 1));
        assert(t.subrange(from, t.len() as int) =~= s.subrange(from, i));
    }
}

/// `s` without the characters `c` at its front.
pub open spec fn without_leading(s: Seq<char>, c: char) -> Seq<char>
    decreases s.len(),
{
    if s.len() > 0 && s[0] == c {
        without_leading(s.subrange(1, s.len() as int), c)
    } else {
        s
    }
}

/// `s` without the characters `c` at its front.
pub fn trim_start_char(s: &str, c: char) -> (r: String)
    ensures
        r@ == without_leading(s@, c),
{
    let v = chars_of(s);
    let mut from: usize = 0;
    assert(v@.subrange(0, v.len() as int) =~= v@);
    while from < v.len() && v[from] == c
        invariant
            from <= v.len(),
            v@ == s@,
            without_leading(v@.subrange(from as int, v.len() as int), c) == without_leading(s@, c),
        decreases v.len() - from,
    {
        proof {
            let here = v@.subrange(from as int, v.len() as int);
            assert(here.subrange(1, here.len() as int) =~= v@.subrange(from + 1, v.len() as int));
        }
        from += 1;
    }
    piece(&v, from, v.len())
}

/// `s` without the characters `c` at either end.
pub fn trim_matches_char(s: &str, c: char) -> (r: String)
    ensures
        r@ == without_trailing(without_leading(s@, c), c),
{
    let t = trim_start_char(s, c);
    trim_end_char(t.as_str(), c)
}

/// `s` without one trailing `c`.
pub open spec fn less_one(s: Seq<char>, c: char) -> Seq<char> {
    if s.len() > 0 && s.last() == c {
        s.drop_last()
    } else {
        s
    }
}

/// The lines of `s`: its pieces between line feeds, a last empty one left out,
/// and each piece that a line feed ends without one carriage return before it.
pub open spec fn lines_of(s: Seq<char>) -> Seq<Seq<char>> {
    let p = pieces(s, '\n');
    let n = p.len() - 1;
    let whole = Seq::new(n as nat, |i: int| less_one(p[i], '\r'));
    if p[n].len() == 0 {
        whole
    } else {
        whole.push(p[n])
    }
}

proof fn lemma_pieces_not_empty(s: Seq<char>, c: char)
    ensures
        pieces(s, c).len() >= 1,
{
}

/// The lines of `s`.
pub fn lines(s: &str) -> (r: Vec<String>)
    ensures
        texts_of(r@) == lines_of(s@),
{
    let p = split(s, '\n');
    proof {
        lemma_pieces_not_empty(s@, '\n');
        assert(texts_of(p@).len() == p@.len());
    }
    let n: usize = p.len() - 1;
    let mut out: Vec<String> = Vec::new();
    let mut i: usize = 0;
    while i < n
        invariant
            i <= n,
            n + 1 == p.len(),
            out.len() == i,
            texts_of(p@) == pieces(s@, '\n'),
            forall|k: int| 0 <= k < i ==> (#[trigger] out@[k])@ == less_one(p@[k]@, '\r'),
        decreases n - i,
    {
        let v = chars_of(p[i].as_str());
        let t = if v.len() > 0 && v[v.len() - 1] == '\r' {
            piece(&v, 0, v.len() - 1)
        } else {
            piece(&v, 0, v.len())
        };
        proof {
            assert(v@.subrange(0, v.len() as int) =~= v@);
            assert(t@ =~= less_one(p@[i as int]@, '\r'));
        }
        out.push(t);
        i += 1;
    }
    let ghost whole = out@;
    proof {
        assert(texts_of(p@)[n as int] == p@[n as int]@);
        assert(texts_of(whole) =~= Seq::new(
            n as nat,
            |i: int| less_one(pieces(s@, '\n')[i], '\r'),
        )) by {
            assert forall|k: int| 0 <= k < n implies texts_of(whole)[k] == less_one(
                pieces(s@, '\n')[k],
                '\r',
            ) by {
                assert(whole[k]@ == less_one(p@[k]@, '\r'));
                assert(texts_of(p@)[k] == p@[k]@);
            }
        }
    }
    if !p[n].as_str().is_empty() {
        let last = p[n].clone();
        out.push(last);
        proof {
            assert(texts_of(out@) =~= texts_of(whole).push(last@));
        }
    }
    out
}

// ---- order ----

/// Whether `a` comes no later than `b`: by the first character in which they
/// differ, and a beginning of a text before the text.
pub open spec fn no_later(a: Seq<char>, b: Seq<char>) -> bool
    decreases a.len(),
{
    if a.len() == 0 {
        true
    } else if b.len() == 0 {
        false
    } else if a[0] != b[0] {
        a[0] < b[0]
    } else {
        no_later(a.subrange(1, a.len() as int), b.subrange(1, b.len() as int))
    }
}

/// Whether `a` comes no later than `b`.
pub fn text_le(a: &str, b: &str) -> (r: bool)
    ensures
        r == no_later(a@, b@),
{
    let v = chars_of(a);
    let w = chars_of(b);
    let mut i: usize = 0;
    assert(v@.subrange(0, v.len() as int) =~= v@);
    assert(w@.subrange(0, w.len() as int) =~= w@);
    while i < v.len() && i < w.len()
        invariant
            i <= v.len(),
            i <= w.len(),
            v@ == a@,
            w@ == b@,
            no_later(a@, b@) == no_later(
                v@.subrange(i as int, v.len() as int),
                w@.subrange(i as int, w.len() as int),
            ),
        decreases v.len() - i,
    {
        proof {
            let x = v@.subrange(i as int, v.len() as int);
            let y = w@.subrange(i as int, w.len() as int);
            assert(x[0] == v@[i as int] && y[0] == w@[i as int]);
            assert(x.subrange(1, x.len() as int) =~= v@.subrange(i + 1, v.len() as int));
            assert(y.subrange(1, y.len() as int) =~= w@.subrange(i + 1, w.len() as int));
        }
        if v[i] != w[i] {
            return v[i] < w[i];
        }
        i += 1;
    }
    i == v.len()
}

/// Texts are ordered: any two compare, the order is transitive, and only equal
/// texts come no later than each other.
pub proof fn lemma_order(a: Seq<char>, b: Seq<char>, c: Seq<char>)
    ensures
        no_later(a, a),
        no_later(a, b) || no_later(b, a),
        no_later(a, b) && no_later(b, a) ==> a == b,
        no_later(a, b) && no_later(b, c) ==> no_later(a, c),
    decreases a.len() + b.len() + c.len(),
{
    if a.len() > 0 {
        let x = a.subrange(1, a.len() as int);
        if b.len() > 0 {
            let y = b.subrange(1, b.len() as int);
            if c.len() > 0 {
                lemma_order(x, y, c.subrange(1, c.len() as int));
            } else {
                lemma_order(x, y, c);
            }
            if a[0] == b[0] && x == y {
                assert(a =~= seq![a[0]] + x);
                assert(b =~= seq![b[0]] + y);
            }
        } else {
            lemma_order(x, b, c);
        }
    } else if b.len() == 0 {
        assert(a =~= b);
    }
}

// ---- case ----

/// `c` in lower case, if it is an ASCII letter.
pub open spec fn ascii_lower(c: char) -> char {
    if 'A' <= c <= 'Z' {
        (c as u8 + 32) as char
    } else {
        c
    }
}

/// `s` with its ASCII letters in lower case.
pub open spec fn lowered(s: Seq<char>) -> Seq<char> {
    s.map_values(|c: char| ascii_lower(c))
}

/// `s` with its ASCII letters in lower case.
pub fn lower(s: &str) -> (r: String)
    ensures
        r@ == lowered(s@),
{
    let v = chars_of(s);
    let mut out = String::new();
    let mut i: usize = 0;
    while i < v.len()
        invariant
            i <= v.len(),
            v@ == s@,
            out@ == lowered(v@.subrange(0, i as int)),
        decreases v.len() - i,
    {
        let c: char = v[i];
        if 'A' <= c && c <= 'Z' {
            out.push(((c as u8) + 32) as char);
        } else {
            out.push(c);
        }
        assert(out@ =~= lowered(v@.subrange(0, i + 1)));
        i += 1;
    }
    assert(v@.subrange(0, v.len() as int) =~= v@);
    out
}

// ---- signed numbers ----

/// The 32-bit number that `s` spells in base `radix`, with at most one sign.
pub open spec fn signed_number(s: Seq<char>, radix: int) -> Option<int> {
    if s.len() > 0 && s[0] == '-' {
        let d = s.subrange(1, s.len() as int);
        if d.len() > 0 && d[0] == '+' {
            None
        } else {
            match number(d, radix, 0x8000_0000) {
                Some(n) => Some(-n),
                None => None,
            }
        }
    } else {
        number(s, radix, 0x7fff_ffff)
    }
}

/// Reads a 32-bit number, written in base `radix`.
pub fn parse_i32(s: &str, radix: u64) -> (r: Option<i32>)
    requires
        2 <= radix <= 16,
    ensures
        match r {
            Some(n) => signed_number(s@, radix as int) == Some(n as int),
            None => signed_number(s@, radix as int) is None,
        },
{
    let v = chars_of(s);
    if v.len() > 0 && v[0] == '-' {
        if v.len() > 1 && v[1] == '+' {
            return None;
        }
        let d = piece(&v, 1, v.len());
        match parse_number(d.as_str(), radix, 0x8000_0000) {
            Some(n) => {
                let m: i64 = -(n as i64);
                Some(m as i32)
            },
            None => None,
        }
    } else {
        match parse_number(s, radix, 0x7fff_ffff) {
            Some(n) => Some(n as i32),
            None => None,
        }
    }
}

// ---- words ----

/// How many characters stand before the first white space.
pub open spec fn word_len(s: Seq<char>) -> int
    decreases s.len(),
{
    if s.len() == 0 || is_space(s[0]) {
        0
    } else {
        1 + word_len(s.subrange(1, s.len() as int))
    }
}

/// The second word of `s`, words being what white space separates.
pub open spec fn second_word(s: Seq<char>) -> Option<Seq<char>> {
    let a = trim_front(s);
    let b = trim_front(a.subrange(word_len(a), a.len() as int));
    if b.len() == 0 {
        None
    } else {
        Some(b.subrange(0, word_len(b)))
    }
}

fn skip_space(v: &Vec<char>, from: usize) -> (r: usize)
    requires
        from <= v.len(),
    ensures
        from <= r <= v.len(),
        v@.subrange(r as int, v.len() as int) == trim_front(
            v@.subrange(from as int, v.len() as int),
        ),
{
    let mut i: usize = from;
    while i < v.len() && space(v[i])
        invariant
            from <= i <= v.len(),
            trim_front(v@.subrange(i as int, v.len() as int)) == trim_front(
                v@.subrange(from as int, v.len() as int),
            ),
        decreases v.len() - i,
    {
        proof {
            let here = v@.subrange(i as int, v.len() as int);
            assert(here.subrange(1, here.len() as int) =~= v@.subrange(i + 1, v.len() as int));
        }
        i += 1;
    }
    i
}

fn skip_word(v: &Vec<char>, from: usize) -> (r: usize)
    requires
        from <= v.len(),
    ensures
        from <= r <= v.len(),
        r == from + word_len(v@.subrange(from as int, v.len() as int)),
{
    let mut i: usize = from;
    while i < v.len() && !space(v[i])
        invariant
            from <= i <= v.len(),
            i + word_len(v@.subrange(i as int, v.len() as int)) == from + word_len(
                v@.subrange(from as int, v.len() as int),
            ),
        decreases v.len() - i,
    {
        proof {
            let here = v@.subrange(i as int, v.len() as int);
            assert(here.subrange(1, here.len() as int) =~= v@.subrange(i + 1, v.len() as int));
        }
        i += 1;
    }
    i
}

/// The second word of `s`.
pub fn word_two(s: &str) -> (r: Option<String>)
    ensures
        text_of(r) == second_word(s@),
{
    let v = chars_of(s);
    assert(v@.subrange(0, v.len() as int) =~= v@);
    let a: usize = skip_space(&v, 0);
    let b: usize = skip_word(&v, a);
    proof {
        let x = v@.subrange(a as int, v.len() as int);
        assert(x.subrange(b - a, x.len() as int) =~= v@.subrange(b as int, v.len() as int));
    }
    let c: usize = skip_space(&v, b);
    if c == v.len() {
        return None;
    }
    let d: usize = skip_word(&v, c);
    proof {
        let y = v@.subrange(c as int, v.len() as int);
        assert(y.subrange(0, d - c) =~= v@.subrange(c as int, d as int));
    }
    Some(piece(&v, c, d))
}

/// The first word of `s`, words being what white space separates.
pub open spec fn first_word(s: Seq<char>) -> Option<Seq<char>> {
    let a = trim_front(s);
    if a.len() == 0 {
        None
    } else {
        Some(a.subrange(0, word_len(a)))
    }
}

/// The first word of `s`.
pub fn word_one(s: &str) -> (r: Option<String>)
    ensures
        text_of(r) == first_word(s@),
{
    let v = chars_of(s);
    assert(v@.subrange(0, v.len() as int) =~= v@);
    let a: usize = skip_space(&v, 0);
    if a == v.len() {
        return None;
    }
    let b: usize = skip_word(&v, a);
    proof {
        let x = v@.subrange(a as int, v.len() as int);
        assert(x.subrange(0, b - a) =~= v@.subrange(a as int, b as int));
    }
    Some(piece(&v, a, b))
}

// ---- settings ----

/// A variable's value, where it is set to something.
pub open spec fn given(v: Option<String>) -> Option<Seq<char>> {
    match text_of(v) {
        Some(s) => if s.len() == 0 {
            None
        } else {
            Some(s)
        },
        None => None,
    }
}

/// A variable's value, where it is set to something.
pub fn if_given(v: Option<String>) -> (r: Option<String>)
    ensures
        text_of(r) == given(v),
{
    match v {
        Some(s) => if s.as_str().is_empty() {
            None
        } else {
            Some(s)
        },
        None => None,
    }
}

// ---- first occurrence ----

/// Where `p` first stands in `s`, from place `i` on.
pub open spec fn first_from(s: Seq<char>, p: Seq<char>, i: int) -> Option<int>
    decreases s.len() + 1 - i,
{
    if i > s.len() {
        None
    } else if stands_at(s, p, i) {
        Some(i)
    } else {
        first_from(s, p, i + 1)
    }
}

/// Where `p` first stands in `s`.
pub open spec fn first_place(s: Seq<char>, p: Seq<char>) -> Option<int> {
    first_from(s, p, 0)
}

/// Where `p` first stands in `v`.
pub fn find_text(v: &Vec<char>, p: &Vec<char>) -> (r: Option<usize>)
    ensures
        match r {
            Some(i) => first_place(v@, p@) == Some(i as int) && i + p.len() <= v.len(),
            None => first_place(v@, p@) is None,
        },
{
    let mut i: usize = 0;
    loop
        invariant
            i <= v.len(),
            first_place(v@, p@) == first_from(v@, p@, i as int),
        decreases v.len() - i,
    {
        if matches_at(v, i, p) {
            return Some(i);
        }
        if i == v.len() {
            assert(first_from(v@, p@, i + 1) is None);
            return None;
        }
        i += 1;
    }
}

// ---- bytes as text ----

/// Bytes as text, with what is not UTF-8 replaced.
pub uninterp spec fn lossy_text(b: Seq<u8>) -> Seq<char>;

/// std's `String::from_utf8_lossy`: valid UTF-8 is kept as it is. How the rest
/// is replaced is left unsaid, beyond that it depends on the bytes alone.
#[verifier::external_body]
pub(crate) fn from_utf8_lossy(b: &[u8]) -> (s: String)
    ensures
        s@ == lossy_text(b@),
        vstd::utf8::valid_utf8(b@) ==> s@ == vstd::utf8::decode_utf8(b@),
{
    String::from_utf8_lossy(b).into_owned()
}

// ---- laws ----

/// `last_index` is the one place with `c` there and nowhere behind it.
pub proof fn lemma_last_index(s: Seq<char>, c: char)
    ensures
        match last_index(s, c) {
            Some(i) => 0 <= i < s.len() && s[i] == c && forall|k: int|
                i < k < s.len() ==> s[k] != c,
            None => forall|k: int| 0 <= k < s.len() ==> s[k] != c,
        },
    decreases s.len(),
{
    if s.len() > 0 && s.last() != c {
        let t = s.drop_last();
        lemma_last_index(t, c);
        assert forall|k: int| 0 <= k < t.len() implies s[k] == t[k] by {}
    }
}

/// **Law.** A text is cut at its first mark or at its last one: the two parts and
/// the mark are the text again, and no mark stands in the part before the first
/// one or behind the last one. Without a mark there is nothing to cut.
pub proof fn law_a_text_is_cut_at_its_mark(s: Seq<char>, c: char)
    ensures
        cut(s, c) is Some <==> s.contains(c),
        rcut(s, c) is Some <==> s.contains(c),
        cut(s, c) matches Some(p) ==> s == p.0 + seq![c] + p.1 && !p.0.contains(c),
        rcut(s, c) matches Some(p) ==> s == p.0 + seq![c] + p.1 && !p.1.contains(c),
{
    lemma_first_index(s, c);
    lemma_last_index(s, c);
    if let Some(p) = cut(s, c) {
        assert(s =~= p.0 + seq![c] + p.1);
        assert(s[p.0.len() as int] == c);
    }
    if let Some(p) = rcut(s, c) {
        assert(s =~= p.0 + seq![c] + p.1);
        assert(s[p.0.len() as int] == c);
    }
}

/// **Law.** Splitting loses nothing but the marks: the pieces with a mark between
/// each two are the text again, and no mark stands in any of them.
pub proof fn law_pieces_make_up_the_text(s: Seq<char>, c: char)
    ensures
        pieces(s, c).len() > 0,
        joined(pieces(s, c), seq![c]) == s,
        forall|i: int| 0 <= i < pieces(s, c).len() ==> !(#[trigger] pieces(s, c)[i]).contains(c),
    decreases s.len(),
{
    lemma_last_index(s, c);
    match last_index(s, c) {
        Some(i) => {
            let head = s.subrange(0, i);
            let tail = s.subrange(i + 1, s.len() as int);
            law_pieces_make_up_the_text(head, c);
            let p = pieces(s, c);
            assert(p =~= pieces(head, c).push(tail));
            assert(p.drop_last() =~= pieces(head, c));
            assert(p.last() == tail);
            assert(s =~= head + seq![c] + tail);
        },
        None => {
            let p = pieces(s, c);
            assert(p =~= seq![s]);
            assert(p.drop_last() =~= Seq::<Seq<char>>::empty());
            assert(joined(p, seq![c]) =~= s);
        },
    }
}

proof fn lemma_trim_front(s: Seq<char>)
    ensures
        trim_front(s).len() <= s.len(),
        s.subrange(s.len() - trim_front(s).len(), s.len() as int) == trim_front(s),
        forall|i: int| 0 <= i < s.len() - trim_front(s).len() ==> is_space(#[trigger] s[i]),
        trim_front(s).len() > 0 ==> !is_space(trim_front(s)[0]),
    decreases s.len(),
{
    if s.len() > 0 && is_space(s[0]) {
        let t = s.subrange(1, s.len() as int);
        lemma_trim_front(t);
        let n = s.len() - trim_front(s).len();
        assert(s.subrange(n, s.len() as int) =~= t.subrange(n - 1, t.len() as int));
        assert forall|i: int| 0 <= i < n implies is_space(#[trigger] s[i]) by {
            if i > 0 {
                assert(t[i - 1] == s[i]);
            }
        }
    } else {
        assert(s.subrange(0, s.len() as int) =~= s);
    }
}

proof fn lemma_trim_back(s: Seq<char>)
    ensures
        trim_back(s).len() <= s.len(),
        s.subrange(0, trim_back(s).len() as int) == trim_back(s),
        forall|i: int| trim_back(s).len() <= i < s.len() ==> is_space(#[trigger] s[i]),
        trim_back(s).len() > 0 ==> !is_space(trim_back(s).last()),
    decreases s.len(),
{
    if s.len() > 0 && is_space(s.last()) {
        let t = s.drop_last();
        lemma_trim_back(t);
        let n = trim_back(s).len() as int;
        assert(s.subrange(0, n) =~= t.subrange(0, n));
        assert forall|i: int| n <= i < s.len() implies is_space(#[trigger] s[i]) by {
            if i < s.len() - 1 {
                assert(t[i] == s[i]);
            }
        }
    } else {
        assert(s.subrange(0, s.len() as int) =~= s);
    }
}

/// **Law.** Trimming takes white space off both ends, all of it and nothing else:
/// what is left stands in the text between two runs of white space, and neither
/// begins nor ends with any.
pub proof fn law_trimming_takes_white_space_only(s: Seq<char>)
    ensures
        exists|i: int, j: int|
            {
                &&& 0 <= i <= j <= s.len()
                &&& #[trigger] s.subrange(i, j) == trimmed(s)
                &&& forall|k: int| 0 <= k < i ==> is_space(#[trigger] s[k])
                &&& forall|k: int| j <= k < s.len() ==> is_space(#[trigger] s[k])
            },
        trimmed(s).len() > 0 ==> !is_space(trimmed(s)[0]) && !is_space(trimmed(s).last()),
{
    lemma_trim_front(s);
    let a = trim_front(s);
    lemma_trim_back(a);
    let i = s.len() - a.len();
    let j = i + trimmed(s).len();
    assert(s.subrange(i, j) =~= trimmed(s));
    assert forall|k: int| j <= k < s.len() implies is_space(#[trigger] s[k]) by {
        assert(a[k - i] == s[k]);
    }
    if trimmed(s).len() > 0 {
        assert(trimmed(s)[0] == a[0]);
    }
}

proof fn lemma_decimal(n: nat)
    ensures
        decimal(n).len() > 0,
        spelled(decimal(n), 10) == n,
        forall|i: int| 0 <= i < decimal(n).len() ==> 0 <= digit_of(#[trigger] decimal(n)[i]) < 10,
        decimal(n)[0] != '+',
    decreases n,
{
    reveal_with_fuel(spelled, 2);
    let d = decimal(n);
    if n < 10 {
        assert(d.drop_last() =~= Seq::<char>::empty());
        assert(digit_of(digit_char(n as int)) == n);
    } else {
        lemma_decimal(n / 10);
        assert(d.drop_last() =~= decimal(n / 10));
        assert(digit_of(digit_char((n % 10) as int)) == n % 10);
        assert forall|i: int| 0 <= i < d.len() implies 0 <= digit_of(#[trigger] d[i]) < 10 by {
            if i < d.len() - 1 {
                assert(d[i] == decimal(n / 10)[i]);
            }
        }
        assert(d[0] == decimal(n / 10)[0]);
    }
}

/// **Law.** A number that was written is read back as itself.
pub proof fn law_a_written_number_is_read_back(n: nat, max: int)
    ensures
        number(decimal(n), 10, max) == if n <= max {
            Some(n as int)
        } else {
            None
        },
{
    lemma_decimal(n);
}

proof fn lemma_spelled_is_natural(s: Seq<char>, radix: int)
    requires
        radix >= 0,
    ensures
        spelled(s, radix) >= 0,
    decreases s.len(),
{
    if s.len() > 0 {
        lemma_spelled_is_natural(s.drop_last(), radix);
        assert(spelled(s.drop_last(), radix) * radix >= 0) by (nonlinear_arith)
            requires
                spelled(s.drop_last(), radix) >= 0,
                radix >= 0,
        ;
    }
}

/// **Law.** A number that is read is neither negative nor above what was asked
/// for.
pub proof fn law_a_number_is_in_range(s: Seq<char>, radix: int, max: int)
    requires
        radix >= 0,
    ensures
        number(s, radix, max) matches Some(n) ==> 0 <= n <= max,
{
    lemma_spelled_is_natural(unsigned(s), radix);
}

proof fn lemma_hex_len(b: Seq<u8>)
    ensures
        hex_text(b).len() == 2 * b.len(),
    decreases b.len(),
{
    if b.len() > 0 {
        lemma_hex_len(b.drop_last());
    }
}

/// **Law.** Hex tells bytes apart: what is written alike is the same.
pub proof fn law_hex_tells_bytes_apart(a: Seq<u8>, b: Seq<u8>)
    requires
        hex_text(a) == hex_text(b),
    ensures
        a == b,
    decreases a.len(),
{
    lemma_hex_len(a);
    lemma_hex_len(b);
    if a.len() > 0 {
        let x = a.drop_last();
        let y = b.drop_last();
        lemma_hex_len(x);
        lemma_hex_len(y);
        let n = 2 * x.len() as int;
        let s = hex_text(a);
        let t = hex_text(b);
        assert(s.subrange(0, n) =~= hex_text(x));
        assert(t.subrange(0, n) =~= hex_text(y));
        law_hex_tells_bytes_apart(x, y);
        let p = a.last();
        let q = b.last();
        assert(s[n] == digit_char(p as int / 16) && s[n + 1] == digit_char(p as int % 16));
        assert(t[n] == digit_char(q as int / 16) && t[n + 1] == digit_char(q as int % 16));
        assert(digit_of(s[n]) == p as int / 16 && digit_of(s[n + 1]) == p as int % 16);
        assert(digit_of(t[n]) == q as int / 16 && digit_of(t[n + 1]) == q as int % 16);
        assert(p == q);
        assert(a =~= x.push(p));
        assert(b =~= y.push(q));
    } else {
        assert(a =~= b);
    }
}

proof fn lemma_first_from(s: Seq<char>, p: Seq<char>, i: int)
    requires
        0 <= i,
    ensures
        match first_from(s, p, i) {
            Some(k) => i <= k && stands_at(s, p, k) && forall|j: int|
                i <= j < k ==> !(#[trigger] stands_at(s, p, j)),
            None => forall|j: int| i <= j <= s.len() ==> !(#[trigger] stands_at(s, p, j)),
        },
    decreases s.len() + 1 - i,
{
    if i <= s.len() && !stands_at(s, p, i) {
        lemma_first_from(s, p, i + 1);
    }
}

/// **Law.** A text is found where it first stands, and wherever it stands at all.
pub proof fn law_a_text_is_found_where_it_first_stands(s: Seq<char>, p: Seq<char>)
    ensures
        match first_place(s, p) {
            Some(k) => 0 <= k && stands_at(s, p, k) && forall|j: int|
                0 <= j < k ==> !(#[trigger] stands_at(s, p, j)),
            None => forall|j: int| 0 <= j <= s.len() ==> !(#[trigger] stands_at(s, p, j)),
        },
{
    lemma_first_from(s, p, 0);
}

/// **Law.** Lower case changes the capital letters of ASCII, each to its own small
/// one, and nothing else.
pub proof fn law_lower_case_changes_capitals_only(s: Seq<char>, i: int)
    requires
        0 <= i < s.len(),
    ensures
        lowered(s).len() == s.len(),
        'A' <= s[i] <= 'Z' ==> lowered(s)[i] as int == s[i] as int + 32,
        !('A' <= s[i] <= 'Z') ==> lowered(s)[i] == s[i],
        !('A' <= lowered(s)[i] <= 'Z'),
{
}

} // verus!
