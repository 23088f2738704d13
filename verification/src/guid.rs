//! Globally unique identifiers of ETW providers and sessions: the textual
//! form `XXXXXXXX-XXXX-XXXX-XXXX-XXXXXXXXXXXX` and its parser.

use vstd::prelude::*;
use crate::text::{chars_of, hex_digit, hex_fixed, push_hex_fixed, string_of};

verus! {

/// A GUID laid out as Windows stores it: a 32-bit, two 16-bit fields and
/// eight bytes.
#[derive(Clone, Copy, Debug, PartialEq, Eq)]
pub struct Guid {
    pub data1: u32,
    pub data2: u16,
    pub data3: u16,
    pub data4: [u8; 8],
}

/// The mathematical value of a [`Guid`]: its four fields, the bytes as a
/// sequence.
pub type GuidView = (u32, u16, u16, Seq<u8>);

impl View for Guid {
    type V = GuidView;

    open spec fn view(&self) -> GuidView {
        (self.data1, self.data2, self.data3, self.data4@)
    }
}

// ---------------------------------------------------------------------------
// Parsing
// ---------------------------------------------------------------------------

pub open spec fn is_brace(c: char) -> bool {
    c == '{' || c == '}'
}

/// `s` without its leading braces.
pub open spec fn trim_leading_braces(s: Seq<char>) -> Seq<char>
    decreases s.len(),
{
    if s.len() > 0 && is_brace(s[0]) {
        trim_leading_braces(s.drop_first())
    } else {
        s
    }
}

/// `s` without its trailing braces.
pub open spec fn trim_trailing_braces(s: Seq<char>) -> Seq<char>
    decreases s.len(),
{
    if s.len() > 0 && is_brace(s.last()) {
        trim_trailing_braces(s.drop_last())
    } else {
        s
    }
}

/// `s` with every `-` removed.
pub open spec fn without_hyphens(s: Seq<char>) -> Seq<char>
    decreases s.len(),
{
    if s.len() == 0 {
        s
    } else if s.last() == '-' {
        without_hyphens(s.drop_last())
    } else {
        without_hyphens(s.drop_last()).push(s.last())
    }
}

pub open spec fn is_hex_char(c: char) -> bool {
    ('0' <= c && c <= '9') || ('a' <= c && c <= 'f') || ('A' <= c && c <= 'F')
}

/// The value of a hexadecimal digit (either case).
pub open spec fn hex_char_value(c: char) -> nat {
    if '0' <= c && c <= '9' {
        (c as int - 48) as nat
    } else if 'a' <= c && c <= 'f' {
        (c as int - 87) as nat
    } else {
        (c as int - 55) as nat
    }
}

pub open spec fn all_hex(s: Seq<char>) -> bool {
    forall|i: int| 0 <= i < s.len() ==> is_hex_char(#[trigger] s[i])
}

/// The number that the hexadecimal digits `s` denote, most significant
/// first.
pub open spec fn hex_value(s: Seq<char>) -> nat
    decreases s.len(),
{
    if s.len() == 0 {
        0
    } else {
        hex_value(s.drop_last()) * 16 + hex_char_value(s.last())
    }
}

pub open spec fn two_pow_128() -> nat {
    0x1_0000_0000_0000_0000_0000_0000_0000_0000nat
}

/// The digits of a radix-16 number after an optional leading `+`.
pub open spec fn radix16_digits(s: Seq<char>) -> Seq<char> {
    if s.len() > 0 && s[0] == '+' {
        s.drop_first()
    } else {
        s
    }
}

/// What `u128::from_str_radix(s, 16)` accepts and returns: an optional `+`
/// followed by at least one hexadecimal digit, nothing else, and a value
/// below 2^128.
pub open spec fn parse_u128_hex(s: Seq<char>) -> Option<nat> {
    let d = radix16_digits(s);
    if d.len() == 0 || !all_hex(d) || hex_value(d) >= two_pow_128() {
        None
    } else {
        Some(hex_value(d))
    }
}

/// The GUID whose fields are the bits of the 128-bit number `v`, most
/// significant first: 32 bits, 16 bits, 16 bits, then eight bytes.
pub open spec fn guid_of_u128(v: nat) -> GuidView {
    (
        (v / 0x1_0000_0000_0000_0000_0000_0000nat) as u32,
        ((v / 0x1_0000_0000_0000_0000_0000nat) % 0x1_0000) as u16,
        ((v / 0x1_0000_0000_0000_0000nat) % 0x1_0000) as u16,
        seq![
            ((v / 0x100_0000_0000_0000nat) % 256) as u8,
            ((v / 0x1_0000_0000_0000nat) % 256) as u8,
            ((v / 0x100_0000_0000nat) % 256) as u8,
            ((v / 0x1_0000_0000nat) % 256) as u8,
            ((v / 0x100_0000nat) % 256) as u8,
            ((v / 0x1_0000nat) % 256) as u8,
            ((v / 0x100nat) % 256) as u8,
            (v % 256) as u8,
        ],
    )
}

/// The GUID that a string denotes: braces at either end are dropped, every
/// hyphen is dropped, and what is left is read as one hexadecimal number.
/// `None` where no number can be read.
pub open spec fn guid_from_str(s: Seq<char>) -> Option<GuidView> {
    match parse_u128_hex(without_hyphens(trim_trailing_braces(trim_leading_braces(s)))) {
        Some(v) => Some(guid_of_u128(v)),
        None => None,
    }
}

proof fn lemma_trim_leading_step(s: Seq<char>, i: int)
    requires
        0 <= i < s.len(),
        is_brace(s[i]),
    ensures
        trim_leading_braces(s.subrange(i, s.len() as int)) == trim_leading_braces(
            s.subrange(i + 1, s.len() as int),
        ),
{
    assert(s.subrange(i, s.len() as int).drop_first() =~= s.subrange(i + 1, s.len() as int));
}

proof fn lemma_trim_trailing_step(s: Seq<char>, a: int, b: int)
    requires
        0 <= a < b <= s.len(),
        is_brace(s[b - 1]),
    ensures
        trim_trailing_braces(s.subrange(a, b)) == trim_trailing_braces(s.subrange(a, b - 1)),
{
    assert(s.subrange(a, b).drop_last() =~= s.subrange(a, b - 1));
}

proof fn lemma_hex_value_monotone(s: Seq<char>, k: int)
    requires
        0 <= k <= s.len(),
    ensures
        hex_value(s.take(k)) <= hex_value(s),
    decreases s.len() - k,
{
    if k < s.len() {
        lemma_hex_value_monotone(s, k + 1);
        assert(s.take(k + 1).drop_last() =~= s.take(k));
    } else {
        assert(s.take(k) =~= s);
    }
}

fn is_hex_char_exec(c: char) -> (r: bool)
    ensures
        r == is_hex_char(c),
{
    ('0' <= c && c <= '9') || ('a' <= c && c <= 'f') || ('A' <= c && c <= 'F')
}

fn hex_char_value_exec(c: char) -> (d: u128)
    requires
        is_hex_char(c),
    ensures
        d == hex_char_value(c),
        d < 16,
{
    if '0' <= c && c <= '9' {
        (c as u32 - 48) as u128
    } else if 'a' <= c && c <= 'f' {
        (c as u32 - 87) as u128
    } else {
        (c as u32 - 55) as u128
    }
}

/// Reads `chars` as the number that `u128::from_str_radix(.., 16)` reads.
fn parse_u128_hex_exec(chars: &Vec<char>) -> (r: Option<u128>)
    ensures
        match parse_u128_hex(chars@) {
            Some(v) => r == Some(v as u128),
            None => r is None,
        },
{
    let n = chars.len();
    let start: usize = if n > 0 && chars[0] == '+' {
        1
    } else {
        0
    };
    let ghost d = radix16_digits(chars@);
    assert(d =~= chars@.subrange(start as int, n as int));
    if start == n {
        return None;
    }
    let mut acc: u128 = 0;
    let mut k: usize = start;
    while k < n
        invariant
            start <= k <= n,
            n == chars@.len(),
            d == chars@.subrange(start as int, n as int),
            d == radix16_digits(chars@),
            acc == hex_value(d.take(k - start)),
            all_hex(d.take(k - start)),
        decreases n - k,
    {
        let c = chars[k];
        if !is_hex_char_exec(c) {
            assert(!is_hex_char(d[k - start]));
            assert(!all_hex(d));
            return None;
        }
        let digit = hex_char_value_exec(c);
        assert(d.take(k + 1 - start).drop_last() =~= d.take(k - start));
        assert(d.take(k + 1 - start).last() == c);
        let m = acc.checked_mul(16);
        match m {
            None => {
                proof {
                    assert(hex_value(d.take(k + 1 - start)) >= acc * 16);
                    lemma_hex_value_monotone(d, k + 1 - start);
                }
                return None;
            },
            Some(m) => {
                let a = m.checked_add(digit);
                match a {
                    None => {
                        proof {
                            lemma_hex_value_monotone(d, k + 1 - start);
                        }
                        return None;
                    },
                    Some(a) => {
                        acc = a;
                    },
                }
            },
        }
        assert(all_hex(d.take(k + 1 - start)));
        k = k + 1;
    }
    assert(d.take(n - start) =~= d);
    Some(acc)
}

fn guid_of_u128_exec(v: u128) -> (g: Guid)
    ensures
        g@ == guid_of_u128(v as nat),
{
    let g = Guid {
        data1: (v / 0x1_0000_0000_0000_0000_0000_0000u128) as u32,
        data2: ((v / 0x1_0000_0000_0000_0000_0000u128) % 0x1_0000) as u16,
        data3: ((v / 0x1_0000_0000_0000_0000u128) % 0x1_0000) as u16,
        data4: [
            ((v / 0x100_0000_0000_0000u128) % 256) as u8,
            ((v / 0x1_0000_0000_0000u128) % 256) as u8,
            ((v / 0x100_0000_0000u128) % 256) as u8,
            ((v / 0x1_0000_0000u128) % 256) as u8,
            ((v / 0x100_0000u128) % 256) as u8,
            ((v / 0x1_0000u128) % 256) as u8,
            ((v / 0x100u128) % 256) as u8,
            (v % 256) as u8,
        ],
    };
    assert(g.data4@ =~= guid_of_u128(v as nat).3);
    g
}

/// The GUID that `guid_str` denotes, or `None` where the string does not
/// denote one. Braces at either end and all hyphens are ignored, so
/// `{E02A841C-75A3-4FA7-AFC8-AE09CF9B7F23}` and
/// `E02A841C75A34FA7AFC8AE09CF9B7F23` denote the same GUID.
pub fn parse_guid(guid_str: &str) -> (r: Option<Guid>)
    ensures
        match guid_from_str(guid_str@) {
            Some(g) => r matches Some(x) && x@ == g,
            None => r is None,
        },
{
    let chars = chars_of(guid_str);
    let ghost s = chars@;
    let n = chars.len();
    // Leading braces.
    let mut a: usize = 0;
    assert(s.subrange(0, n as int) =~= s);
    while a < n && (chars[a] == '{' || chars[a] == '}')
        invariant
            a <= n,
            n == s.len(),
            s == chars@,
            trim_leading_braces(s) == trim_leading_braces(s.subrange(a as int, n as int)),
        decreases n - a,
    {
        proof {
            lemma_trim_leading_step(s, a as int);
        }
        a = a + 1;
    }
    assert(trim_leading_braces(s.subrange(a as int, n as int)) == s.subrange(a as int, n as int));
    // Trailing braces.
    let mut b: usize = n;
    while b > a && (chars[b - 1] == '{' || chars[b - 1] == '}')
        invariant
            a <= b <= n,
            n == s.len(),
            s == chars@,
            trim_trailing_braces(trim_leading_braces(s)) == trim_trailing_braces(
                s.subrange(a as int, b as int),
            ),
        decreases b,
    {
        proof {
            lemma_trim_trailing_step(s, a as int, b as int);
        }
        b = b - 1;
    }
    let ghost t = s.subrange(a as int, b as int);
    assert(trim_trailing_braces(t) == t);
    // Hyphens.
    let mut h: Vec<char> = Vec::new();
    let mut k: usize = a;
    while k < b
        invariant
            a <= k <= b <= n,
            n == s.len(),
            s == chars@,
            t == s.subrange(a as int, b as int),
            h@ == without_hyphens(t.take(k - a)),
        decreases b - k,
    {
        let c = chars[k];
        assert(t.take(k + 1 - a).drop_last() =~= t.take(k - a));
        assert(t.take(k + 1 - a).last() == c);
        if c != '-' {
            h.push(c);
        }
        k = k + 1;
    }
    assert(t.take(b - a) =~= t);
    match parse_u128_hex_exec(&h) {
        Some(v) => Some(guid_of_u128_exec(v)),
        None => None,
    }
}

/// The GUID that `guid_str` denotes. The string must denote one: use
/// [`parse_guid`] where that is not known.
pub fn string_to_guid(guid_str: &str) -> (g: Guid)
    requires
        guid_from_str(guid_str@) is Some,
    ensures
        g@ == guid_from_str(guid_str@)->0,
{
    match parse_guid(guid_str) {
        Some(g) => g,
        None => Guid { data1: 0, data2: 0, data3: 0, data4: [0u8; 8] },
    }
}

// ---------------------------------------------------------------------------
// Formatting
// ---------------------------------------------------------------------------

/// The canonical upper-case text of a GUID, as
/// `{:08X}-{:04X}-{:04X}-{:02X}{:02X}-{:02X}{:02X}{:02X}{:02X}{:02X}{:02X}`
/// writes it.
pub open spec fn guid_text(g: GuidView) -> Seq<char> {
    hex_fixed(g.0 as nat, 8) + seq!['-'] + hex_fixed(g.1 as nat, 4) + seq!['-'] + hex_fixed(
        g.2 as nat,
        4,
    ) + seq!['-'] + hex_fixed(g.3[0] as nat, 2) + hex_fixed(g.3[1] as nat, 2) + seq!['-']
        + hex_fixed(g.3[2] as nat, 2) + hex_fixed(g.3[3] as nat, 2) + hex_fixed(g.3[4] as nat, 2)
        + hex_fixed(g.3[5] as nat, 2) + hex_fixed(g.3[6] as nat, 2) + hex_fixed(g.3[7] as nat, 2)
}

/// The canonical upper-case text of `guid`, e.g.
/// `E02A841C-75A3-4FA7-AFC8-AE09CF9B7F23`.
pub fn guid_to_string(guid: &Guid) -> (s: String)
    ensures
        s@ == guid_text(guid@),
{
    let mut v: Vec<char> = Vec::new();
    push_hex_fixed(&mut v, guid.data1 as u64, 8);
    v.push('-');
    push_hex_fixed(&mut v, guid.data2 as u64, 4);
    v.push('-');
    push_hex_fixed(&mut v, guid.data3 as u64, 4);
    v.push('-');
    push_hex_fixed(&mut v, guid.data4[0] as u64, 2);
    push_hex_fixed(&mut v, guid.data4[1] as u64, 2);
    v.push('-');
    push_hex_fixed(&mut v, guid.data4[2] as u64, 2);
    push_hex_fixed(&mut v, guid.data4[3] as u64, 2);
    push_hex_fixed(&mut v, guid.data4[4] as u64, 2);
    push_hex_fixed(&mut v, guid.data4[5] as u64, 2);
    push_hex_fixed(&mut v, guid.data4[6] as u64, 2);
    push_hex_fixed(&mut v, guid.data4[7] as u64, 2);
    assert(v@ =~= guid_text(guid@));
    string_of(&v)
}

/// Whether two GUIDs are the same, field by field.
pub fn guids_equal(a: &Guid, b: &Guid) -> (r: bool)
    ensures
        r == (a@ == b@),
{
    let mut same = a.data1 == b.data1 && a.data2 == b.data2 && a.data3 == b.data3;
    let mut i: usize = 0;
    while i < 8
        invariant
            i <= 8,
            same == (a.data1 == b.data1 && a.data2 == b.data2 && a.data3 == b.data3 && forall|
                j: int,
            |
                0 <= j < i ==> a.data4@[j] == b.data4@[j]),
        decreases 8 - i,
    {
        same = same && a.data4[i] == b.data4[i];
        i = i + 1;
    }
    if same {
        assert(a.data4@ =~= b.data4@);
    }
    same
}

// ---------------------------------------------------------------------------
// Round trip
// ---------------------------------------------------------------------------

/// 16 to the power `w`.
pub open spec fn pow16(w: nat) -> nat
    decreases w,
{
    if w == 0 {
        1
    } else {
        16 * pow16((w - 1) as nat)
    }
}

proof fn lemma_pow16_positive(w: nat)
    ensures
        pow16(w) > 0,
    decreases w,
{
    if w > 0 {
        lemma_pow16_positive((w - 1) as nat);
    }
}

proof fn lemma_hex_digit(d: nat)
    requires
        d < 16,
    ensures
        is_hex_char(hex_digit(d)),
        hex_char_value(hex_digit(d)) == d,
        hex_digit(d) != '-',
        hex_digit(d) != '+',
        !is_brace(hex_digit(d)),
{
}

/// What a fixed-width hex field is made of: `w` hex digits (so no brace,
/// hyphen or sign), whose value is `n` modulo 16^w.
proof fn lemma_hex_fixed(n: nat, w: nat)
    ensures
        hex_fixed(n, w).len() == w,
        all_hex(hex_fixed(n, w)),
        forall|i: int|
            0 <= i < w ==> #[trigger] hex_fixed(n, w)[i] != '-' && hex_fixed(n, w)[i] != '+'
                && !is_brace(hex_fixed(n, w)[i]),
        hex_value(hex_fixed(n, w)) == n % pow16(w),
    decreases w,
{
    if w > 0 {
        let prev = hex_fixed(n / 16, (w - 1) as nat);
        lemma_hex_fixed(n / 16, (w - 1) as nat);
        lemma_hex_digit(n % 16);
        let cur = hex_fixed(n, w);
        assert(cur == prev.push(hex_digit(n % 16)));
        assert(cur.drop_last() =~= prev);
        assert forall|i: int| 0 <= i < cur.len() implies is_hex_char(#[trigger] cur[i]) by {
            if i < prev.len() {
                assert(cur[i] == prev[i]);
            }
        }
        assert forall|i: int|
            0 <= i < w implies #[trigger] cur[i] != '-' && cur[i] != '+' && !is_brace(cur[i]) by {
            if i < prev.len() {
                assert(cur[i] == prev[i]);
            }
        }
        lemma_pow16_positive((w - 1) as nat);
        vstd::arithmetic::div_mod::lemma_mod_breakdown(n as int, 16, pow16((w - 1) as nat) as int);
        assert(pow16(w) == 16 * pow16((w - 1) as nat));
        assert(hex_value(cur) == hex_value(prev) * 16 + n % 16);
        assert((n / 16) % pow16((w - 1) as nat) * 16 == 16 * ((n / 16) % pow16((w - 1) as nat)))
            by (nonlinear_arith);
    } else {
        assert(n % 1 == 0);
    }
}

proof fn lemma_hex_value_concat(a: Seq<char>, b: Seq<char>)
    ensures
        hex_value(a + b) == hex_value(a) * pow16(b.len()) + hex_value(b),
    decreases b.len(),
{
    if b.len() == 0 {
        assert(a + b =~= a);
        assert(pow16(0) == 1);
        assert(hex_value(b) == 0);
        let va = hex_value(a);
        assert(va * pow16(0) == va) by (nonlinear_arith)
            requires
                pow16(0) == 1,
        ;
    } else {
        lemma_hex_value_concat(a, b.drop_last());
        assert((a + b).drop_last() =~= a + b.drop_last());
        assert((a + b).last() == b.last());
        let va = hex_value(a);
        let p = pow16((b.len() - 1) as nat);
        let vb = hex_value(b.drop_last());
        let x = hex_char_value(b.last());
        assert(hex_value(a + b) == hex_value(a + b.drop_last()) * 16 + x);
        assert(hex_value(b) == vb * 16 + x);
        assert(pow16(b.len()) == 16 * p);
        assert((va * p + vb) * 16 == va * (16 * p) + vb * 16) by (nonlinear_arith);
    }
}

proof fn lemma_without_hyphens_concat(a: Seq<char>, b: Seq<char>)
    ensures
        without_hyphens(a + b) == without_hyphens(a) + without_hyphens(b),
    decreases b.len(),
{
    if b.len() == 0 {
        assert(a + b =~= a);
        assert(without_hyphens(a) + without_hyphens(b) =~= without_hyphens(a));
    } else {
        lemma_without_hyphens_concat(a, b.drop_last());
        assert((a + b).drop_last() =~= a + b.drop_last());
        assert((a + b).last() == b.last());
        if b.last() != '-' {
            assert(without_hyphens(a) + without_hyphens(b.drop_last()).push(b.last()) =~= (
            without_hyphens(a) + without_hyphens(b.drop_last())).push(b.last()));
        }
    }
}

proof fn lemma_without_hyphens_none(s: Seq<char>)
    requires
        forall|i: int| 0 <= i < s.len() ==> #[trigger] s[i] != '-',
    ensures
        without_hyphens(s) == s,
    decreases s.len(),
{
    if s.len() > 0 {
        assert forall|i: int| 0 <= i < s.drop_last().len() implies #[trigger] s.drop_last()[i]
            != '-' by {
            assert(s.drop_last()[i] == s[i]);
        }
        lemma_without_hyphens_none(s.drop_last());
        assert(s[s.len() - 1] != '-');
        assert(s.drop_last().push(s.last()) =~= s);
    }
}

proof fn lemma_all_hex_concat(a: Seq<char>, b: Seq<char>)
    requires
        all_hex(a),
        all_hex(b),
    ensures
        all_hex(a + b),
{
    assert forall|i: int| 0 <= i < (a + b).len() implies is_hex_char(#[trigger] (a + b)[i]) by {
        if i < a.len() {
            assert((a + b)[i] == a[i]);
        } else {
            assert((a + b)[i] == b[i - a.len()]);
        }
    }
}

proof fn lemma_pow16_values()
    ensures
        pow16(2) == 0x100,
        pow16(4) == 0x1_0000,
        pow16(8) == 0x1_0000_0000,
{
    reveal_with_fuel(pow16, 9);
}

/// The value of `w` hexadecimal digits is below 16^w.
proof fn lemma_hex_value_bound(s: Seq<char>)
    requires
        all_hex(s),
    ensures
        hex_value(s) < pow16(s.len()),
    decreases s.len(),
{
    if s.len() > 0 {
        assert forall|i: int| 0 <= i < s.drop_last().len() implies is_hex_char(
            #[trigger] s.drop_last()[i],
        ) by {
            assert(s.drop_last()[i] == s[i]);
        }
        assert(is_hex_char(s[s.len() - 1]));
        lemma_hex_value_bound(s.drop_last());
        let p = pow16((s.len() - 1) as nat);
        let v = hex_value(s.drop_last());
        let x = hex_char_value(s.last());
        assert(x < 16);
        assert(v * 16 + x < 16 * p) by (nonlinear_arith)
            requires
                v < p,
                x < 16,
        ;
    }
}

/// Whether `s` is exactly `w` hexadecimal digits.
pub open spec fn hex_field(s: Seq<char>, w: nat) -> bool {
    s.len() == w && all_hex(s)
}

proof fn lemma_hex_field_chars(s: Seq<char>, w: nat)
    requires
        hex_field(s, w),
    ensures
        forall|i: int|
            0 <= i < s.len() ==> #[trigger] s[i] != '-' && s[i] != '+' && !is_brace(s[i]),
{
    assert forall|i: int| 0 <= i < s.len() implies #[trigger] s[i] != '-' && s[i] != '+'
        && !is_brace(s[i]) by {
        assert(is_hex_char(s[i]));
    }
}

/// What an 8-4-4-4-12 string of hex digits parses to: its first three
/// groups are the three numbers and the last two groups the eight bytes.
proof fn lemma_parse_hex_fields(
    h1: Seq<char>,
    h2: Seq<char>,
    h3: Seq<char>,
    b0: Seq<char>,
    b1: Seq<char>,
    b2: Seq<char>,
    b3: Seq<char>,
    b4: Seq<char>,
    b5: Seq<char>,
    b6: Seq<char>,
    b7: Seq<char>,
)
    requires
        hex_field(h1, 8),
        hex_field(h2, 4),
        hex_field(h3, 4),
        hex_field(b0, 2),
        hex_field(b1, 2),
        hex_field(b2, 2),
        hex_field(b3, 2),
        hex_field(b4, 2),
        hex_field(b5, 2),
        hex_field(b6, 2),
        hex_field(b7, 2),
    ensures
        guid_from_str(
            h1 + seq!['-'] + h2 + seq!['-'] + h3 + seq!['-'] + b0 + b1 + seq!['-'] + b2 + b3 + b4
                + b5 + b6 + b7,
        ) == Some(
            (
                hex_value(h1) as u32,
                hex_value(h2) as u16,
                hex_value(h3) as u16,
                seq![
                    hex_value(b0) as u8,
                    hex_value(b1) as u8,
                    hex_value(b2) as u8,
                    hex_value(b3) as u8,
                    hex_value(b4) as u8,
                    hex_value(b5) as u8,
                    hex_value(b6) as u8,
                    hex_value(b7) as u8,
                ],
            ),
        ),
{
    lemma_hex_field_chars(h1, 8);
    lemma_hex_field_chars(h2, 4);
    lemma_hex_field_chars(h3, 4);
    lemma_hex_field_chars(b0, 2);
    lemma_hex_field_chars(b1, 2);
    lemma_hex_field_chars(b2, 2);
    lemma_hex_field_chars(b3, 2);
    lemma_hex_field_chars(b4, 2);
    lemma_hex_field_chars(b5, 2);
    lemma_hex_field_chars(b6, 2);
    lemma_hex_field_chars(b7, 2);
    lemma_hex_value_bound(h1);
    lemma_hex_value_bound(h2);
    lemma_hex_value_bound(h3);
    lemma_hex_value_bound(b0);
    lemma_hex_value_bound(b1);
    lemma_hex_value_bound(b2);
    lemma_hex_value_bound(b3);
    lemma_hex_value_bound(b4);
    lemma_hex_value_bound(b5);
    lemma_hex_value_bound(b6);
    lemma_hex_value_bound(b7);
    lemma_pow16_values();
    let dash = seq!['-'];
    let p1 = h1 + dash;
    let p2 = p1 + h2;
    let p3 = p2 + dash;
    let p4 = p3 + h3;
    let p5 = p4 + dash;
    let p6 = p5 + b0;
    let p7 = p6 + b1;
    let p8 = p7 + dash;
    let p9 = p8 + b2;
    let p10 = p9 + b3;
    let p11 = p10 + b4;
    let p12 = p11 + b5;
    let p13 = p12 + b6;
    let t = p13 + b7;
    // No brace at either end.
    assert(t[0] == h1[0]);
    assert(t[t.len() - 1] == b7[1]);
    assert(trim_leading_braces(t) == t);
    assert(trim_trailing_braces(t) == t);
    // Hyphens.
    assert(without_hyphens(dash) =~= Seq::<char>::empty()) by {
        assert(dash.drop_last() =~= Seq::<char>::empty());
        assert(without_hyphens(Seq::<char>::empty()) =~= Seq::<char>::empty());
        assert(dash.last() == '-');
    }
    lemma_without_hyphens_none(h1);
    lemma_without_hyphens_none(h2);
    lemma_without_hyphens_none(h3);
    lemma_without_hyphens_none(b0);
    lemma_without_hyphens_none(b1);
    lemma_without_hyphens_none(b2);
    lemma_without_hyphens_none(b3);
    lemma_without_hyphens_none(b4);
    lemma_without_hyphens_none(b5);
    lemma_without_hyphens_none(b6);
    lemma_without_hyphens_none(b7);
    lemma_without_hyphens_concat(h1, dash);
    lemma_without_hyphens_concat(p1, h2);
    lemma_without_hyphens_concat(p2, dash);
    lemma_without_hyphens_concat(p3, h3);
    lemma_without_hyphens_concat(p4, dash);
    lemma_without_hyphens_concat(p5, b0);
    lemma_without_hyphens_concat(p6, b1);
    lemma_without_hyphens_concat(p7, dash);
    lemma_without_hyphens_concat(p8, b2);
    lemma_without_hyphens_concat(p9, b3);
    lemma_without_hyphens_concat(p10, b4);
    lemma_without_hyphens_concat(p11, b5);
    lemma_without_hyphens_concat(p12, b6);
    lemma_without_hyphens_concat(p13, b7);
    let q1 = h1 + h2;
    let q2 = q1 + h3;
    let q3 = q2 + b0;
    let q4 = q3 + b1;
    let q5 = q4 + b2;
    let q6 = q5 + b3;
    let q7 = q6 + b4;
    let q8 = q7 + b5;
    let q9 = q8 + b6;
    let d = q9 + b7;
    assert(without_hyphens(p1) =~= h1);
    assert(without_hyphens(p3) =~= q1);
    assert(without_hyphens(p5) =~= q2);
    assert(without_hyphens(p8) =~= q4);
    assert(without_hyphens(t) =~= d);
    // Digits.
    lemma_all_hex_concat(h1, h2);
    lemma_all_hex_concat(q1, h3);
    lemma_all_hex_concat(q2, b0);
    lemma_all_hex_concat(q3, b1);
    lemma_all_hex_concat(q4, b2);
    lemma_all_hex_concat(q5, b3);
    lemma_all_hex_concat(q6, b4);
    lemma_all_hex_concat(q7, b5);
    lemma_all_hex_concat(q8, b6);
    lemma_all_hex_concat(q9, b7);
    assert(d[0] == h1[0]);
    assert(radix16_digits(d) == d);
    // Value.
    lemma_hex_value_concat(h1, h2);
    lemma_hex_value_concat(q1, h3);
    lemma_hex_value_concat(q2, b0);
    lemma_hex_value_concat(q3, b1);
    lemma_hex_value_concat(q4, b2);
    lemma_hex_value_concat(q5, b3);
    lemma_hex_value_concat(q6, b4);
    lemma_hex_value_concat(q7, b5);
    lemma_hex_value_concat(q8, b6);
    lemma_hex_value_concat(q9, b7);
    let d1 = hex_value(h1);
    let d2 = hex_value(h2);
    let d3 = hex_value(h3);
    let e0 = hex_value(b0);
    let e1 = hex_value(b1);
    let e2 = hex_value(b2);
    let e3 = hex_value(b3);
    let e4 = hex_value(b4);
    let e5 = hex_value(b5);
    let e6 = hex_value(b6);
    let e7 = hex_value(b7);
    let v = hex_value(d);
    assert(v == d1 * 0x1_0000_0000_0000_0000_0000_0000 + d2 * 0x1_0000_0000_0000_0000_0000 + d3
        * 0x1_0000_0000_0000_0000 + e0 * 0x100_0000_0000_0000 + e1 * 0x1_0000_0000_0000 + e2
        * 0x100_0000_0000 + e3 * 0x1_0000_0000 + e4 * 0x100_0000 + e5 * 0x1_0000 + e6 * 0x100 + e7);
    assert(v < two_pow_128());
    lemma_fields_of_value(d1, d2, d3, e0, e1, e2, e3, e4, e5, e6, e7);
    assert(guid_of_u128(v).3 =~= seq![
        e0 as u8,
        e1 as u8,
        e2 as u8,
        e3 as u8,
        e4 as u8,
        e5 as u8,
        e6 as u8,
        e7 as u8,
    ]);
}

/// Reading back the text of a GUID gives the GUID: [`parse_guid`] undoes
/// [`guid_to_string`].
pub proof fn lemma_guid_text_roundtrip(g: GuidView)
    requires
        g.3.len() == 8,
    ensures
        guid_from_str(guid_text(g)) == Some(g),
{
    lemma_hex_fixed(g.0 as nat, 8);
    lemma_hex_fixed(g.1 as nat, 4);
    lemma_hex_fixed(g.2 as nat, 4);
    lemma_hex_fixed(g.3[0] as nat, 2);
    lemma_hex_fixed(g.3[1] as nat, 2);
    lemma_hex_fixed(g.3[2] as nat, 2);
    lemma_hex_fixed(g.3[3] as nat, 2);
    lemma_hex_fixed(g.3[4] as nat, 2);
    lemma_hex_fixed(g.3[5] as nat, 2);
    lemma_hex_fixed(g.3[6] as nat, 2);
    lemma_hex_fixed(g.3[7] as nat, 2);
    lemma_pow16_values();
    vstd::arithmetic::div_mod::lemma_small_mod(g.0 as nat, 0x1_0000_0000);
    vstd::arithmetic::div_mod::lemma_small_mod(g.1 as nat, 0x1_0000);
    vstd::arithmetic::div_mod::lemma_small_mod(g.2 as nat, 0x1_0000);
    assert forall|i: int| 0 <= i < 8 implies (#[trigger] g.3[i] as nat) % 0x100 == g.3[i] as nat by {
        vstd::arithmetic::div_mod::lemma_small_mod(g.3[i] as nat, 0x100);
    }
    lemma_parse_hex_fields(
        hex_fixed(g.0 as nat, 8),
        hex_fixed(g.1 as nat, 4),
        hex_fixed(g.2 as nat, 4),
        hex_fixed(g.3[0] as nat, 2),
        hex_fixed(g.3[1] as nat, 2),
        hex_fixed(g.3[2] as nat, 2),
        hex_fixed(g.3[3] as nat, 2),
        hex_fixed(g.3[4] as nat, 2),
        hex_fixed(g.3[5] as nat, 2),
        hex_fixed(g.3[6] as nat, 2),
        hex_fixed(g.3[7] as nat, 2),
    );
    assert(seq![
        g.3[0],
        g.3[1],
        g.3[2],
        g.3[3],
        g.3[4],
        g.3[5],
        g.3[6],
        g.3[7],
    ] =~= g.3);
}

/// The upper-case form of a character that is a lower-case hexadecimal
/// letter; any other character unchanged.
pub open spec fn upper_hex(c: char) -> char {
    if 'a' <= c && c <= 'f' {
        (c as int - 32) as char
    } else {
        c
    }
}

/// `s` with its lower-case hexadecimal letters in upper case.
pub open spec fn upper_hex_seq(s: Seq<char>) -> Seq<char> {
    s.map_values(|c: char| upper_hex(c))
}

/// Whether `t` is a GUID in the hyphenated 8-4-4-4-12 form: 36 characters,
/// hyphens at positions 8, 13, 18 and 23, and hexadecimal digits (of
/// either case) everywhere else.
pub open spec fn is_hyphenated_guid(t: Seq<char>) -> bool {
    &&& t.len() == 36
    &&& t[8] == '-' && t[13] == '-' && t[18] == '-' && t[23] == '-'
    &&& forall|i: int|
        0 <= i < 36 && i != 8 && i != 13 && i != 18 && i != 23 ==> is_hex_char(#[trigger] t[i])
}

proof fn lemma_hex_digit_of_char(c: char)
    requires
        is_hex_char(c),
    ensures
        hex_digit(hex_char_value(c)) == upper_hex(c),
{
}

/// The `w`-digit upper-case text of the value of `w` hexadecimal digits is
/// those digits in upper case.
proof fn lemma_hex_fixed_of_digits(x: Seq<char>)
    requires
        all_hex(x),
    ensures
        hex_fixed(hex_value(x), x.len()) == upper_hex_seq(x),
    decreases x.len(),
{
    if x.len() > 0 {
        let y = x.drop_last();
        let c = x.last();
        assert forall|i: int| 0 <= i < y.len() implies is_hex_char(#[trigger] y[i]) by {
            assert(y[i] == x[i]);
        }
        assert(is_hex_char(x[x.len() - 1]));
        lemma_hex_fixed_of_digits(y);
        let n = hex_value(x);
        let d = hex_char_value(c);
        assert(d < 16);
        assert(n == hex_value(y) * 16 + d);
        vstd::arithmetic::div_mod::lemma_fundamental_div_mod_converse(
            n as int,
            16,
            hex_value(y) as int,
            d as int,
        );
        lemma_hex_digit_of_char(c);
        assert(upper_hex_seq(x) =~= upper_hex_seq(y).push(upper_hex(c)));
    } else {
        assert(upper_hex_seq(x) =~= Seq::<char>::empty());
    }
}

proof fn lemma_upper_concat(a: Seq<char>, b: Seq<char>)
    ensures
        upper_hex_seq(a + b) == upper_hex_seq(a) + upper_hex_seq(b),
{
    assert(upper_hex_seq(a + b) =~= upper_hex_seq(a) + upper_hex_seq(b));
}

/// The groups of an 8-4-4-4-12 string, split into the fields of a GUID.
proof fn lemma_hyphenated_groups(t: Seq<char>)
    requires
        is_hyphenated_guid(t),
    ensures
        hex_field(t.subrange(0, 8), 8),
        hex_field(t.subrange(9, 13), 4),
        hex_field(t.subrange(14, 18), 4),
        hex_field(t.subrange(19, 21), 2),
        hex_field(t.subrange(21, 23), 2),
        hex_field(t.subrange(24, 26), 2),
        hex_field(t.subrange(26, 28), 2),
        hex_field(t.subrange(28, 30), 2),
        hex_field(t.subrange(30, 32), 2),
        hex_field(t.subrange(32, 34), 2),
        hex_field(t.subrange(34, 36), 2),
        t == t.subrange(0, 8) + seq!['-'] + t.subrange(9, 13) + seq!['-'] + t.subrange(14, 18)
            + seq!['-'] + t.subrange(19, 21) + t.subrange(21, 23) + seq!['-'] + t.subrange(24, 26)
            + t.subrange(26, 28) + t.subrange(28, 30) + t.subrange(30, 32) + t.subrange(32, 34)
            + t.subrange(34, 36),
{
    assert forall|a: int, b: int|
        (a == 0 && b == 8 || a == 9 && b == 13 || a == 14 && b == 18 || a == 19 && b == 21 || a
            == 21 && b == 23 || a == 24 && b == 26 || a == 26 && b == 28 || a == 28 && b == 30 || a
            == 30 && b == 32 || a == 32 && b == 34 || a == 34 && b == 36) implies all_hex(
        #[trigger] t.subrange(a, b),
    ) by {
        assert forall|i: int| 0 <= i < b - a implies is_hex_char(#[trigger] t.subrange(a, b)[i]) by {
            assert(t.subrange(a, b)[i] == t[a + i]);
        }
    }
    assert(t =~= t.subrange(0, 8) + seq!['-'] + t.subrange(9, 13) + seq!['-'] + t.subrange(14, 18)
        + seq!['-'] + t.subrange(19, 21) + t.subrange(21, 23) + seq!['-'] + t.subrange(24, 26)
        + t.subrange(26, 28) + t.subrange(28, 30) + t.subrange(30, 32) + t.subrange(32, 34)
        + t.subrange(34, 36));
}

/// The canonical text of the GUID whose fields are the values of hex
/// groups is those groups, hyphenated, in upper case.
proof fn lemma_text_of_fields(
    h1: Seq<char>,
    h2: Seq<char>,
    h3: Seq<char>,
    b0: Seq<char>,
    b1: Seq<char>,
    b2: Seq<char>,
    b3: Seq<char>,
    b4: Seq<char>,
    b5: Seq<char>,
    b6: Seq<char>,
    b7: Seq<char>,
)
    requires
        hex_field(h1, 8),
        hex_field(h2, 4),
        hex_field(h3, 4),
        hex_field(b0, 2),
        hex_field(b1, 2),
        hex_field(b2, 2),
        hex_field(b3, 2),
        hex_field(b4, 2),
        hex_field(b5, 2),
        hex_field(b6, 2),
        hex_field(b7, 2),
    ensures
        guid_text(
            (
                hex_value(h1) as u32,
                hex_value(h2) as u16,
                hex_value(h3) as u16,
                seq![
                    hex_value(b0) as u8,
                    hex_value(b1) as u8,
                    hex_value(b2) as u8,
                    hex_value(b3) as u8,
                    hex_value(b4) as u8,
                    hex_value(b5) as u8,
                    hex_value(b6) as u8,
                    hex_value(b7) as u8,
                ],
            ),
        ) == upper_hex_seq(
            h1 + seq!['-'] + h2 + seq!['-'] + h3 + seq!['-'] + b0 + b1 + seq!['-'] + b2 + b3 + b4
                + b5 + b6 + b7,
        ),
{
    let dash = seq!['-'];
    lemma_hex_value_bound(h1);
    lemma_hex_value_bound(h2);
    lemma_hex_value_bound(h3);
    lemma_hex_value_bound(b0);
    lemma_hex_value_bound(b1);
    lemma_hex_value_bound(b2);
    lemma_hex_value_bound(b3);
    lemma_hex_value_bound(b4);
    lemma_hex_value_bound(b5);
    lemma_hex_value_bound(b6);
    lemma_hex_value_bound(b7);
    lemma_pow16_values();
    lemma_hex_fixed_of_digits(h1);
    lemma_hex_fixed_of_digits(h2);
    lemma_hex_fixed_of_digits(h3);
    lemma_hex_fixed_of_digits(b0);
    lemma_hex_fixed_of_digits(b1);
    lemma_hex_fixed_of_digits(b2);
    lemma_hex_fixed_of_digits(b3);
    lemma_hex_fixed_of_digits(b4);
    lemma_hex_fixed_of_digits(b5);
    lemma_hex_fixed_of_digits(b6);
    lemma_hex_fixed_of_digits(b7);
    assert(upper_hex_seq(dash) =~= dash);
    let p1 = h1 + dash;
    let p2 = p1 + h2;
    let p3 = p2 + dash;
    let p4 = p3 + h3;
    let p5 = p4 + dash;
    let p6 = p5 + b0;
    let p7 = p6 + b1;
    let p8 = p7 + dash;
    let p9 = p8 + b2;
    let p10 = p9 + b3;
    let p11 = p10 + b4;
    let p12 = p11 + b5;
    let p13 = p12 + b6;
    lemma_upper_concat(h1, dash);
    lemma_upper_concat(p1, h2);
    lemma_upper_concat(p2, dash);
    lemma_upper_concat(p3, h3);
    lemma_upper_concat(p4, dash);
    lemma_upper_concat(p5, b0);
    lemma_upper_concat(p6, b1);
    lemma_upper_concat(p7, dash);
    lemma_upper_concat(p8, b2);
    lemma_upper_concat(p9, b3);
    lemma_upper_concat(p10, b4);
    lemma_upper_concat(p11, b5);
    lemma_upper_concat(p12, b6);
    lemma_upper_concat(p13, b7);
}

/// The braces around a hex string that starts and ends with a digit are
/// dropped before it is read.
proof fn lemma_braces_dropped(t: Seq<char>)
    requires
        t.len() > 0,
        is_hex_char(t[0]),
        is_hex_char(t[t.len() - 1]),
    ensures
        trim_trailing_braces(trim_leading_braces(seq!['{'] + t + seq!['}'])) == t,
        trim_trailing_braces(trim_leading_braces(t)) == t,
{
    let braced = seq!['{'] + t + seq!['}'];
    let closed = t + seq!['}'];
    assert(braced.drop_first() =~= closed);
    assert(closed[0] == t[0]);
    assert(!is_brace(closed[0]));
    assert(trim_leading_braces(closed) == closed);
    assert(braced[0] == '{');
    assert(trim_leading_braces(braced) == trim_leading_braces(braced.drop_first()));
    assert(trim_leading_braces(braced) == closed);
    assert(closed.drop_last() =~= t);
    assert(trim_trailing_braces(t) == t);
    assert(trim_trailing_braces(closed) == t);
    assert(trim_leading_braces(t) == t);
}

/// Formatting the GUID that an 8-4-4-4-12 string denotes gives that string
/// back in upper case, and the same string in braces denotes the same
/// GUID: [`guid_to_string`] of [`string_to_guid`] is the canonical form of
/// the input.
pub proof fn lemma_hyphenated_guid_text(t: Seq<char>)
    requires
        is_hyphenated_guid(t),
    ensures
        guid_from_str(t) is Some,
        guid_text(guid_from_str(t)->0) == upper_hex_seq(t),
        guid_from_str(seq!['{'] + t + seq!['}']) == guid_from_str(t),
{
    lemma_hyphenated_groups(t);
    let h1 = t.subrange(0, 8);
    let h2 = t.subrange(9, 13);
    let h3 = t.subrange(14, 18);
    let b0 = t.subrange(19, 21);
    let b1 = t.subrange(21, 23);
    let b2 = t.subrange(24, 26);
    let b3 = t.subrange(26, 28);
    let b4 = t.subrange(28, 30);
    let b5 = t.subrange(30, 32);
    let b6 = t.subrange(32, 34);
    let b7 = t.subrange(34, 36);
    lemma_parse_hex_fields(h1, h2, h3, b0, b1, b2, b3, b4, b5, b6, b7);
    lemma_text_of_fields(h1, h2, h3, b0, b1, b2, b3, b4, b5, b6, b7);
    assert(is_hex_char(t[0]));
    assert(is_hex_char(t[35]));
    lemma_braces_dropped(t);
}

#[verifier::spinoff_prover]
proof fn lemma_fields_of_value(
    d1: nat,
    d2: nat,
    d3: nat,
    e0: nat,
    e1: nat,
    e2: nat,
    e3: nat,
    e4: nat,
    e5: nat,
    e6: nat,
    e7: nat,
)
    requires
        d1 < 0x1_0000_0000,
        d2 < 0x1_0000,
        d3 < 0x1_0000,
        e0 < 256,
        e1 < 256,
        e2 < 256,
        e3 < 256,
        e4 < 256,
        e5 < 256,
        e6 < 256,
        e7 < 256,
    ensures
        ({
            let v = d1 * 0x1_0000_0000_0000_0000_0000_0000 + d2 * 0x1_0000_0000_0000_0000_0000 + d3
                * 0x1_0000_0000_0000_0000 + e0 * 0x100_0000_0000_0000 + e1 * 0x1_0000_0000_0000 + e2
                * 0x100_0000_0000 + e3 * 0x1_0000_0000 + e4 * 0x100_0000 + e5 * 0x1_0000 + e6
                * 0x100 + e7;
            &&& v / 0x1_0000_0000_0000_0000_0000_0000 == d1
            &&& (v / 0x1_0000_0000_0000_0000_0000) % 0x1_0000 == d2
            &&& (v / 0x1_0000_0000_0000_0000) % 0x1_0000 == d3
            &&& (v / 0x100_0000_0000_0000) % 256 == e0
            &&& (v / 0x1_0000_0000_0000) % 256 == e1
            &&& (v / 0x100_0000_0000) % 256 == e2
            &&& (v / 0x1_0000_0000) % 256 == e3
            &&& (v / 0x100_0000) % 256 == e4
            &&& (v / 0x1_0000) % 256 == e5
            &&& (v / 0x100) % 256 == e6
            &&& v % 256 == e7
        }),
{
    let v = d1 * 0x1_0000_0000_0000_0000_0000_0000 + d2 * 0x1_0000_0000_0000_0000_0000 + d3
        * 0x1_0000_0000_0000_0000 + e0 * 0x100_0000_0000_0000 + e1 * 0x1_0000_0000_0000 + e2
        * 0x100_0000_0000 + e3 * 0x1_0000_0000 + e4 * 0x100_0000 + e5 * 0x1_0000 + e6 * 0x100 + e7;
    // The digits below each field, and the fields above it.
    let l7: nat = 0;
    let l6: nat = e7;
    let l5: nat = e6 * 0x100 + l6;
    let l4: nat = e5 * 0x1_0000 + l5;
    let l3: nat = e4 * 0x100_0000 + l4;
    let l2: nat = e3 * 0x1_0000_0000 + l3;
    let l1: nat = e2 * 0x100_0000_0000 + l2;
    let l0: nat = e1 * 0x1_0000_0000_0000 + l1;
    let k3: nat = e0 * 0x100_0000_0000_0000 + l0;
    let k2: nat = d3 * 0x1_0000_0000_0000_0000 + k3;
    let k1: nat = d2 * 0x1_0000_0000_0000_0000_0000 + k2;
    let h2: nat = d1;
    let h3: nat = h2 * 0x1_0000 + d2;
    let g0: nat = h3 * 0x1_0000 + d3;
    let g1: nat = g0 * 0x100 + e0;
    let g2: nat = g1 * 0x100 + e1;
    let g3: nat = g2 * 0x100 + e2;
    let g4: nat = g3 * 0x100 + e3;
    let g5: nat = g4 * 0x100 + e4;
    let g6: nat = g5 * 0x100 + e5;
    let g7: nat = g6 * 0x100 + e6;
    lemma_digit(v, 0x1_0000_0000_0000_0000_0000_0000, 0, d1, 0x1_0000_0000, k1);
    lemma_digit(v, 0x1_0000_0000_0000_0000_0000, h2, d2, 0x1_0000, k2);
    lemma_digit(v, 0x1_0000_0000_0000_0000, h3, d3, 0x1_0000, k3);
    lemma_digit(v, 0x100_0000_0000_0000, g0, e0, 0x100, l0);
    lemma_digit(v, 0x1_0000_0000_0000, g1, e1, 0x100, l1);
    lemma_digit(v, 0x100_0000_0000, g2, e2, 0x100, l2);
    lemma_digit(v, 0x1_0000_0000, g3, e3, 0x100, l3);
    lemma_digit(v, 0x100_0000, g4, e4, 0x100, l4);
    lemma_digit(v, 0x1_0000, g5, e5, 0x100, l5);
    lemma_digit(v, 0x100, g6, e6, 0x100, l6);
    lemma_digit(v, 1, g7, e7, 0x100, l7);
}

/// Where `v` is `(hi * m + d) * c + lo` with `d < m` and `lo < c`,
/// dividing `v` by `c` gives `hi * m + d`, and that quotient modulo `m` is
/// the digit `d`.
proof fn lemma_digit(v: nat, c: nat, hi: nat, d: nat, m: nat, lo: nat)
    requires
        c > 0,
        d < m,
        lo < c,
        v == (hi * m + d) * c + lo,
    ensures
        v / c == hi * m + d,
        (v / c) % m == d,
{
    vstd::arithmetic::div_mod::lemma_fundamental_div_mod_converse(
        v as int,
        c as int,
        (hi * m + d) as int,
        lo as int,
    );
    vstd::arithmetic::div_mod::lemma_fundamental_div_mod_converse(
        (hi * m + d) as int,
        m as int,
        hi as int,
        d as int,
    );
}

} // verus!
