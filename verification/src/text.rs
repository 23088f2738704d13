//! Character-level helpers shared by the detectors, the GUID codec and the
//! manifest formatter: substring tests, number formatting, and the two
//! Unicode-aware operations of std (case folding and whitespace trimming).

use vstd::prelude::*;
use vstd::std_specs::iter::IteratorSpec;

verus! {

// ---------------------------------------------------------------------------
// Substring predicates
// ---------------------------------------------------------------------------

/// `p` is a prefix of `s`.
pub open spec fn has_prefix(s: Seq<char>, p: Seq<char>) -> bool {
    p.len() <= s.len() && s.subrange(0, p.len() as int) == p
}

/// `p` is a suffix of `s`.
pub open spec fn has_suffix(s: Seq<char>, p: Seq<char>) -> bool {
    p.len() <= s.len() && s.subrange(s.len() - p.len(), s.len() as int) == p
}

/// `p` occurs somewhere inside `s` (the empty sequence occurs everywhere).
pub open spec fn has_infix(s: Seq<char>, p: Seq<char>) -> bool {
    exists|i: int| 0 <= i && i + p.len() <= s.len() && #[trigger] s.subrange(i, i + p.len()) == p
}

// ---------------------------------------------------------------------------
// The Unicode operations of std
// ---------------------------------------------------------------------------

/// What `str::to_lowercase` returns for a string: its Unicode lower-case
/// mapping (which maps some characters by their context, such as a final
/// capital sigma).
pub uninterp spec fn lowercase(s: Seq<char>) -> Seq<char>;

/// Whether `c` has the Unicode `White_Space` property, the white space that
/// `str::trim` removes.
pub open spec fn is_white_space(c: char) -> bool {
    let v = c as u32;
    (0x9 <= v && v <= 0xD) || v == 0x20 || v == 0x85 || v == 0xA0 || v == 0x1680 || (0x2000 <= v
        && v <= 0x200A) || v == 0x2028 || v == 0x2029 || v == 0x202F || v == 0x205F || v == 0x3000
}

/// `s` without its leading white space.
pub open spec fn trim_start_white(s: Seq<char>) -> Seq<char>
    decreases s.len(),
{
    if s.len() > 0 && is_white_space(s[0]) {
        trim_start_white(s.drop_first())
    } else {
        s
    }
}

/// `s` without its trailing white space.
pub open spec fn trim_end_white(s: Seq<char>) -> Seq<char>
    decreases s.len(),
{
    if s.len() > 0 && is_white_space(s.last()) {
        trim_end_white(s.drop_last())
    } else {
        s
    }
}

/// What `str::trim` returns for a string: the string without its leading
/// and trailing white space.
pub open spec fn trimmed(s: Seq<char>) -> Seq<char> {
    trim_end_white(trim_start_white(s))
}

proof fn lemma_trim_start_white(s: Seq<char>)
    ensures
        trim_start_white(s).len() > 0 ==> !is_white_space(trim_start_white(s)[0]),
        trim_start_white(s).len() <= s.len(),
    decreases s.len(),
{
    if s.len() > 0 && is_white_space(s[0]) {
        lemma_trim_start_white(s.drop_first());
    }
}

proof fn lemma_trim_end_white(s: Seq<char>)
    ensures
        trim_end_white(s).len() > 0 ==> !is_white_space(trim_end_white(s).last()),
        trim_end_white(s).len() <= s.len(),
        trim_end_white(s) == s.take(trim_end_white(s).len() as int),
    decreases s.len(),
{
    if s.len() > 0 && is_white_space(s.last()) {
        lemma_trim_end_white(s.drop_last());
        let t = trim_end_white(s.drop_last());
        assert(s.drop_last().take(t.len() as int) =~= s.take(t.len() as int));
    } else {
        assert(s.take(s.len() as int) =~= s);
    }
}

/// A trimmed string neither begins nor ends with white space.
pub proof fn lemma_trimmed_has_no_outer_white_space(s: Seq<char>)
    ensures
        trimmed(s).len() > 0 ==> !is_white_space(trimmed(s)[0]) && !is_white_space(
            trimmed(s).last(),
        ),
{
    let a = trim_start_white(s);
    lemma_trim_start_white(s);
    lemma_trim_end_white(a);
    let t = trim_end_white(a);
    if t.len() > 0 {
        assert(t == a.take(t.len() as int));
        assert(t[0] == a.take(t.len() as int)[0]);
    }
}

/// Calls `str::to_lowercase`. The contract only names the result: the full
/// Unicode case mapping is not restated here, and nothing else is claimed.
#[verifier::external_body]
pub(crate) fn to_lowercase(s: &str) -> (r: String)
    ensures
        r@ == lowercase(s@),
{
    s.to_lowercase()
}

/// Whether `c` is Unicode white space (see [`is_white_space`]).
pub fn is_white_space_char(c: char) -> (r: bool)
    ensures
        r == is_white_space(c),
{
    let v = c as u32;
    (0x9 <= v && v <= 0xD) || v == 0x20 || v == 0x85 || v == 0xA0 || v == 0x1680 || (0x2000 <= v
        && v <= 0x200A) || v == 0x2028 || v == 0x2029 || v == 0x202F || v == 0x205F || v == 0x3000
}

proof fn lemma_trim_start_step(s: Seq<char>, a: int, b: int)
    requires
        0 <= a < b <= s.len(),
        is_white_space(s[a]),
    ensures
        trim_start_white(s.subrange(a, b)) == trim_start_white(s.subrange(a + 1, b)),
{
    assert(s.subrange(a, b).drop_first() =~= s.subrange(a + 1, b));
}

proof fn lemma_trim_end_step(s: Seq<char>, a: int, b: int)
    requires
        0 <= a < b <= s.len(),
        is_white_space(s[b - 1]),
    ensures
        trim_end_white(s.subrange(a, b)) == trim_end_white(s.subrange(a, b - 1)),
{
    assert(s.subrange(a, b).drop_last() =~= s.subrange(a, b - 1));
}

/// `s` without its leading and trailing Unicode white space (see
/// [`trimmed`]), as `str::trim` returns it.
pub fn trim(s: &str) -> (r: String)
    ensures
        r@ == trimmed(s@),
{
    let chars = chars_of(s);
    let ghost t = chars@;
    let n = chars.len();
    let mut a: usize = 0;
    assert(t.subrange(0, n as int) =~= t);
    while a < n && is_white_space_char(chars[a])
        invariant
            a <= n,
            n == t.len(),
            t == chars@,
            trim_start_white(t) == trim_start_white(t.subrange(a as int, n as int)),
        decreases n - a,
    {
        proof {
            lemma_trim_start_step(t, a as int, n as int);
        }
        a = a + 1;
    }
    assert(trim_start_white(t.subrange(a as int, n as int)) == t.subrange(a as int, n as int));
    let mut b: usize = n;
    while b > a && is_white_space_char(chars[b - 1])
        invariant
            a <= b <= n,
            n == t.len(),
            t == chars@,
            trim_end_white(trim_start_white(t)) == trim_end_white(t.subrange(a as int, b as int)),
        decreases b,
    {
        proof {
            lemma_trim_end_step(t, a as int, b as int);
        }
        b = b - 1;
    }
    assert(trim_end_white(t.subrange(a as int, b as int)) == t.subrange(a as int, b as int));
    let mut out: Vec<char> = Vec::new();
    let mut k: usize = a;
    while k < b
        invariant
            a <= k <= b <= n,
            n == t.len(),
            t == chars@,
            out@ == t.subrange(a as int, k as int),
        decreases b - k,
    {
        out.push(chars[k]);
        assert(t.subrange(a as int, k + 1) =~= t.subrange(a as int, k as int).push(t[k as int]));
        k = k + 1;
    }
    string_of(&out)
}

/// Calls `String::push`, which appends one character.
#[verifier::external_body]
pub(crate) fn push_char(s: &mut String, c: char)
    ensures
        final(s)@ == old(s)@.push(c),
{
    s.push(c);
}

// ---------------------------------------------------------------------------
// Conversions between strings and character vectors
// ---------------------------------------------------------------------------

/// The characters of `s`, in order.
pub fn chars_of(s: &str) -> (v: Vec<char>)
    ensures
        v@ == s@,
{
    let mut v: Vec<char> = Vec::new();
    for c in iter: s.chars()
        invariant
            iter.seq() == s@,
            v@ == iter.seq().take(iter.index() as int),
    {
        v.push(c);
    }
    v
}

/// Appends every character of `chars` to `out`.
pub fn push_chars(out: &mut String, chars: &Vec<char>)
    ensures
        final(out)@ == old(out)@ + chars@,
{
    let n = chars.len();
    let mut i: usize = 0;
    while i < n
        invariant
            n == chars@.len(),
            i <= n,
            out@ == old(out)@ + chars@.take(i as int),
        decreases n - i,
    {
        push_char(out, chars[i]);
        assert(chars@.take(i as int).push(chars@[i as int]) == chars@.take(i + 1));
        i = i + 1;
    }
    assert(chars@.take(n as int) == chars@);
}

/// A new `String` holding exactly `chars`.
pub fn string_of(chars: &Vec<char>) -> (s: String)
    ensures
        s@ == chars@,
{
    let mut s = String::new();
    push_chars(&mut s, chars);
    s
}

/// A new `String` holding `a` followed by `b`.
pub fn concat(a: &str, b: &str) -> (s: String)
    ensures
        s@ == a@ + b@,
{
    let mut s = a.to_owned();
    s.append(b);
    s
}

// ---------------------------------------------------------------------------
// Substring tests on character vectors
// ---------------------------------------------------------------------------

/// Whether `needle` occurs in `hay` starting at position `at`.
pub fn occurs_at(hay: &Vec<char>, needle: &Vec<char>, at: usize) -> (r: bool)
    requires
        at + needle@.len() <= hay@.len(),
    ensures
        r == (hay@.subrange(at as int, at + needle@.len()) == needle@),
{
    let n = needle.len();
    let h = hay.len();
    let mut j: usize = 0;
    while j < n
        invariant
            n == needle@.len(),
            h == hay@.len(),
            at + n <= hay@.len(),
            j <= n,
            forall|k: int| 0 <= k < j ==> hay@[at + k] == needle@[k],
        decreases n - j,
    {
        if hay[at + j] != needle[j] {
            assert(hay@.subrange(at as int, at + n)[j as int] != needle@[j as int]);
            return false;
        }
        j = j + 1;
    }
    assert(hay@.subrange(at as int, at + n) =~= needle@);
    true
}

/// Whether `hay` begins with `needle`.
pub fn starts_with(hay: &Vec<char>, needle: &Vec<char>) -> (r: bool)
    ensures
        r == has_prefix(hay@, needle@),
{
    if needle.len() > hay.len() {
        false
    } else {
        occurs_at(hay, needle, 0)
    }
}

/// Whether `hay` ends with `needle`.
pub fn ends_with(hay: &Vec<char>, needle: &Vec<char>) -> (r: bool)
    ensures
        r == has_suffix(hay@, needle@),
{
    if needle.len() > hay.len() {
        false
    } else {
        occurs_at(hay, needle, hay.len() - needle.len())
    }
}

/// Whether `needle` occurs anywhere in `hay`.
pub fn contains(hay: &Vec<char>, needle: &Vec<char>) -> (r: bool)
    ensures
        r == has_infix(hay@, needle@),
{
    if needle.len() > hay.len() {
        return false;
    }
    let last = hay.len() - needle.len();
    let mut i: usize = 0;
    while i <= last
        invariant
            last + needle@.len() == hay@.len(),
            i <= last + 1,
            forall|k: int|
                0 <= k < i ==> #[trigger] hay@.subrange(k, k + needle@.len()) != needle@,
        decreases last + 1 - i,
    {
        if occurs_at(hay, needle, i) {
            return true;
        }
        if i == last {
            return false;
        }
        i = i + 1;
    }
    false
}

/// Whether the characters of `a` and `b` are the same.
pub fn same_chars(a: &Vec<char>, b: &Vec<char>) -> (r: bool)
    ensures
        r == (a@ == b@),
{
    if a.len() != b.len() {
        false
    } else {
        let r = occurs_at(a, b, 0);
        assert(a@.subrange(0, a@.len() as int) == a@);
        r
    }
}

/// The character sequences of a list of strings.
pub open spec fn views_of(list: Seq<&str>) -> Seq<Seq<char>> {
    list.map_values(|x: &str| x@)
}

/// Whether `s` is one of `candidates`.
pub fn equals_any(s: &Vec<char>, candidates: &Vec<&str>) -> (r: bool)
    ensures
        r == views_of(candidates@).contains(s@),
{
    let n = candidates.len();
    let mut i: usize = 0;
    while i < n
        invariant
            n == candidates@.len(),
            i <= n,
            forall|k: int| 0 <= k < i ==> candidates@[k]@ != s@,
        decreases n - i,
    {
        let c = chars_of(candidates[i]);
        if same_chars(s, &c) {
            assert(views_of(candidates@)[i as int] == s@);
            return true;
        }
        i = i + 1;
    }
    assert(!views_of(candidates@).contains(s@)) by {
        if views_of(candidates@).contains(s@) {
            let k = choose|k: int| 0 <= k < views_of(candidates@).len() && views_of(candidates@)[k] == s@;
            assert(candidates@[k]@ == s@);
        }
    }
    false
}

/// Whether one of `candidates` occurs inside `s`.
pub fn contains_any(s: &Vec<char>, candidates: &Vec<&str>) -> (r: bool)
    ensures
        r == exists|k: int| 0 <= k < candidates@.len() && has_infix(s@, #[trigger] candidates@[k]@),
{
    let n = candidates.len();
    let mut i: usize = 0;
    while i < n
        invariant
            n == candidates@.len(),
            i <= n,
            forall|k: int| 0 <= k < i ==> !has_infix(s@, #[trigger] candidates@[k]@),
        decreases n - i,
    {
        let c = chars_of(candidates[i]);
        if contains(s, &c) {
            return true;
        }
        i = i + 1;
    }
    false
}

// ---------------------------------------------------------------------------
// Number formatting
// ---------------------------------------------------------------------------

/// The upper-case hexadecimal digit for `d` (taken modulo 16 by callers).
pub open spec fn hex_digit(d: nat) -> char {
    if d < 10 {
        (48 + d) as char
    } else {
        (55 + d) as char
    }
}

/// The decimal digit for `d`.
pub open spec fn dec_digit(d: nat) -> char {
    (48 + d) as char
}

/// Upper-case hexadecimal digits of `n`, most significant first, without
/// leading zeros (`0` gives `"0"`), as `format!("{:X}", n)` writes them.
pub open spec fn hex_digits(n: nat) -> Seq<char>
    decreases n,
{
    if n < 16 {
        seq![hex_digit(n)]
    } else {
        hex_digits(n / 16).push(hex_digit(n % 16))
    }
}

/// Exactly `width` upper-case hexadecimal digits of `n` (the low `width`
/// digits, zero-padded), as `format!("{:0w$X}", n)` writes them when `n`
/// has at most `width` digits.
pub open spec fn hex_fixed(n: nat, width: nat) -> Seq<char>
    decreases width,
{
    if width == 0 {
        Seq::empty()
    } else {
        hex_fixed(n / 16, (width - 1) as nat).push(hex_digit(n % 16))
    }
}

/// Decimal digits of `n` without leading zeros, as `format!("{}", n)`
/// writes them.
pub open spec fn dec_digits(n: nat) -> Seq<char>
    decreases n,
{
    if n < 10 {
        seq![dec_digit(n)]
    } else {
        dec_digits(n / 10).push(dec_digit(n % 10))
    }
}

/// What `format!("{:#X}", n)` writes: `0x` and the upper-case hex digits.
pub open spec fn hex_prefixed(n: nat) -> Seq<char> {
    seq!['0', 'x'] + hex_digits(n)
}

fn hex_digit_exec(d: u64) -> (c: char)
    requires
        d < 16,
    ensures
        c == hex_digit(d as nat),
{
    if d < 10 {
        ((48 + d) as u8) as char
    } else {
        ((55 + d) as u8) as char
    }
}

/// Appends the hex digits of `n` to `out`.
pub fn push_hex(out: &mut Vec<char>, n: u64)
    ensures
        final(out)@ == old(out)@ + hex_digits(n as nat),
    decreases n,
{
    if n >= 16 {
        push_hex(out, n / 16);
    }
    out.push(hex_digit_exec(n % 16));
}

/// Appends exactly `width` hex digits of `n` to `out`.
pub fn push_hex_fixed(out: &mut Vec<char>, n: u64, width: u64)
    ensures
        final(out)@ == old(out)@ + hex_fixed(n as nat, width as nat),
    decreases width,
{
    if width > 0 {
        push_hex_fixed(out, n / 16, width - 1);
        out.push(hex_digit_exec(n % 16));
    }
}

/// Appends the decimal digits of `n` to `out`.
pub fn push_decimal(out: &mut Vec<char>, n: u64)
    ensures
        final(out)@ == old(out)@ + dec_digits(n as nat),
    decreases n,
{
    if n >= 10 {
        push_decimal(out, n / 10);
    }
    out.push(((48 + n % 10) as u8) as char);
}

/// `n` in decimal, as `n.to_string()` writes it.
pub fn decimal_string(n: u64) -> (s: String)
    ensures
        s@ == dec_digits(n as nat),
{
    let mut v: Vec<char> = Vec::new();
    push_decimal(&mut v, n);
    string_of(&v)
}

/// `n` as `format!("{:#X}", n)` writes it, e.g. `0x7FFE0000`.
pub fn format_address(n: u64) -> (s: String)
    ensures
        s@ == hex_prefixed(n as nat),
{
    let mut v: Vec<char> = Vec::new();
    v.push('0');
    v.push('x');
    push_hex(&mut v, n);
    assert(v@ == seq!['0', 'x'] + hex_digits(n as nat));
    string_of(&v)
}

/// `s` padded on the right with spaces to at least `width` characters, as
/// `format!("{:<width$}", s)` writes it.
pub open spec fn pad_right(s: Seq<char>, width: nat) -> Seq<char> {
    if s.len() >= width {
        s
    } else {
        s + Seq::new((width - s.len()) as nat, |i: int| ' ')
    }
}

/// Appends `s` and then spaces up to `width` characters in all.
pub fn push_padded(out: &mut String, s: &str, width: usize)
    ensures
        final(out)@ == old(out)@ + pad_right(s@, width as nat),
{
    let chars = chars_of(s);
    push_chars(out, &chars);
    let n = chars.len();
    if n < width {
        let ghost base = out@;
        let mut k: usize = n;
        while k < width
            invariant
                n <= k <= width,
                n == s@.len(),
                base == old(out)@ + s@,
                out@ == base + Seq::new((k - n) as nat, |i: int| ' '),
            decreases width - k,
        {
            push_char(out, ' ');
            assert(Seq::new((k - n) as nat, |i: int| ' ').push(' ') =~= Seq::new(
                (k + 1 - n) as nat,
                |i: int| ' ',
            ));
            k = k + 1;
        }
        assert(out@ =~= old(out)@ + pad_right(s@, width as nat));
    } else {
        assert(out@ =~= old(out)@ + pad_right(s@, width as nat));
    }
}


// ---------------------------------------------------------------------------
// UTF-16
// ---------------------------------------------------------------------------

/// The UTF-16 code units of a character: the character itself below
/// U+10000, and a surrogate pair above.
pub open spec fn utf16_units(c: char) -> Seq<u16> {
    let v = c as int;
    if v < 0x1_0000 {
        seq![v as u16]
    } else {
        seq![(0xD800 + (v - 0x1_0000) / 0x400) as u16, (0xDC00 + (v - 0x1_0000) % 0x400) as u16]
    }
}

/// The UTF-16 encoding of a string, as `str::encode_utf16` yields it.
pub open spec fn utf16_of(s: Seq<char>) -> Seq<u16>
    decreases s.len(),
{
    if s.len() == 0 {
        Seq::empty()
    } else {
        utf16_of(s.drop_last()) + utf16_units(s.last())
    }
}

/// Appends the UTF-16 code units of `c`.
fn push_utf16_units(out: &mut Vec<u16>, c: char)
    ensures
        final(out)@ == old(out)@ + utf16_units(c),
{
    let v = c as u32;
    if v < 0x1_0000 {
        out.push(v as u16);
    } else {
        let w = v - 0x1_0000;
        out.push((0xD800 + w / 0x400) as u16);
        out.push((0xDC00 + w % 0x400) as u16);
    }
    assert(final(out)@ =~= old(out)@ + utf16_units(c));
}

/// The UTF-16 encoding of `s` (see [`utf16_of`]).
pub fn encode_utf16(s: &str) -> (units: Vec<u16>)
    ensures
        units@ == utf16_of(s@),
{
    let chars = chars_of(s);
    let n = chars.len();
    let mut units: Vec<u16> = Vec::new();
    let mut i: usize = 0;
    while i < n
        invariant
            n == chars@.len(),
            chars@ == s@,
            i <= n,
            units@ == utf16_of(s@.take(i as int)),
        decreases n - i,
    {
        assert(s@.take(i + 1).drop_last() =~= s@.take(i as int));
        push_utf16_units(&mut units, chars[i]);
        i = i + 1;
    }
    assert(s@.take(n as int) =~= s@);
    units
}

/// The UTF-16 encoding of `s` followed by a terminating zero, the form in
/// which Windows takes a name.
pub fn wide_nul(s: &str) -> (units: Vec<u16>)
    ensures
        units@ == utf16_of(s@).push(0u16),
{
    let mut units = encode_utf16(s);
    units.push(0);
    units
}

/// The code units of a zero-terminated buffer up to its first zero, or all
/// of them when there is none.
pub fn until_nul(units: &Vec<u16>) -> (r: Vec<u16>)
    ensures
        r@.len() <= units@.len(),
        r@ == units@.take(r@.len() as int),
        forall|j: int| 0 <= j < r@.len() ==> r@[j] != 0,
        r@.len() < units@.len() ==> units@[r@.len() as int] == 0,
{
    let n = units.len();
    let mut r: Vec<u16> = Vec::new();
    let mut i: usize = 0;
    while i < n
        invariant
            n == units@.len(),
            i <= n,
            r@ == units@.take(i as int),
            forall|j: int| 0 <= j < i ==> units@[j] != 0,
        decreases n - i,
    {
        if units[i] == 0 {
            return r;
        }
        r.push(units[i]);
        assert(units@.take(i + 1) =~= units@.take(i as int).push(units@[i as int]));
        i = i + 1;
    }
    assert(units@.take(n as int) =~= units@);
    r
}

} // verus!
