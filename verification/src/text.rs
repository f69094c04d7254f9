//! Characters, strings and number formatting.

use vstd::prelude::*;

verus! {

/// Collects the characters of `s` into a vector.
pub(crate) fn chars_of(s: &str) -> (res: Vec<char>)
    ensures
        res@ == s@,
{
    broadcast use vstd::string::axiom_spec_iter;

    let mut v: Vec<char> = Vec::new();
    for c in it: s.chars()
        invariant
            v@ == it.seq().take(it.index() as int),
            it.seq() == s@,
    {
        v.push(c);
    }
    v
}

/// Builds a string from a sequence of characters.
pub(crate) fn string_from_chars(v: &[char]) -> (res: String)
    ensures
        res@ == v@,
{
    let mut s = String::new();
    let mut i: usize = 0;
    while i < v.len()
        invariant
            i <= v.len(),
            s@ == v@.take(i as int),
        decreases v.len() - i,
    {
        push_char(&mut s, v[i]);
        assert(v@.take(i + 1) =~= v@.take(i as int).push(v@[i as int]));
        i = i + 1;
    }
    assert(v@.take(i as int) =~= v@);
    s
}

/// Compares two strings (`str == str`).
#[verifier::external_body]
pub(crate) fn str_eq(a: &str, b: &str) -> (res: bool)
    ensures
        res == (a@ == b@),
{
    a == b
}

/// Appends one character to a string (`String::push`).
#[verifier::external_body]
pub(crate) fn push_char(s: &mut String, c: char)
    ensures
        final(s)@ == old(s)@.push(c),
{
    s.push(c)
}

/// The decimal digits of `n`, without leading zeros ("0" for zero).
pub open spec fn decimal(n: nat) -> Seq<char>
    decreases n,
{
    if n < 10 {
        seq![digit_char(n)]
    } else {
        decimal(n / 10).push(digit_char(n % 10))
    }
}

/// The ASCII character of a digit below sixteen, lower-case for ten and above.
pub open spec fn digit_char(d: nat) -> char {
    if d < 10 {
        ((48 + d) as u32) as char
    } else {
        ((87 + d) as u32) as char
    }
}

/// The lower-case hexadecimal digits of `n`, without leading zeros ("0" for zero).
pub open spec fn hex(n: nat) -> Seq<char>
    decreases n,
{
    if n < 16 {
        seq![digit_char(n)]
    } else {
        hex(n / 16).push(digit_char(n % 16))
    }
}

/// `count` copies of `c`.
pub open spec fn repeat(c: char, count: nat) -> Seq<char> {
    Seq::new(count, |_i: int| c)
}

/// `s` padded on the left with zeros to at least `width` characters, as the
/// `{:0width$}` and `{:0width$x}` formats do.
pub open spec fn zero_pad(s: Seq<char>, width: nat) -> Seq<char> {
    if s.len() < width {
        repeat('0', (width - s.len()) as nat) + s
    } else {
        s
    }
}

fn digit(d: u64) -> (c: char)
    requires
        d < 16,
    ensures
        c == digit_char(d as nat),
{
    let code: u8 = if d < 10 { 48 + d as u8 } else { 87 + d as u8 };
    assert(code as u32 as char == digit_char(d as nat)) by {
        assert(code as u32 == (if d < 10 { 48 + d } else { 87 + d }));
    }
    code as char
}

/// Writes `n` in base `base` (ten or sixteen) into a vector of characters.
fn digits_of(n: u64, base: u64) -> (res: Vec<char>)
    requires
        base == 10 || base == 16,
    ensures
        base == 10 ==> res@ == decimal(n as nat),
        base == 16 ==> res@ == hex(n as nat),
    decreases n,
{
    if n < base {
        let mut v: Vec<char> = Vec::new();
        v.push(digit(n));
        proof {
            assert(v@ == seq![digit_char(n as nat)]);
        }
        v
    } else {
        let mut v = digits_of(n / base, base);
        v.push(digit(n % base));
        v
    }
}

/// The decimal form of `n`, as `n.to_string()` gives it.
pub fn u64_to_decimal(n: u64) -> (res: String)
    ensures
        res@ == decimal(n as nat),
{
    let v = digits_of(n, 10);
    string_from_chars(v.as_slice())
}

/// The decimal form of `n`, zero-padded to `width` characters (`{:0width$}`).
pub fn u64_to_padded_decimal(n: u64, width: usize) -> (res: String)
    ensures
        res@ == zero_pad(decimal(n as nat), width as nat),
{
    let v = digits_of(n, 10);
    pad_chars(v, width)
}

/// The lower-case hexadecimal form of `n`, zero-padded to `width` characters
/// (`{:0width$x}`).
pub fn u64_to_padded_hex(n: u64, width: usize) -> (res: String)
    ensures
        res@ == zero_pad(hex(n as nat), width as nat),
{
    let v = digits_of(n, 16);
    pad_chars(v, width)
}

fn pad_chars(v: Vec<char>, width: usize) -> (res: String)
    ensures
        res@ == zero_pad(v@, width as nat),
{
    let mut out: Vec<char> = Vec::new();
    if v.len() < width {
        let missing = width - v.len();
        let mut i: usize = 0;
        while i < missing
            invariant
                i <= missing,
                out@ == repeat('0', i as nat),
            decreases missing - i,
        {
            out.push('0');
            i = i + 1;
            assert(out@ =~= repeat('0', i as nat));
        }
    }
    let mut j: usize = 0;
    let ghost prefix = out@;
    while j < v.len()
        invariant
            j <= v.len(),
            out@ == prefix + v@.take(j as int),
        decreases v.len() - j,
    {
        out.push(v[j]);
        j = j + 1;
        assert(out@ =~= prefix + v@.take(j as int));
    }
    assert(v@.take(v.len() as int) =~= v@);
    assert(out@ =~= zero_pad(v@, width as nat));
    string_from_chars(out.as_slice())
}


/// Whether `c` has the Unicode `White_Space` property, which is what
/// `char::is_whitespace` tests.
pub open spec fn is_white_space(c: char) -> bool {
    let v = c as u32;
    ||| (0x9 <= v && v <= 0xd)
    ||| v == 0x20
    ||| v == 0x85
    ||| v == 0xa0
    ||| v == 0x1680
    ||| (0x2000 <= v && v <= 0x200a)
    ||| v == 0x2028
    ||| v == 0x2029
    ||| v == 0x202f
    ||| v == 0x205f
    ||| v == 0x3000
}

/// Tests a character for the Unicode `White_Space` property.
pub fn char_is_white_space(c: char) -> (res: bool)
    ensures
        res == is_white_space(c),
{
    let v = c as u32;
    (0x9 <= v && v <= 0xd) || v == 0x20 || v == 0x85 || v == 0xa0 || v == 0x1680 || (0x2000
        <= v && v <= 0x200a) || v == 0x2028 || v == 0x2029 || v == 0x202f || v == 0x205f || v
        == 0x3000
}

/// The words of `s` that follow the word `current` already begun: the maximal
/// runs of characters that are not white space, in order.
pub open spec fn words_from(s: Seq<char>, current: Seq<char>) -> Seq<Seq<char>>
    decreases s.len(),
{
    if s.len() == 0 {
        if current.len() > 0 {
            seq![current]
        } else {
            seq![]
        }
    } else if is_white_space(s[0]) {
        (if current.len() > 0 {
            seq![current]
        } else {
            seq![]
        }) + words_from(s.drop_first(), seq![])
    } else {
        words_from(s.drop_first(), current.push(s[0]))
    }
}

/// The words of `s`: what `str::split_whitespace` yields.
pub open spec fn words(s: Seq<char>) -> Seq<Seq<char>> {
    words_from(s, seq![])
}

/// The views of a vector of strings.
pub open spec fn string_views(v: Seq<String>) -> Seq<Seq<char>> {
    v.map_values(|x: String| x@)
}

/// Splits a layer's key list at white space.
pub fn split_keys(layer: &str) -> (res: Vec<String>)
    ensures
        string_views(res@) == words(layer@),
{
    let chars = chars_of(layer);
    let mut res: Vec<String> = Vec::new();
    let mut current: Vec<char> = Vec::new();
    let mut i: usize = 0;
    assert(chars@.skip(0) =~= chars@);
    assert(current@ =~= Seq::<char>::empty());
    assert(string_views(res@) =~= Seq::<Seq<char>>::empty());
    assert(string_views(res@) + words(layer@) =~= words(layer@));
    while i < chars.len()
        invariant
            i <= chars.len(),
            chars@ == layer@,
            words(layer@) == string_views(res@) + words_from(chars@.skip(i as int), current@),
        decreases chars.len() - i,
    {
        let ghost rest = chars@.skip(i as int);
        assert(rest.drop_first() =~= chars@.skip(i + 1));
        assert(rest[0] == chars@[i as int]);
        let c = chars[i];
        if char_is_white_space(c) {
            if current.len() > 0 {
                let w = string_from_chars(current.as_slice());
                let ghost before = res@;
                res.push(w);
                assert(string_views(res@) =~= string_views(before) + seq![current@]);
            } else {
                assert(string_views(res@) + seq![] =~= string_views(res@));
            }
            current = Vec::new();
        } else {
            current.push(c);
        }
        i = i + 1;
    }
    let ghost rest = chars@.skip(i as int);
    assert(rest.len() == 0);
    if current.len() > 0 {
        let w = string_from_chars(current.as_slice());
        let ghost before = res@;
        res.push(w);
        assert(string_views(res@) =~= string_views(before) + seq![current@]);
    } else {
        assert(string_views(res@) + seq![] =~= string_views(res@));
    }
    res
}


/// Whether `c` is an ASCII hexadecimal digit.
pub open spec fn is_hex_digit(c: char) -> bool {
    ('0' <= c && c <= '9') || ('a' <= c && c <= 'f') || ('A' <= c && c <= 'F')
}

/// The value of a hexadecimal digit.
pub open spec fn hex_digit_value(c: char) -> nat {
    if '0' <= c && c <= '9' {
        (c as u32 - 48) as nat
    } else if 'a' <= c && c <= 'f' {
        (c as u32 - 87) as nat
    } else {
        (c as u32 - 55) as nat
    }
}

/// The number of hexadecimal digits in a row in `s` from index `i` on.
pub open spec fn hex_run(s: Seq<char>, i: int) -> nat
    decreases s.len() - i,
{
    if 0 <= i < s.len() && is_hex_digit(s[i]) {
        1 + hex_run(s, i + 1)
    } else {
        0
    }
}

/// The number that the hexadecimal digits `s[start..end]` write.
pub open spec fn hex_value(s: Seq<char>, start: int, end: int) -> nat
    decreases end - start,
{
    if end <= start {
        0
    } else {
        hex_value(s, start, end - 1) * 16 + hex_digit_value(s[end - 1])
    }
}

/// The escape `\u{h}` (one to six hexadecimal digits `h`) that starts at index
/// `i` of `s`, if one does: its length and the number it writes.
pub open spec fn escape_at(s: Seq<char>, i: int) -> Option<(nat, nat)> {
    let run = hex_run(s, i + 3);
    if 0 <= i && i + 3 <= s.len() && s[i] == '\\' && s[i + 1] == 'u' && s[i + 2] == '{' && 1
        <= run && run <= 6 && i + 3 + run < s.len() && s[i + 3 + run] == '}' {
        Some(((run + 4) as nat, hex_value(s, i + 3, i + 3 + run)))
    } else {
        None
    }
}

/// Whether `v` is a Unicode scalar value, the range of `char`.
pub open spec fn is_scalar_value(v: nat) -> bool {
    v <= 0x10ffff && !(0xd800 <= v && v <= 0xdfff)
}

/// Whether every escape in `s` writes a Unicode scalar value.
pub open spec fn escapes_are_scalar(s: Seq<char>) -> bool {
    forall|i: int| #[trigger] escape_at(s, i) matches Some((_len, v)) ==> is_scalar_value(v)
}

/// `s` from index `i` on with every escape `\u{h}` replaced by the character it
/// writes, scanning from the left as `Regex::replace_all` does.
pub open spec fn decode_from(s: Seq<char>, i: int) -> Seq<char>
    decreases s.len() - i,
{
    if i < 0 || i >= s.len() {
        seq![]
    } else {
        match escape_at(s, i) {
            Some((len, v)) => seq![(v as u32) as char] + decode_from(s, i + len),
            None => seq![s[i]] + decode_from(s, i + 1),
        }
    }
}

/// `s` with every escape `\u{h}` replaced by the character it writes.
pub open spec fn decode_escapes(s: Seq<char>) -> Seq<char> {
    decode_from(s, 0)
}

/// The character of a Unicode scalar value (`char::from_u32`).
#[verifier::external_body]
pub(crate) fn char_from_u32(v: u32) -> (res: Option<char>)
    ensures
        is_scalar_value(v as nat) ==> res == Some(v as char),
        !is_scalar_value(v as nat) ==> res is None,
{
    char::from_u32(v)
}

fn char_is_hex_digit(c: char) -> (res: bool)
    ensures
        res == is_hex_digit(c),
{
    ('0' <= c && c <= '9') || ('a' <= c && c <= 'f') || ('A' <= c && c <= 'F')
}

fn char_hex_value(c: char) -> (res: u32)
    requires
        is_hex_digit(c),
    ensures
        res == hex_digit_value(c),
        res < 16,
{
    if '0' <= c && c <= '9' {
        c as u32 - 48
    } else if 'a' <= c && c <= 'f' {
        c as u32 - 87
    } else {
        c as u32 - 55
    }
}

proof fn lemma_hex_value_bound(s: Seq<char>, start: int, end: int)
    requires
        start <= end,
        forall|k: int| start <= k < end ==> is_hex_digit(#[trigger] s[k]),
    ensures
        hex_value(s, start, end) < pow16((end - start) as nat),
    decreases end - start,
{
    if end > start {
        lemma_hex_value_bound(s, start, end - 1);
        assert(hex_digit_value(s[end - 1]) < 16);
        assert(pow16((end - start) as nat) == 16 * pow16((end - 1 - start) as nat));
    }
}

/// Sixteen to the power `n`.
pub open spec fn pow16(n: nat) -> nat
    decreases n,
{
    if n == 0 {
        1
    } else {
        16 * pow16((n - 1) as nat)
    }
}

proof fn lemma_hex_run_digits(s: Seq<char>, i: int, k: int)
    requires
        0 <= i,
        i <= k < i + hex_run(s, i),
    ensures
        is_hex_digit(s[k]),
        k < s.len(),
    decreases k - i,
{
    if k > i {
        lemma_hex_run_digits(s, i + 1, k);
    }
}

/// The escape at index `i` of `chars`, computed.
fn scan_escape(chars: &Vec<char>, i: usize) -> (res: Option<(usize, u32)>)
    requires
        i < chars.len(),
    ensures
        match escape_at(chars@, i as int) {
            Some((len, v)) => res == Some((len as usize, v as u32)) && v < 0x1000000,
            None => res is None,
        },
{
    let n = chars.len();
    if !(n - i >= 3 && chars[i] == '\\' && chars[i + 1] == 'u' && chars[i + 2] == '{') {
        return None;
    }
    let start = i + 3;
    let mut j = start;
    while j < n && char_is_hex_digit(chars[j])
        invariant
            start <= j <= n,
            n == chars.len(),
            hex_run(chars@, start as int) == (j - start) + hex_run(chars@, j as int),
        decreases n - j,
    {
        j = j + 1;
    }
    let run = j - start;
    assert(hex_run(chars@, j as int) == 0);
    if !(1 <= run && run <= 6 && j < n && chars[j] == '}') {
        return None;
    }
    let mut value: u32 = 0;
    let mut k = start;
    while k < j
        invariant
            start <= k <= j,
            j == start + hex_run(chars@, start as int),
            j < n,
            n == chars.len(),
            run <= 6,
            run == j - start,
            value == hex_value(chars@, start as int, k as int),
            value < pow16((k - start) as nat),
        decreases j - k,
    {
        proof {
            lemma_hex_run_digits(chars@, start as int, k as int);
            lemma_pow16_mono((k - start) as nat, 5);
        }
        let d = char_hex_value(chars[k]);
        value = value * 16 + d;
        k = k + 1;
        assert(pow16((k - start) as nat) == 16 * pow16((k - 1 - start) as nat));
    }
    proof {
        lemma_pow16_mono(run as nat, 6);
    }
    Some((run + 4, value))
}

proof fn lemma_pow16_mono(a: nat, b: nat)
    requires
        a <= b,
    ensures
        pow16(a) <= pow16(b),
        pow16(5) == 0x100000,
        pow16(6) == 0x1000000,
    decreases b,
{
    reveal_with_fuel(pow16, 7);
    if a < b {
        lemma_pow16_mono(a, (b - 1) as nat);
    }
}

/// Replaces each escape `\u{h}` (one to six hexadecimal digits) in `input` by
/// the character it writes.
pub fn decode_unicode_escapes(input: &str) -> (res: String)
    requires
        escapes_are_scalar(input@),
    ensures
        res@ == decode_escapes(input@),
{
    let chars = chars_of(input);
    let mut out: Vec<char> = Vec::new();
    let mut i: usize = 0;
    while i < chars.len()
        invariant
            i <= chars.len(),
            chars@ == input@,
            escapes_are_scalar(input@),
            decode_escapes(input@) == out@ + decode_from(chars@, i as int),
        decreases chars.len() - i,
    {
        match scan_escape(&chars, i) {
            Some((len, v)) => {
                assert(escape_at(chars@, i as int) matches Some((_l, w)) && is_scalar_value(w));
                let c = char_from_u32(v);
                let c = c.unwrap();
                out.push(c);
                i = i + len;
            },
            None => {
                out.push(chars[i]);
                i = i + 1;
            },
        }
    }
    assert(decode_from(chars@, i as int) =~= Seq::<char>::empty());
    assert(out@ + Seq::<char>::empty() =~= out@);
    string_from_chars(out.as_slice())
}

/// Whether every escape `\u{h}` in `input` writes a Unicode scalar value, so
/// that `input` can be decoded.
pub fn escapes_decode(input: &str) -> (res: bool)
    ensures
        res == escapes_are_scalar(input@),
{
    let chars = chars_of(input);
    let mut i: usize = 0;
    while i < chars.len()
        invariant
            i <= chars.len(),
            chars@ == input@,
            forall|k: int| k < i ==> (#[trigger] escape_at(input@, k) matches Some((_l, v)) ==> is_scalar_value(v)),
        decreases chars.len() - i,
    {
        match scan_escape(&chars, i) {
            Some((_len, v)) => {
                if !(v <= 0x10ffff && !(0xd800 <= v && v <= 0xdfff)) {
                    return false;
                }
            },
            None => {},
        }
        i = i + 1;
    }
    assert forall|k: int| (#[trigger] escape_at(input@, k) matches Some((_l, v)) ==> is_scalar_value(v)) by {
        if k >= i {
            assert(escape_at(input@, k) is None);
        }
    }
    true
}


/// The UTF-16 code units of one character.
pub open spec fn char_utf16(c: char) -> Seq<u16> {
    let v = c as u32;
    if v <= 0xffff {
        seq![v as u16]
    } else {
        let w = (v - 0x10000) as nat;
        seq![(0xd800 + w / 1024) as u16, (0xdc00 + w % 1024) as u16]
    }
}

/// The UTF-16 code units of a string, as `str::encode_utf16` yields them.
pub open spec fn utf16_units(s: Seq<char>) -> Seq<u16>
    decreases s.len(),
{
    if s.len() == 0 {
        seq![]
    } else {
        utf16_units(s.drop_last()) + char_utf16(s.last())
    }
}

/// A string has at least as many UTF-16 units as characters; one unit is one
/// character.
pub proof fn lemma_utf16_units_len(s: Seq<char>)
    ensures
        utf16_units(s).len() >= s.len(),
        utf16_units(s).len() == 1 ==> s.len() == 1 && utf16_units(s) == char_utf16(s[0]),
    decreases s.len(),
{
    if s.len() > 0 {
        lemma_utf16_units_len(s.drop_last());
        if utf16_units(s).len() == 1 {
            assert(s.drop_last().len() == 0);
            assert(utf16_units(s.drop_last()) =~= Seq::<u16>::empty());
            assert(utf16_units(s) =~= char_utf16(s.last()));
        }
    }
}

/// The UTF-16 code units of `s`.
pub fn encode_utf16(s: &str) -> (res: Vec<u16>)
    ensures
        res@ == utf16_units(s@),
{
    let chars = chars_of(s);
    let mut out: Vec<u16> = Vec::new();
    let mut i: usize = 0;
    while i < chars.len()
        invariant
            i <= chars.len(),
            chars@ == s@,
            out@ == utf16_units(chars@.take(i as int)),
        decreases chars.len() - i,
    {
        let c = chars[i];
        let v = c as u32;
        let ghost before = out@;
        if v <= 0xffff {
            out.push(v as u16);
        } else {
            let w = v - 0x10000;
            assert(w < 0x100000) by {
                vstd::utf8::char_is_scalar(c);
            }
            out.push((0xd800 + w / 1024) as u16);
            out.push((0xdc00 + w % 1024) as u16);
        }
        assert(chars@.take(i + 1).drop_last() =~= chars@.take(i as int));
        assert(out@ =~= before + char_utf16(c));
        i = i + 1;
    }
    assert(chars@.take(i as int) =~= chars@);
    out
}

/// The bytes of `units` in little-endian order after the byte-order mark
/// `FF FE`: UTF-16LE with a BOM.
pub open spec fn utf16_le_bom(units: Seq<u16>) -> Seq<u8> {
    seq![0xffu8, 0xfeu8] + le_bytes(units)
}

/// The bytes of `units`, each low byte first.
pub open spec fn le_bytes(units: Seq<u16>) -> Seq<u8>
    decreases units.len(),
{
    if units.len() == 0 {
        seq![]
    } else {
        le_bytes(units.drop_last()) + seq![
            (units.last() % 256) as u8,
            (units.last() / 256) as u8,
        ]
    }
}

/// Encodes `s` as UTF-16LE with a byte-order mark, the encoding of `.klc`
/// files.
pub fn encode_utf16_le_bom(s: &str) -> (res: Vec<u8>)
    ensures
        res@ == utf16_le_bom(utf16_units(s@)),
{
    let units = encode_utf16(s);
    let mut out: Vec<u8> = Vec::new();
    out.push(0xff);
    out.push(0xfe);
    let mut i: usize = 0;
    while i < units.len()
        invariant
            i <= units.len(),
            units@ == utf16_units(s@),
            out@ == seq![0xffu8, 0xfeu8] + le_bytes(units@.take(i as int)),
        decreases units.len() - i,
    {
        let u = units[i];
        let ghost before = out@;
        out.push((u % 256) as u8);
        out.push((u / 256) as u8);
        assert(units@.take(i + 1).drop_last() =~= units@.take(i as int));
        assert(out@ =~= seq![0xffu8, 0xfeu8] + le_bytes(units@.take(i + 1)));
        i = i + 1;
    }
    assert(units@.take(i as int) =~= units@);
    out
}

/// `s` without the characters equal to `c`.
pub open spec fn without_char(s: Seq<char>, c: char) -> Seq<char>
    decreases s.len(),
{
    if s.len() == 0 {
        seq![]
    } else {
        without_char(s.drop_last(), c) + (if s.last() == c {
            seq![]
        } else {
            seq![s.last()]
        })
    }
}

/// `s` with every character equal to `from` replaced by `to`.
pub open spec fn replace_char(s: Seq<char>, from: char, to: Seq<char>) -> Seq<char>
    decreases s.len(),
{
    if s.len() == 0 {
        seq![]
    } else {
        replace_char(s.drop_last(), from, to) + (if s.last() == from {
            to
        } else {
            seq![s.last()]
        })
    }
}

/// Replaces each `from` character of `input` by the string `to`
/// (`str::replace` with a one-character pattern).
pub fn replace_all_chars(input: &str, from: char, to: &str) -> (res: String)
    ensures
        res@ == replace_char(input@, from, to@),
{
    let chars = chars_of(input);
    let to_chars = chars_of(to);
    let mut out: Vec<char> = Vec::new();
    let mut i: usize = 0;
    while i < chars.len()
        invariant
            i <= chars.len(),
            chars@ == input@,
            to_chars@ == to@,
            out@ == replace_char(chars@.take(i as int), from, to@),
        decreases chars.len() - i,
    {
        let ghost before = out@;
        if chars[i] == from {
            let mut k: usize = 0;
            while k < to_chars.len()
                invariant
                    k <= to_chars.len(),
                    out@ == before + to_chars@.take(k as int),
                decreases to_chars.len() - k,
            {
                out.push(to_chars[k]);
                k = k + 1;
                assert(out@ =~= before + to_chars@.take(k as int));
            }
            assert(to_chars@.take(k as int) =~= to@);
        } else {
            out.push(chars[i]);
        }
        assert(chars@.take(i + 1).drop_last() =~= chars@.take(i as int));
        i = i + 1;
    }
    assert(chars@.take(i as int) =~= chars@);
    string_from_chars(out.as_slice())
}

/// Removes every `c` from `input`.
pub fn remove_char(input: &str, c: char) -> (res: String)
    ensures
        res@ == without_char(input@, c),
{
    let chars = chars_of(input);
    let mut out: Vec<char> = Vec::new();
    let mut i: usize = 0;
    while i < chars.len()
        invariant
            i <= chars.len(),
            chars@ == input@,
            out@ == without_char(chars@.take(i as int), c),
        decreases chars.len() - i,
    {
        if chars[i] != c {
            out.push(chars[i]);
        }
        assert(chars@.take(i + 1).drop_last() =~= chars@.take(i as int));
        i = i + 1;
    }
    assert(chars@.take(i as int) =~= chars@);
    string_from_chars(out.as_slice())
}

} // verus!

verus! {

/// `s` with each occurrence of the non-empty `pattern` replaced by `to`,
/// scanning from the left and resuming after each replaced occurrence
/// (`str::replace`).
pub open spec fn replaced(s: Seq<char>, pattern: Seq<char>, to: Seq<char>) -> Seq<char>
    decreases s.len(),
{
    if s.len() == 0 || pattern.len() == 0 {
        s
    } else if pattern.len() <= s.len() && s.take(pattern.len() as int) == pattern {
        to + replaced(s.skip(pattern.len() as int), pattern, to)
    } else {
        seq![s[0]] + replaced(s.skip(1), pattern, to)
    }
}

fn starts_with_at(chars: &Vec<char>, i: usize, pattern: &Vec<char>) -> (res: bool)
    requires
        i <= chars.len(),
    ensures
        res == (pattern.len() <= chars.len() - i && chars@.skip(i as int).take(pattern.len() as int)
            == pattern@),
{
    if pattern.len() > chars.len() - i {
        return false;
    }
    let mut k: usize = 0;
    while k < pattern.len()
        invariant
            k <= pattern.len(),
            pattern.len() <= chars.len() - i,
            forall|j: int| 0 <= j < k ==> chars@[i + j] == pattern@[j],
        decreases pattern.len() - k,
    {
        if chars[i + k] != pattern[k] {
            assert(chars@.skip(i as int).take(pattern.len() as int)[k as int] != pattern@[k as int]);
            return false;
        }
        k = k + 1;
    }
    assert(chars@.skip(i as int).take(pattern.len() as int) =~= pattern@);
    true
}

/// Replaces each occurrence of `pattern` in `input` by `to`, as
/// `str::replace` does.
pub fn replace_str(input: &str, pattern: &str, to: &str) -> (res: String)
    ensures
        res@ == replaced(input@, pattern@, to@),
{
    let chars = chars_of(input);
    let pat = chars_of(pattern);
    let to_chars = chars_of(to);
    if pat.len() == 0 {
        return string_from_chars(chars.as_slice());
    }
    let mut out: Vec<char> = Vec::new();
    let mut i: usize = 0;
    assert(chars@.skip(0) =~= chars@);
    assert(out@ + replaced(chars@.skip(0), pat@, to_chars@) =~= replaced(input@, pattern@, to@));
    while i < chars.len()
        invariant
            i <= chars.len(),
            chars@ == input@,
            pat@ == pattern@,
            to_chars@ == to@,
            pat.len() > 0,
            out@ + replaced(chars@.skip(i as int), pat@, to_chars@) == replaced(input@, pattern@, to@),
        decreases chars.len() - i,
    {
        let ghost rest = chars@.skip(i as int);
        if starts_with_at(&chars, i, &pat) {
            let ghost before = out@;
            let mut k: usize = 0;
            while k < to_chars.len()
                invariant
                    k <= to_chars.len(),
                    out@ == before + to_chars@.take(k as int),
                decreases to_chars.len() - k,
            {
                out.push(to_chars[k]);
                k = k + 1;
                assert(out@ =~= before + to_chars@.take(k as int));
            }
            assert(to_chars@.take(k as int) =~= to_chars@);
            assert(rest.skip(pat.len() as int) =~= chars@.skip(i + pat.len()));
            assert(out@ + replaced(chars@.skip(i + pat.len()), pat@, to_chars@) =~= before + replaced(
                rest,
                pat@,
                to_chars@,
            ));
            i = i + pat.len();
        } else {
            let ghost before = out@;
            out.push(chars[i]);
            assert(rest.skip(1) =~= chars@.skip(i + 1));
            assert(rest[0] == chars@[i as int]);
            assert(out@ + replaced(chars@.skip(i + 1), pat@, to_chars@) =~= before + replaced(
                rest,
                pat@,
                to_chars@,
            ));
            i = i + 1;
        }
    }
    assert(chars@.skip(i as int) =~= Seq::<char>::empty());
    assert(out@ + Seq::<char>::empty() =~= out@);
    string_from_chars(out.as_slice())
}

/// The lower-case form of a string as `str::to_lowercase` gives it, by the
/// Unicode case tables of the standard library.
pub uninterp spec fn lowercased(s: Seq<char>) -> Seq<char>;

/// `str::to_lowercase`. Its mapping is the standard library's Unicode table;
/// nothing is claimed of it but that the same text gives the same result.
#[verifier::external_body]
pub(crate) fn to_lowercase(s: &str) -> (res: String)
    ensures
        res@ == lowercased(s@),
{
    s.to_lowercase()
}

} // verus!

verus! {

/// Pairs of texts by value.
pub open spec fn pair_texts(v: Seq<(String, String)>) -> Seq<(Seq<char>, Seq<char>)> {
    v.map_values(|p: (String, String)| (p.0@, p.1@))
}

/// The texts of `items` joined by `sep`.
pub open spec fn joined(items: Seq<Seq<char>>, sep: Seq<char>) -> Seq<char>
    decreases items.len(),
{
    if items.len() == 0 {
        seq![]
    } else if items.len() == 1 {
        items[0]
    } else {
        joined(items.drop_last(), sep) + sep + items.last()
    }
}

/// Joins strings with a separator (`[String]::join`).
pub fn join_strings(items: &Vec<String>, sep: &str) -> (res: String)
    ensures
        res@ == joined(string_views(items@), sep@),
{
    let mut s = String::new();
    let mut i: usize = 0;
    while i < items.len()
        invariant
            i <= items.len(),
            s@ == joined(string_views(items@).take(i as int), sep@),
        decreases items.len() - i,
    {
        if i > 0 {
            s.append(sep);
        }
        s.append(items[i].as_str());
        assert(string_views(items@).take(i + 1).drop_last() =~= string_views(items@).take(i as int));
        i = i + 1;
    }
    assert(string_views(items@).take(i as int) =~= string_views(items@));
    s
}

} // verus!

verus! {

/// The pieces of `s` between newlines (`str::split('\n')`): there is always
/// at least one.
pub open spec fn newline_pieces(s: Seq<char>) -> Seq<Seq<char>>
    decreases s.len(),
{
    if s.len() == 0 {
        seq![seq![]]
    } else {
        let rest = newline_pieces(s.drop_last());
        if s.last() == '\n' {
            rest.push(seq![])
        } else {
            rest.update(rest.len() - 1, rest.last().push(s.last()))
        }
    }
}

/// A line before a newline without the carriage return that ends it.
pub open spec fn without_cr(line: Seq<char>) -> Seq<char> {
    if line.len() > 0 && line.last() == '\r' {
        line.drop_last()
    } else {
        line
    }
}

/// The lines of `s` (`str::lines`): the pieces between newlines, each
/// without a carriage return before its newline, and without the empty piece
/// after a final newline.
pub open spec fn text_lines(s: Seq<char>) -> Seq<Seq<char>> {
    let pieces = newline_pieces(s);
    let ended = pieces.drop_last().map_values(|p: Seq<char>| without_cr(p));
    if pieces.last().len() == 0 {
        ended
    } else {
        ended.push(pieces.last())
    }
}

/// A text has at least one piece between newlines.
pub proof fn lemma_newline_pieces_len(s: Seq<char>)
    ensures
        newline_pieces(s).len() >= 1,
    decreases s.len(),
{
    if s.len() > 0 {
        lemma_newline_pieces_len(s.drop_last());
    }
}

/// The lines of `s`, as `str::lines` gives them.
pub fn split_lines(s: &str) -> (res: Vec<String>)
    ensures
        string_views(res@) == text_lines(s@),
{
    let chars = chars_of(s);
    let mut done: Vec<String> = Vec::new();
    let mut current: Vec<char> = Vec::new();
    let mut i: usize = 0;
    while i < chars.len()
        invariant
            i <= chars.len(),
            chars@ == s@,
            newline_pieces(chars@.take(i as int)).len() >= 1,
            string_views(done@) == newline_pieces(chars@.take(i as int)).drop_last().map_values(
                |p: Seq<char>| without_cr(p),
            ),
            current@ == newline_pieces(chars@.take(i as int)).last(),
        decreases chars.len() - i,
    {
        let ghost prefix = chars@.take(i as int);
        let ghost next = chars@.take(i + 1);
        assert(next.drop_last() =~= prefix);
        proof {
            lemma_newline_pieces_len(prefix);
            lemma_newline_pieces_len(next);
        }
        if chars[i] == '\n' {
            let n = current.len();
            let line = if n > 0 && current[n - 1] == '\r' {
                let mut k: usize = 0;
                let mut trimmed: Vec<char> = Vec::new();
                while k < n - 1
                    invariant
                        k <= n - 1,
                        n == current.len(),
                        trimmed@ == current@.take(k as int),
                    decreases n - 1 - k,
                {
                    trimmed.push(current[k]);
                    k = k + 1;
                    assert(trimmed@ =~= current@.take(k as int));
                }
                assert(trimmed@ =~= current@.drop_last());
                string_from_chars(trimmed.as_slice())
            } else {
                string_from_chars(current.as_slice())
            };
            let ghost before = done@;
            done.push(line);
            assert(string_views(done@) =~= string_views(before).push(without_cr(current@)));
            assert(newline_pieces(next).drop_last() =~= newline_pieces(prefix));
            assert(string_views(done@) =~= newline_pieces(next).drop_last().map_values(
                |p: Seq<char>| without_cr(p),
            ));
            current = Vec::new();
            assert(current@ =~= newline_pieces(next).last());
        } else {
            current.push(chars[i]);
            assert(newline_pieces(next).drop_last() =~= newline_pieces(prefix).drop_last());
        }
        i = i + 1;
    }
    assert(chars@.take(i as int) =~= s@);
    if current.len() > 0 {
        let ghost before = done@;
        done.push(string_from_chars(current.as_slice()));
        assert(string_views(done@) =~= string_views(before).push(current@));
    }
    done
}

} // verus!

verus! {

/// Texts by value.
pub open spec fn texts(v: Seq<String>) -> Seq<Seq<char>> {
    v.map_values(|s: String| s@)
}

/// The concatenation of two strings.
pub fn concat_text(a: &str, b: &str) -> (res: String)
    ensures
        res@ == a@ + b@,
{
    let mut s = a.to_string();
    s.append(b);
    s
}

/// Appends a string to a list of strings.
pub fn push_text(v: &mut Vec<String>, s: String)
    ensures
        texts(final(v)@) == texts(old(v)@).push(s@),
{
    let ghost before = v@;
    v.push(s);
    assert(texts(v@) =~= texts(before).push(s@));
}

} // verus!

verus! {

/// The value of a decimal digit, zero for any other character.
pub open spec fn digit_value(c: char) -> nat {
    if '0' <= c && c <= '9' {
        (c as u32 - 48) as nat
    } else {
        0
    }
}

/// The number that a string of decimal digits stands for.
pub open spec fn decimal_value(s: Seq<char>) -> nat
    decreases s.len(),
{
    if s.len() == 0 {
        0
    } else {
        decimal_value(s.drop_last()) * 10 + digit_value(s.last())
    }
}

/// The digits of `n` stand for `n`.
pub proof fn lemma_decimal_value(n: nat)
    ensures
        decimal_value(decimal(n)) == n,
    decreases n,
{
    if n < 10 {
        assert(decimal(n) == seq![digit_char(n)]);
        assert(seq![digit_char(n)].drop_last() =~= Seq::<char>::empty());
        assert(digit_value(digit_char(n)) == n);
        assert(decimal_value(Seq::<char>::empty()) == 0);
        assert(decimal_value(seq![digit_char(n)]) == decimal_value(Seq::<char>::empty()) * 10 + digit_value(
            digit_char(n),
        ));
    } else {
        lemma_decimal_value(n / 10);
        let d = decimal(n / 10).push(digit_char(n % 10));
        assert(d.drop_last() =~= decimal(n / 10));
        assert(digit_value(digit_char(n % 10)) == n % 10);
        assert((n / 10) * 10 + n % 10 == n);
        assert(d.last() == digit_char(n % 10));
        assert(decimal_value(d) == decimal_value(d.drop_last()) * 10 + digit_value(d.last()));
    }
}

proof fn lemma_zeros_value(k: nat)
    ensures
        decimal_value(repeat('0', k)) == 0,
    decreases k,
{
    if k > 0 {
        lemma_zeros_value((k - 1) as nat);
        assert(repeat('0', k).drop_last() =~= repeat('0', (k - 1) as nat));
    }
}

/// Leading zeros do not change a number's value.
pub proof fn lemma_leading_zeros_value(k: nat, s: Seq<char>)
    ensures
        decimal_value(repeat('0', k) + s) == decimal_value(s),
    decreases s.len(),
{
    if s.len() == 0 {
        assert(repeat('0', k) + s =~= repeat('0', k));
        lemma_zeros_value(k);
    } else {
        lemma_leading_zeros_value(k, s.drop_last());
        assert((repeat('0', k) + s).drop_last() =~= repeat('0', k) + s.drop_last());
    }
}

/// Different numbers padded with zeros to the same width have different
/// digits.
pub proof fn lemma_zero_pad_injective(a: nat, b: nat, width: nat)
    ensures
        zero_pad(decimal(a), width) == zero_pad(decimal(b), width) ==> a == b,
{
    lemma_decimal_value(a);
    lemma_decimal_value(b);
    if decimal(a).len() < width {
        lemma_leading_zeros_value((width - decimal(a).len()) as nat, decimal(a));
    }
    if decimal(b).len() < width {
        lemma_leading_zeros_value((width - decimal(b).len()) as nat, decimal(b));
    }
}

} // verus!

verus! {

/// Whether `w` can be a key of a layer's list: it is not empty and holds no
/// white space.
pub open spec fn is_key_text(w: Seq<char>) -> bool {
    w.len() > 0 && forall|j: int| 0 <= j < w.len() ==> !is_white_space(#[trigger] w[j])
}

proof fn lemma_words_from_are_keys(s: Seq<char>, current: Seq<char>)
    requires
        forall|j: int| 0 <= j < current.len() ==> !is_white_space(#[trigger] current[j]),
    ensures
        forall|i: int| 0 <= i < words_from(s, current).len() ==> is_key_text(#[trigger] words_from(s, current)[i]),
    decreases s.len(),
{
    if s.len() == 0 {
        if current.len() > 0 {
            assert(is_key_text(current));
            assert(words_from(s, current) =~= seq![current]);
            assert(words_from(s, current)[0] == current);
        } else {
            assert(words_from(s, current) =~= Seq::<Seq<char>>::empty());
        }
    } else if is_white_space(s[0]) {
        lemma_words_from_are_keys(s.drop_first(), seq![]);
        let head: Seq<Seq<char>> = if current.len() > 0 {
            seq![current]
        } else {
            seq![]
        };
        let rest = words_from(s.drop_first(), seq![]);
        assert(words_from(s, current) == head + rest);
        assert forall|i: int| 0 <= i < (head + rest).len() implies is_key_text(#[trigger] (head + rest)[i]) by {
            if i < head.len() {
                assert((head + rest)[i] == current);
            } else {
                assert((head + rest)[i] == rest[i - head.len()]);
            }
        }
    } else {
        let next = current.push(s[0]);
        assert forall|j: int| 0 <= j < next.len() implies !is_white_space(#[trigger] next[j]) by {
            if j < current.len() {
                assert(next[j] == current[j]);
            }
        }
        lemma_words_from_are_keys(s.drop_first(), next);
        assert(words_from(s, current) == words_from(s.drop_first(), next));
    }
}

/// Every key that a layer's list splits into is non-empty and holds no
/// white space.
pub proof fn lemma_words_are_keys(s: Seq<char>)
    ensures
        forall|i: int| 0 <= i < words(s).len() ==> is_key_text(#[trigger] words(s)[i]),
{
    lemma_words_from_are_keys(s, seq![]);
}

} // verus!

verus! {

proof fn lemma_decode_from_plain(s: Seq<char>, i: int)
    requires
        0 <= i <= s.len(),
        !s.contains('\\'),
    ensures
        decode_from(s, i) == s.skip(i),
    decreases s.len() - i,
{
    if i < s.len() {
        assert(s[i] != '\\') by {
            if s[i] == '\\' {
                assert(s.contains('\\'));
            }
        }
        assert(escape_at(s, i) is None);
        lemma_decode_from_plain(s, i + 1);
        assert(seq![s[i]] + s.skip(i + 1) =~= s.skip(i));
    } else {
        assert(s.skip(i) =~= Seq::<char>::empty());
    }
}

/// Decoding leaves a text without backslashes as it is: only `\u{...}`
/// escapes are replaced.
pub proof fn lemma_decode_plain_text(s: Seq<char>)
    requires
        !s.contains('\\'),
    ensures
        decode_escapes(s) == s,
{
    lemma_decode_from_plain(s, 0);
    assert(s.skip(0) =~= s);
}

} // verus!

verus! {

/// The little-endian 16-bit units that `bytes` hold, two bytes each.
pub open spec fn le_units(bytes: Seq<u8>) -> Seq<u16>
    decreases bytes.len(),
{
    if bytes.len() < 2 {
        seq![]
    } else {
        le_units(bytes.drop_last().drop_last()) + seq![
            (bytes[bytes.len() - 2] as nat + bytes[bytes.len() - 1] as nat * 256) as u16,
        ]
    }
}

proof fn lemma_le_round_trip(units: Seq<u16>)
    ensures
        le_bytes(units).len() == 2 * units.len(),
        le_units(le_bytes(units)) == units,
    decreases units.len(),
{
    if units.len() > 0 {
        lemma_le_round_trip(units.drop_last());
        let b = le_bytes(units);
        assert(b.drop_last().drop_last() =~= le_bytes(units.drop_last()));
        let u = units.last();
        assert((u % 256) as nat + (u / 256) as nat * 256 == u);
        assert(units.drop_last() + seq![u] =~= units);
    } else {
        assert(le_bytes(units) =~= Seq::<u8>::empty());
    }
}

/// The bytes of a `.klc` file start with the byte-order mark `FF FE` and,
/// read back two by two as little-endian units, give the text's UTF-16 units.
pub proof fn lemma_utf16_le_bom_round_trip(units: Seq<u16>)
    ensures
        utf16_le_bom(units).len() == 2 + 2 * units.len(),
        utf16_le_bom(units)[0] == 0xff,
        utf16_le_bom(units)[1] == 0xfe,
        le_units(utf16_le_bom(units).skip(2)) == units,
{
    lemma_le_round_trip(units);
    assert(utf16_le_bom(units).skip(2) =~= le_bytes(units));
}

/// A character that neither a text nor the replacement holds is not in the
/// text after a replacement.
pub proof fn lemma_replaced_keeps_absent(s: Seq<char>, pattern: Seq<char>, to: Seq<char>, c: char)
    requires
        !s.contains(c),
        !to.contains(c),
    ensures
        !replaced(s, pattern, to).contains(c),
    decreases s.len(),
{
    if s.len() == 0 || pattern.len() == 0 {
    } else if pattern.len() <= s.len() && s.take(pattern.len() as int) == pattern {
        assert(!s.skip(pattern.len() as int).contains(c)) by {
            if s.skip(pattern.len() as int).contains(c) {
                let j = choose|j: int| 0 <= j < s.skip(pattern.len() as int).len() && s.skip(pattern.len() as int)[j] == c;
                assert(s[j + pattern.len()] == c);
            }
        }
        lemma_replaced_keeps_absent(s.skip(pattern.len() as int), pattern, to, c);
        let r = to + replaced(s.skip(pattern.len() as int), pattern, to);
        if r.contains(c) {
            let j = choose|j: int| 0 <= j < r.len() && r[j] == c;
            if j < to.len() {
                assert(to[j] == c);
            } else {
                assert(replaced(s.skip(pattern.len() as int), pattern, to)[j - to.len()] == c);
            }
        }
    } else {
        assert(!s.skip(1).contains(c)) by {
            if s.skip(1).contains(c) {
                let j = choose|j: int| 0 <= j < s.skip(1).len() && s.skip(1)[j] == c;
                assert(s[j + 1] == c);
            }
        }
        lemma_replaced_keeps_absent(s.skip(1), pattern, to, c);
        let r = seq![s[0]] + replaced(s.skip(1), pattern, to);
        if r.contains(c) {
            let j = choose|j: int| 0 <= j < r.len() && r[j] == c;
            if j == 0 {
                assert(s[0] == c);
            } else {
                assert(replaced(s.skip(1), pattern, to)[j - 1] == c);
            }
        }
    }
}

/// Replacing every occurrence of a one-character pattern by a text without
/// that character leaves none of it.
pub proof fn lemma_replaced_removes(s: Seq<char>, c: char, to: Seq<char>)
    requires
        !to.contains(c),
    ensures
        !replaced(s, seq![c], to).contains(c),
    decreases s.len(),
{
    if s.len() == 0 {
    } else if s.take(1) == seq![c] {
        lemma_replaced_removes(s.skip(1), c, to);
        let r = to + replaced(s.skip(1), seq![c], to);
        if r.contains(c) {
            let j = choose|j: int| 0 <= j < r.len() && r[j] == c;
            if j < to.len() {
                assert(to[j] == c);
            } else {
                assert(replaced(s.skip(1), seq![c], to)[j - to.len()] == c);
            }
        }
    } else {
        assert(s[0] != c) by {
            if s[0] == c {
                assert(s.take(1) =~= seq![c]);
            }
        }
        lemma_replaced_removes(s.skip(1), c, to);
        let r = seq![s[0]] + replaced(s.skip(1), seq![c], to);
        if r.contains(c) {
            let j = choose|j: int| 0 <= j < r.len() && r[j] == c;
            if j > 0 {
                assert(replaced(s.skip(1), seq![c], to)[j - 1] == c);
            }
        }
    }
}

} // verus!

verus! {

/// Replacing every `from` character by a text without it leaves none.
pub proof fn lemma_replace_char_removes(s: Seq<char>, from: char, to: Seq<char>)
    requires
        !to.contains(from),
    ensures
        !replace_char(s, from, to).contains(from),
    decreases s.len(),
{
    if s.len() > 0 {
        lemma_replace_char_removes(s.drop_last(), from, to);
        let head = replace_char(s.drop_last(), from, to);
        let tail = if s.last() == from {
            to
        } else {
            seq![s.last()]
        };
        if (head + tail).contains(from) {
            let j = choose|j: int| 0 <= j < (head + tail).len() && (head + tail)[j] == from;
            if j < head.len() {
                assert(head[j] == from);
            } else {
                assert(tail[j - head.len()] == from);
            }
        }
    }
}

} // verus!

verus! {

/// Every character of a number's decimal digits is an ASCII digit.
pub proof fn lemma_decimal_digits(n: nat)
    ensures
        decimal(n).len() > 0,
        forall|i: int| 0 <= i < decimal(n).len() ==> '0' <= #[trigger] decimal(n)[i] && decimal(n)[i] <= '9',
    decreases n,
{
    if n >= 10 {
        lemma_decimal_digits(n / 10);
        let d = decimal(n);
        assert forall|i: int| 0 <= i < d.len() implies '0' <= #[trigger] d[i] && d[i] <= '9' by {
            if i < d.len() - 1 {
                assert(d[i] == decimal(n / 10)[i]);
            }
        }
    }
}

/// No line of a text holds a newline.
pub proof fn lemma_lines_have_no_newline(s: Seq<char>)
    ensures
        forall|i: int| 0 <= i < text_lines(s).len() ==> !(#[trigger] text_lines(s)[i]).contains('\n'),
{
    lemma_newline_pieces_clean(s);
    lemma_newline_pieces_len(s);
    let pieces = newline_pieces(s);
    assert forall|i: int| 0 <= i < text_lines(s).len() implies !(#[trigger] text_lines(s)[i]).contains('\n') by {
        let line = text_lines(s)[i];
        if i < pieces.len() - 1 {
            let p = pieces[i];
            assert(line == without_cr(p));
            if line.contains('\n') {
                let j = choose|j: int| 0 <= j < line.len() && line[j] == '\n';
                assert(p[j] == '\n');
            }
        } else {
            assert(line == pieces.last());
        }
    }
}

proof fn lemma_newline_pieces_clean(s: Seq<char>)
    ensures
        forall|i: int| 0 <= i < newline_pieces(s).len() ==> !(#[trigger] newline_pieces(s)[i]).contains('\n'),
    decreases s.len(),
{
    if s.len() > 0 {
        lemma_newline_pieces_clean(s.drop_last());
        lemma_newline_pieces_len(s.drop_last());
        let rest = newline_pieces(s.drop_last());
        let p = newline_pieces(s);
        if s.last() != '\n' {
            let last = rest.last().push(s.last());
            assert forall|i: int| 0 <= i < p.len() implies !(#[trigger] p[i]).contains('\n') by {
                if i == p.len() - 1 {
                    assert(p[i] == last);
                    if last.contains('\n') {
                        let j = choose|j: int| 0 <= j < last.len() && last[j] == '\n';
                        if j < rest.last().len() {
                            assert(rest.last()[j] == '\n');
                            assert(rest[rest.len() - 1] == rest.last());
                        }
                    }
                } else {
                    assert(p[i] == rest[i]);
                }
            }
        } else {
            assert forall|i: int| 0 <= i < p.len() implies !(#[trigger] p[i]).contains('\n') by {
                if i < rest.len() {
                    assert(p[i] == rest[i]);
                } else {
                    assert(p[i] =~= Seq::<char>::empty());
                }
            }
        }
    }
}

} // verus!

verus! {

/// The pieces of `s` between newlines, as `str::split('\n')` gives them.
pub fn split_newline_pieces(s: &str) -> (res: Vec<String>)
    ensures
        string_views(res@) == newline_pieces(s@),
{
    let chars = chars_of(s);
    let mut done: Vec<String> = Vec::new();
    let mut current: Vec<char> = Vec::new();
    let mut i: usize = 0;
    while i < chars.len()
        invariant
            i <= chars.len(),
            chars@ == s@,
            newline_pieces(chars@.take(i as int)).len() >= 1,
            string_views(done@) == newline_pieces(chars@.take(i as int)).drop_last(),
            current@ == newline_pieces(chars@.take(i as int)).last(),
        decreases chars.len() - i,
    {
        let ghost prefix = chars@.take(i as int);
        let ghost next = chars@.take(i + 1);
        assert(next.drop_last() =~= prefix);
        proof {
            lemma_newline_pieces_len(prefix);
            lemma_newline_pieces_len(next);
        }
        if chars[i] == '\n' {
            let ghost before = done@;
            done.push(string_from_chars(current.as_slice()));
            assert(string_views(done@) =~= string_views(before).push(current@));
            assert(newline_pieces(next).drop_last() =~= newline_pieces(prefix));
            current = Vec::new();
            assert(current@ =~= newline_pieces(next).last());
        } else {
            current.push(chars[i]);
            assert(newline_pieces(next).drop_last() =~= newline_pieces(prefix).drop_last());
        }
        i = i + 1;
    }
    assert(chars@.take(i as int) =~= s@);
    proof {
        lemma_newline_pieces_len(s@);
    }
    let ghost before = done@;
    done.push(string_from_chars(current.as_slice()));
    assert(string_views(done@) =~= string_views(before).push(current@));
    assert(newline_pieces(s@).drop_last().push(newline_pieces(s@).last()) =~= newline_pieces(s@));
    done
}

} // verus!
