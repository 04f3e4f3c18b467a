//! Text as sequences of characters: the small vocabulary of prefixes, lines,
//! blanks and decimal numbers that the other modules speak in.

use vstd::prelude::*;
use vstd::utf8::*;

verus! {

/// Specifies `String::push`: the character is appended to the text.
pub assume_specification[ String::push ](text: &mut String, c: char)
    ensures
        final(text)@ == old(text)@.push(c),
;

/// The characters of `text`, in order.
pub fn chars_of(text: &str) -> (chars: Vec<char>)
    ensures
        chars@ == text@,
{
    let mut chars: Vec<char> = Vec::new();
    for c in cursor: text.chars()
        invariant
            cursor.seq() == text@,
            chars@ == cursor.seq().take(cursor.index()),
    {
        chars.push(c);
    }
    assert(text@.take(text@.len() as int) == text@);
    chars
}

/// The text made of the characters `chars[from]` to `chars[to - 1]`.
pub fn text_of(chars: &[char], from: usize, to: usize) -> (text: String)
    requires
        from <= to <= chars@.len(),
    ensures
        text@ == chars@.subrange(from as int, to as int),
{
    let mut text = String::new();
    let mut i: usize = from;
    while i < to
        invariant
            from <= i <= to <= chars@.len(),
            text@ == chars@.subrange(from as int, i as int),
        decreases to - i,
    {
        text.push(chars[i]);
        i += 1;
        assert(chars@.subrange(from as int, i as int) == chars@.subrange(
            from as int,
            i - 1,
        ).push(chars@[i - 1]));
    }
    text
}

/// The concatenation of two texts.
pub fn join(first: &str, second: &str) -> (text: String)
    ensures
        text@ == first@ + second@,
{
    let mut text = first.to_owned();
    text.append(second);
    text
}

/// The concatenation of three texts.
pub fn join3(first: &str, second: &str, third: &str) -> (text: String)
    ensures
        text@ == first@ + second@ + third@,
{
    let mut text = join(first, second);
    text.append(third);
    text
}

/// Whether the two texts are the same.
pub fn same_text(a: &str, b: &str) -> (same: bool)
    ensures
        same == (a@ == b@),
{
    let x: &[u8] = a.as_bytes();
    let y: &[u8] = b.as_bytes();
    proof {
        encode_utf8_decode_utf8(a@);
        encode_utf8_decode_utf8(b@);
    }
    if x.len() != y.len() {
        return false;
    }
    let mut i: usize = 0;
    while i < x.len()
        invariant
            i <= x@.len() == y@.len(),
            x@ == encode_utf8(a@),
            y@ == encode_utf8(b@),
            forall|k: int| 0 <= k < i ==> x@[k] == y@[k],
        decreases x@.len() - i,
    {
        if x[i] != y[i] {
            return false;
        }
        i += 1;
    }
    assert(x@ =~= y@);
    true
}

/// Whether `chars` begins with `prefix`.
pub fn starts_with(chars: &[char], prefix: &str) -> (yes: bool)
    ensures
        yes == prefix@.is_prefix_of(chars@),
{
    let head: Vec<char> = chars_of(prefix);
    if head.len() > chars.len() {
        return false;
    }
    let mut i: usize = 0;
    while i < head.len()
        invariant
            head@ == prefix@,
            i <= head@.len() <= chars@.len(),
            forall|k: int| 0 <= k < i ==> head@[k] == chars@[k],
        decreases head@.len() - i,
    {
        if head[i] != chars[i] {
            assert(chars@.subrange(0, head@.len() as int)[i as int] == chars@[i as int]);
            return false;
        }
        i += 1;
    }
    true
}

/// Whether `chars` ends with `suffix`.
pub fn ends_with(chars: &[char], suffix: &str) -> (yes: bool)
    ensures
        yes == suffix@.is_suffix_of(chars@),
{
    let tail: Vec<char> = chars_of(suffix);
    if tail.len() > chars.len() {
        return false;
    }
    let offset: usize = chars.len() - tail.len();
    let mut i: usize = 0;
    while i < tail.len()
        invariant
            tail@ == suffix@,
            offset + tail@.len() == chars.len(),
            i <= tail@.len(),
            forall|k: int| 0 <= k < i ==> tail@[k] == chars@[offset + k],
        decreases tail@.len() - i,
    {
        if tail[i] != chars[offset + i] {
            assert(chars@.subrange(offset as int, chars@.len() as int)[i as int] == chars@[offset
                + i]);
            return false;
        }
        i += 1;
    }
    true
}

/// Whether `c` has the Unicode property `White_Space`.
pub open spec fn is_blank(c: char) -> bool {
    ||| '\u{9}' <= c <= '\u{d}'
    ||| c == '\u{20}'
    ||| c == '\u{85}'
    ||| c == '\u{a0}'
    ||| c == '\u{1680}'
    ||| '\u{2000}' <= c <= '\u{200a}'
    ||| c == '\u{2028}'
    ||| c == '\u{2029}'
    ||| c == '\u{202f}'
    ||| c == '\u{205f}'
    ||| c == '\u{3000}'
}

/// Whether `c` is white space.
pub fn blank(c: char) -> (yes: bool)
    ensures
        yes == is_blank(c),
{
    ('\u{9}' <= c && c <= '\u{d}') || c == '\u{20}' || c == '\u{85}' || c == '\u{a0}' || c
        == '\u{1680}' || ('\u{2000}' <= c && c <= '\u{200a}') || c == '\u{2028}' || c == '\u{2029}'
        || c == '\u{202f}' || c == '\u{205f}' || c == '\u{3000}'
}

/// `text` without its leading white space.
pub open spec fn trim_start(text: Seq<char>) -> Seq<char>
    decreases text.len(),
{
    if text.len() > 0 && is_blank(text[0]) {
        trim_start(text.skip(1))
    } else {
        text
    }
}

/// `text` without its trailing white space.
pub open spec fn trim_end(text: Seq<char>) -> Seq<char>
    decreases text.len(),
{
    if text.len() > 0 && is_blank(text.last()) {
        trim_end(text.drop_last())
    } else {
        text
    }
}

/// `text` without white space at either end.
pub open spec fn trim(text: Seq<char>) -> Seq<char> {
    trim_end(trim_start(text))
}

/// The positions between which `chars` has no white space at either end.
pub fn trimmed(chars: &[char], from: usize) -> (range: (usize, usize))
    requires
        from <= chars@.len(),
    ensures
        from <= range.0 <= range.1 <= chars@.len(),
        chars@.subrange(range.0 as int, range.1 as int) == trim(chars@.skip(from as int)),
{
    let mut start: usize = from;
    while start < chars.len() && blank(chars[start])
        invariant
            from <= start <= chars@.len(),
            trim_start(chars@.skip(from as int)) == trim_start(chars@.skip(start as int)),
        decreases chars@.len() - start,
    {
        assert(chars@.skip(start as int).skip(1) == chars@.skip(start + 1));
        start += 1;
    }
    let ghost body = chars@.skip(start as int);
    let mut end: usize = chars.len();
    assert(chars@.subrange(start as int, end as int) == body);
    while start < end && blank(chars[end - 1])
        invariant
            start <= end <= chars@.len(),
            trim_end(body) == trim_end(chars@.subrange(start as int, end as int)),
        decreases end,
    {
        assert(chars@.subrange(start as int, end as int).drop_last() == chars@.subrange(
            start as int,
            end - 1,
        ));
        end -= 1;
    }
    (start, end)
}

/// The decimal digit `d`, for `d` below ten.
pub open spec fn digit_char(d: nat) -> char {
    (48 + d) as char
}

/// `n` in decimal, without leading zeros.
pub open spec fn decimal(n: nat) -> Seq<char>
    decreases n,
{
    if n < 10 {
        seq![digit_char(n)]
    } else {
        decimal(n / 10).push(digit_char(n % 10))
    }
}

/// `n` written in decimal.
pub fn decimal_text(n: u64) -> (text: String)
    ensures
        text@ == decimal(n as nat),
    decreases n,
{
    let digit: u8 = (n % 10) as u8;
    let c: char = (48 + digit) as char;
    if n < 10 {
        let mut text = String::new();
        text.push(c);
        text
    } else {
        let mut text = decimal_text(n / 10);
        text.push(c);
        text
    }
}

/// Whether `c` is one of the digits `0` to `9`.
pub open spec fn is_digit(c: char) -> bool {
    '0' <= c <= '9'
}

/// The number that `digits` denotes in decimal, if they are all digits.
pub open spec fn digits_value(digits: Seq<char>) -> Option<nat>
    decreases digits.len(),
{
    if digits.len() == 0 {
        Some(0)
    } else {
        match digits_value(digits.drop_last()) {
            Some(value) => if is_digit(digits.last()) {
                Some(value * 10 + (digits.last() as nat - 48) as nat)
            } else {
                None
            },
            None => None,
        }
    }
}

/// The 16-bit number that `text` denotes: an optional plus sign, then at least
/// one digit, with a value that fits.
pub open spec fn parse_u16(text: Seq<char>) -> Option<u16> {
    let digits = if text.len() > 0 && text[0] == '+' {
        text.skip(1)
    } else {
        text
    };
    match digits_value(digits) {
        Some(value) => if digits.len() > 0 && value <= 65535 {
            Some(value as u16)
        } else {
            None
        },
        None => None,
    }
}

/// A longer row of digits denotes no smaller number.
proof fn lemma_digits_grow(digits: Seq<char>, k: int)
    requires
        0 <= k <= digits.len(),
    ensures
        digits_value(digits) is Some ==> digits_value(digits.take(k)) is Some
            && digits_value(digits.take(k))->0 <= digits_value(digits)->0,
    decreases digits.len(),
{
    if k == digits.len() {
        assert(digits.take(k) == digits);
    } else {
        lemma_digits_grow(digits.drop_last(), k);
        assert(digits.drop_last().take(k) == digits.take(k));
    }
}

/// Reads `chars[from]` to `chars[to - 1]` as a 16-bit number.
pub fn read_u16(chars: &[char], from: usize, to: usize) -> (number: Option<u16>)
    requires
        from <= to <= chars@.len(),
    ensures
        number == parse_u16(chars@.subrange(from as int, to as int)),
{
    let ghost text = chars@.subrange(from as int, to as int);
    let start: usize = if from < to && chars[from] == '+' {
        from + 1
    } else {
        from
    };
    let ghost digits = chars@.subrange(start as int, to as int);
    assert(digits == if text.len() > 0 && text[0] == '+' {
        text.skip(1)
    } else {
        text
    });
    if start == to {
        return None;
    }
    let mut value: u32 = 0;
    let mut i: usize = start;
    while i < to
        invariant
            start <= i <= to <= chars@.len(),
            value <= 65535,
            text == chars@.subrange(from as int, to as int),
            digits == chars@.subrange(start as int, to as int),
            digits_value(digits.take(i - start)) == Some(value as nat),
            parse_u16(text) == match digits_value(digits) {
                Some(v) => if digits.len() > 0 && v <= 65535 {
                    Some(v as u16)
                } else {
                    None
                },
                None => None,
            },
        decreases to - i,
    {
        let c: char = chars[i];
        let ghost shown = digits.take(i - start + 1);
        proof {
            lemma_digits_grow(digits, i - start + 1);
            assert(shown.drop_last() == digits.take(i - start));
            assert(shown.last() == c);
        }
        if c < '0' || '9' < c {
            return None;
        }
        value = value * 10 + (c as u32 - 48);
        if value > 65535 {
            return None;
        }
        i += 1;
    }
    assert(digits.take(to - start) == digits);
    Some(value as u16)
}

/// The hexadecimal digit `d` in lower case, for `d` below sixteen.
pub open spec fn hex_char(d: nat) -> char {
    if d < 10 {
        (48 + d) as char
    } else {
        (87 + d) as char
    }
}

/// Two lower-case hexadecimal digits for each byte, the high one first.
pub open spec fn lower_hex(bytes: Seq<u8>) -> Seq<char> {
    Seq::new(
        2 * bytes.len(),
        |i: int| hex_char((if i % 2 == 0 {
            bytes[i / 2] / 16
        } else {
            bytes[i / 2] % 16
        }) as nat),
    )
}

fn hex_digit(d: u8) -> (c: char)
    requires
        d < 16,
    ensures
        c == hex_char(d as nat),
{
    if d < 10 {
        (48 + d) as char
    } else {
        (87 + d) as char
    }
}

/// `bytes` in lower-case hexadecimal.
pub fn hex_text(bytes: &[u8]) -> (text: String)
    ensures
        text@ == lower_hex(bytes@),
{
    let mut text = String::new();
    let mut i: usize = 0;
    while i < bytes.len()
        invariant
            i <= bytes@.len(),
            text@ == lower_hex(bytes@.take(i as int)),
        decreases bytes@.len() - i,
    {
        let byte: u8 = bytes[i];
        text.push(hex_digit(byte / 16));
        text.push(hex_digit(byte % 16));
        i += 1;
        assert(text@ =~= lower_hex(bytes@.take(i as int)));
    }
    assert(bytes@.take(i as int) == bytes@);
    text
}

/// `c` with the letters `A` to `Z` made small.
pub open spec fn ascii_lower(c: char) -> char {
    if 'A' <= c <= 'Z' {
        (c as u32 + 32) as char
    } else {
        c
    }
}

/// Whether two texts are the same but for the case of ASCII letters.
pub open spec fn same_ignoring_case(a: Seq<char>, b: Seq<char>) -> bool {
    &&& a.len() == b.len()
    &&& forall|i: int| 0 <= i < a.len() ==> ascii_lower(#[trigger] a[i]) == ascii_lower(b[i])
}

fn lowered(c: char) -> (lower: char)
    ensures
        lower == ascii_lower(c),
{
    if 'A' <= c && c <= 'Z' {
        (c as u8 + 32) as char
    } else {
        c
    }
}

/// Whether two texts are the same but for the case of ASCII letters.
pub fn equal_ignoring_case(a: &str, b: &str) -> (same: bool)
    ensures
        same == same_ignoring_case(a@, b@),
{
    let x: Vec<char> = chars_of(a);
    let y: Vec<char> = chars_of(b);
    if x.len() != y.len() {
        return false;
    }
    let mut i: usize = 0;
    while i < x.len()
        invariant
            x@ == a@,
            y@ == b@,
            i <= x@.len() == y@.len(),
            forall|k: int| 0 <= k < i ==> ascii_lower(#[trigger] x@[k]) == ascii_lower(y@[k]),
        decreases x@.len() - i,
    {
        if lowered(x[i]) != lowered(y[i]) {
            assert(ascii_lower(a@[i as int]) != ascii_lower(b@[i as int]));
            return false;
        }
        i += 1;
    }
    true
}

/// What is cut off at the ends of a text is white space, and all of it: what remains is a
/// part of the text that neither begins nor ends with white space.
pub proof fn trimming_cuts_white_space_off(text: Seq<char>) -> (range: (int, int))
    ensures
        0 <= range.0 <= range.1 <= text.len(),
        trim(text) == text.subrange(range.0, range.1),
        forall|i: int| 0 <= i < range.0 ==> is_blank(#[trigger] text[i]),
        forall|i: int| range.1 <= i < text.len() ==> is_blank(#[trigger] text[i]),
        trim(text).len() > 0 ==> !is_blank(trim(text)[0]) && !is_blank(trim(text).last()),
{
    let from = lemma_trim_start(text);
    let rest = text.skip(from);
    let to = lemma_trim_end(rest);
    assert(trim(text) =~= text.subrange(from, from + to));
    assert forall|i: int| from + to <= i < text.len() implies is_blank(#[trigger] text[i]) by {
        assert(is_blank(rest[i - from]));
    }
    if to > 0 {
        assert(rest[0] == text[from]);
    }
    (from, from + to)
}

proof fn lemma_trim_start(text: Seq<char>) -> (from: int)
    ensures
        0 <= from <= text.len(),
        trim_start(text) == text.skip(from),
        forall|i: int| 0 <= i < from ==> is_blank(#[trigger] text[i]),
        from < text.len() ==> !is_blank(text[from]),
    decreases text.len(),
{
    if text.len() > 0 && is_blank(text[0]) {
        let from = lemma_trim_start(text.skip(1));
        assert(text.skip(1).skip(from) =~= text.skip(from + 1));
        assert forall|i: int| 0 <= i < from + 1 implies is_blank(#[trigger] text[i]) by {
            if i > 0 {
                assert(is_blank(text.skip(1)[i - 1]));
            }
        }
        from + 1
    } else {
        assert(text.skip(0) =~= text);
        0
    }
}

proof fn lemma_trim_end(text: Seq<char>) -> (to: int)
    ensures
        0 <= to <= text.len(),
        trim_end(text) == text.take(to),
        forall|i: int| to <= i < text.len() ==> is_blank(#[trigger] text[i]),
        to > 0 ==> !is_blank(text[to - 1]),
    decreases text.len(),
{
    if text.len() > 0 && is_blank(text.last()) {
        let front = text.drop_last();
        let to = lemma_trim_end(front);
        assert(front.take(to) =~= text.take(to));
        assert forall|i: int| to <= i < text.len() implies is_blank(#[trigger] text[i]) by {
            if i < text.len() - 1 {
                assert(is_blank(front[i]));
            }
        }
        to
    } else {
        assert(text.take(text.len() as int) =~= text);
        text.len() as int
    }
}

/// Nothing remains of a text exactly if it is all white space.
pub proof fn only_white_space_is_trimmed_to_nothing(text: Seq<char>)
    ensures
        trim(text).len() > 0 <==> exists|i: int| 0 <= i < text.len() && !is_blank(#[trigger] text[i]),
{
    let (from, to) = trimming_cuts_white_space_off(text);
    if trim(text).len() > 0 {
        assert(text[from] == trim(text)[0]);
    }
}

/// A number can be read back from how it is written, which begins with no nought that it
/// could do without.
pub proof fn decimals_can_be_read_back(n: nat)
    ensures
        digits_value(decimal(n)) == Some(n),
        decimal(n).len() > 0,
        forall|i: int| 0 <= i < decimal(n).len() ==> '0' <= #[trigger] decimal(n)[i] <= '9',
        n > 0 ==> decimal(n)[0] != '0',
    decreases n,
{
    let digit = digit_char(n % 10);
    assert('0' <= digit <= '9');
    assert(digit as nat - 48 == n % 10);
    assert(decimal(n).last() == digit);
    if n < 10 {
        assert(decimal(n).drop_last() =~= Seq::empty());
        assert(digits_value(Seq::empty()) == Some(0nat));
    } else {
        decimals_can_be_read_back(n / 10);
        assert(decimal(n).drop_last() =~= decimal(n / 10));
        assert forall|i: int| 0 <= i < decimal(n).len() implies '0' <= #[trigger] decimal(n)[i]
            <= '9' by {
            if i < decimal(n).len() - 1 {
                assert(decimal(n)[i] == decimal(n / 10)[i]);
            }
        }
    }
}

/// Different numbers are written differently.
pub proof fn different_numbers_are_written_differently(a: nat, b: nat)
    requires
        a != b,
    ensures
        decimal(a) != decimal(b),
{
    decimals_can_be_read_back(a);
    decimals_can_be_read_back(b);
}

/// A number that fits into sixteen bits is read back, with or without a plus sign before
/// it, and a greater one is not.
pub proof fn small_numbers_are_read_back(n: nat)
    ensures
        n <= 65535 ==> parse_u16(decimal(n)) == Some(n as u16) && parse_u16(
            seq!['+'] + decimal(n),
        ) == Some(n as u16),
        n > 65535 ==> parse_u16(decimal(n)) is None && parse_u16(seq!['+'] + decimal(n)) is None,
{
    decimals_can_be_read_back(n);
    assert('0' <= decimal(n)[0]);
    assert((seq!['+'] + decimal(n)).skip(1) =~= decimal(n));
}

proof fn lemma_digits_only(digits: Seq<char>)
    requires
        digits_value(digits) is Some,
    ensures
        forall|i: int| 0 <= i < digits.len() ==> '0' <= #[trigger] digits[i] <= '9',
    decreases digits.len(),
{
    if digits.len() > 0 {
        lemma_digits_only(digits.drop_last());
        assert forall|i: int| 0 <= i < digits.len() implies '0' <= #[trigger] digits[i] <= '9' by {
            if i < digits.len() - 1 {
                assert(digits[i] == digits.drop_last()[i]);
            }
        }
    }
}

/// A number is read only from digits, before which a plus sign may stand.
pub proof fn numbers_are_read_from_digits(text: Seq<char>)
    requires
        parse_u16(text) is Some,
    ensures
        text.len() > 0,
        forall|i: int|
            0 <= i < text.len() ==> '0' <= #[trigger] text[i] <= '9' || (i == 0 && text[i] == '+'),
        '0' <= text.last() <= '9',
{
    if text[0] == '+' && text.len() > 0 {
        lemma_digits_only(text.skip(1));
        assert forall|i: int| 1 <= i < text.len() implies '0' <= #[trigger] text[i] <= '9' by {
            assert(text[i] == text.skip(1)[i - 1]);
        }
    } else {
        lemma_digits_only(text);
    }
}

/// The value of a hexadecimal digit, small or capital.
pub open spec fn hex_value(c: char) -> Option<nat> {
    if '0' <= c <= '9' {
        Some((c as nat - '0' as nat) as nat)
    } else if 'a' <= c <= 'f' {
        Some((10 + c as nat - 'a' as nat) as nat)
    } else if 'A' <= c <= 'F' {
        Some((10 + c as nat - 'A' as nat) as nat)
    } else {
        None
    }
}

/// Whether the two hexadecimal digits write `byte`, the higher first.
pub open spec fn write_byte(high: char, low: char, byte: u8) -> bool {
    &&& hex_value(high) is Some
    &&& hex_value(low) is Some
    &&& hex_value(high)->0 * 16 + hex_value(low)->0 == byte
}

/// Whether `text` writes `bytes` in hexadecimal, two digits for each byte, the higher
/// first, in small or capital letters.
pub open spec fn writes_in_hex(text: Seq<char>, bytes: Seq<u8>) -> bool {
    &&& text.len() == 2 * bytes.len()
    &&& forall|i: int|
        0 <= i < bytes.len() ==> write_byte(text[2 * i], text[2 * i + 1], #[trigger] bytes[i])
}

/// A text is the same as bytes in hexadecimal, but for the case of its letters, exactly
/// if the bytes can be read from it.
pub proof fn hexadecimals_can_be_read_back(bytes: Seq<u8>, text: Seq<char>)
    ensures
        same_ignoring_case(lower_hex(bytes), text) <==> writes_in_hex(text, bytes),
{
    let hex = lower_hex(bytes);
    if same_ignoring_case(hex, text) {
        assert forall|i: int| 0 <= i < bytes.len() implies write_byte(
            text[2 * i],
            text[2 * i + 1],
            #[trigger] bytes[i],
        ) by {
            let high = (bytes[i] / 16) as nat;
            let low = (bytes[i] % 16) as nat;
            assert(hex[2 * i] == hex_char(high));
            assert(hex[2 * i + 1] == hex_char(low));
            lemma_hex_digit(high, text[2 * i]);
            lemma_hex_digit(low, text[2 * i + 1]);
        }
        assert(writes_in_hex(text, bytes));
    }
    if writes_in_hex(text, bytes) {
        assert forall|j: int| 0 <= j < hex.len() implies ascii_lower(#[trigger] hex[j])
            == ascii_lower(text[j]) by {
            let i = j / 2;
            let high = (bytes[i] / 16) as nat;
            let low = (bytes[i] % 16) as nat;
            let h = hex_value(text[2 * i])->0;
            let l = hex_value(text[2 * i + 1])->0;
            assert(write_byte(text[2 * i], text[2 * i + 1], bytes[i]));
            assert(l < 16 && h < 16);
            assert(h == high && l == low) by (nonlinear_arith)
                requires
                    h * 16 + l == bytes[i],
                    l < 16,
                    high == bytes[i] / 16,
                    low == bytes[i] % 16,
            ;
            lemma_hex_digit(high, text[2 * i]);
            lemma_hex_digit(low, text[2 * i + 1]);
        }
        assert(same_ignoring_case(hex, text));
    }
}

proof fn lemma_hex_digit(d: nat, c: char)
    requires
        d < 16,
    ensures
        ascii_lower(hex_char(d)) == ascii_lower(c) <==> hex_value(c) == Some(d),
{
}

/// Two texts are the same but for case exactly if they are as long as each other and
/// differ only where one has a small letter and the other the same letter as a capital.
pub proof fn case_is_all_that_may_differ(a: Seq<char>, b: Seq<char>)
    ensures
        same_ignoring_case(a, b) <==> (a.len() == b.len() && forall|i: int|
            0 <= i < a.len() ==> {
                ||| #[trigger] a[i] == b[i]
                ||| 'a' <= a[i] <= 'z' && a[i] as int - b[i] as int == 'a' as int - 'A' as int
                ||| 'a' <= b[i] <= 'z' && b[i] as int - a[i] as int == 'a' as int - 'A' as int
            }),
{
    if same_ignoring_case(a, b) {
        assert forall|i: int| 0 <= i < a.len() implies {
            ||| #[trigger] a[i] == b[i]
            ||| 'a' <= a[i] <= 'z' && a[i] as int - b[i] as int == 'a' as int - 'A' as int
            ||| 'a' <= b[i] <= 'z' && b[i] as int - a[i] as int == 'a' as int - 'A' as int
        } by {
            assert(ascii_lower(a[i]) == ascii_lower(b[i]));
        }
    }
}

/// How the port of the server is written.
pub(crate) proof fn lemma_port_is_written(n: nat)
    requires
        n == 19132,
    ensures
        decimal(n) == "19132"@,
{
    reveal_strlit("19132");
    reveal_with_fuel(decimal, 6);
    assert(decimal(19132) =~= "19132"@);
}

/// Writing one more digit multiplies a number by ten and counts the digit in, and so does
/// reading one more.
pub proof fn digits_count_tenfold(n: nat, d: nat, digits: Seq<char>)
    requires
        d < 10,
    ensures
        n > 0 ==> decimal(10 * n + d) == decimal(n).push(('0' as nat + d) as char),
        decimal(d) == seq![('0' as nat + d) as char],
        digits_value(Seq::empty()) == Some(0nat),
        digits_value(digits) is Some ==> digits_value(digits.push(('0' as nat + d) as char))
            == Some((10 * digits_value(digits)->0 + d) as nat),
{
    if n > 0 {
        assert((10 * n + d) / 10 == n && (10 * n + d) % 10 == d);
    }
    let c = ('0' as nat + d) as char;
    assert(digits.push(c).drop_last() =~= digits);
    assert(is_digit(c));
}

/// Noughts before a number do not matter where it is read.
pub proof fn leading_noughts_do_not_matter(digits: Seq<char>)
    requires
        digits.len() > 0,
        digits[0] != '+',
    ensures
        parse_u16(seq!['0'] + digits) == parse_u16(digits),
{
    lemma_leading_nought(digits);
}

proof fn lemma_leading_nought(digits: Seq<char>)
    ensures
        digits_value(seq!['0'] + digits) == digits_value(digits),
    decreases digits.len(),
{
    let longer = seq!['0'] + digits;
    if digits.len() == 0 {
        assert(longer.drop_last() =~= Seq::empty());
        assert(digits_value(Seq::empty()) == Some(0nat));
    } else {
        lemma_leading_nought(digits.drop_last());
        assert(longer.drop_last() =~= seq!['0'] + digits.drop_last());
        assert(longer.last() == digits.last());
    }
}

} // verus!
