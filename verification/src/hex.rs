//! Hexadecimal text: byte strings and the textual forms of 128-bit UUIDs.

use vstd::prelude::*;

use crate::text::{ascii_lower, ascii_lower_char, chars_of};

verus! {

/// The lower-case character of a hexadecimal digit below sixteen.
pub open spec fn hex_char(digit: nat) -> char {
    if digit < 10 {
        (48 + digit) as char
    } else {
        (87 + digit) as char
    }
}

/// The digit that a hexadecimal character of either case stands for.
pub open spec fn hex_digit(c: char) -> Option<nat> {
    if '0' <= c && c <= '9' {
        Some((c as nat - 48) as nat)
    } else if 'a' <= c && c <= 'f' {
        Some((c as nat - 87) as nat)
    } else if 'A' <= c && c <= 'F' {
        Some((c as nat - 55) as nat)
    } else {
        None
    }
}

/// Whether `s` holds hexadecimal digits alone.
pub open spec fn is_hex(s: Seq<char>) -> bool {
    forall|i: int| 0 <= i < s.len() ==> hex_digit(#[trigger] s[i]) is Some
}

/// Two lower-case digits for each byte, high digit first.
pub open spec fn hex_of(bytes: Seq<u8>) -> Seq<char> {
    Seq::new(
        2 * bytes.len(),
        |i: int|
            hex_char(
                if i % 2 == 0 {
                    bytes[i / 2] as nat / 16
                } else {
                    bytes[i / 2] as nat % 16
                },
            ),
    )
}

/// The byte written by the digit pair at `2 * i`.
pub open spec fn hex_byte(s: Seq<char>, i: int) -> u8 {
    (hex_digit(s[2 * i])->0 * 16 + hex_digit(s[2 * i + 1])->0) as u8
}

/// The bytes that `s` writes out, two digits each; `None` for an odd length
/// or a character that is no hexadecimal digit.
pub open spec fn hex_bytes(s: Seq<char>) -> Option<Seq<u8>> {
    if s.len() % 2 == 0 && is_hex(s) {
        Some(Seq::new((s.len() / 2) as nat, |i: int| hex_byte(s, i)))
    } else {
        None
    }
}

/// The lower-case character of a hexadecimal digit.
pub fn digit_char(digit: u8) -> (r: char)
    requires
        digit < 16,
    ensures
        r == hex_char(digit as nat),
{
    if digit < 10 {
        (48u8 + digit) as char
    } else {
        (87u8 + digit) as char
    }
}

/// The digit that a hexadecimal character of either case stands for.
pub fn nibble(c: char) -> (r: Option<u8>)
    ensures
        r matches Some(d) ==> d < 16 && hex_digit(c) == Some(d as nat),
        r is None ==> hex_digit(c) is None,
{
    if c >= '0' && c <= '9' {
        Some(c as u8 - 48u8)
    } else if c >= 'a' && c <= 'f' {
        Some(c as u8 - 87u8)
    } else if c >= 'A' && c <= 'F' {
        Some(c as u8 - 55u8)
    } else {
        None
    }
}

/// Writes bytes as lower-case hexadecimal text.
pub fn encode_hex(bytes: &[u8]) -> (r: String)
    ensures
        r@ == hex_of(bytes@),
{
    let mut out = String::new();
    let mut i: usize = 0;
    while i < bytes.len()
        invariant
            i <= bytes@.len(),
            out@ == hex_of(bytes@).take(2 * i),
        decreases bytes@.len() - i,
    {
        let b = bytes[i];
        out.push(digit_char(b / 16));
        out.push(digit_char(b % 16));
        i += 1;
        proof {
            let full = hex_of(bytes@);
            assert(full[2 * i - 2] == hex_char(b as nat / 16));
            assert(full[2 * i - 1] == hex_char(b as nat % 16));
            assert(out@ =~= full.take(2 * i));
        }
    }
    assert(hex_of(bytes@).take(2 * bytes@.len() as int) =~= hex_of(bytes@));
    out
}

/// Reads hexadecimal text of either case.
pub fn decode_hex(text: &str) -> (r: Option<Vec<u8>>)
    ensures
        r matches Some(bytes) ==> hex_bytes(text@) == Some(bytes@),
        r is None ==> hex_bytes(text@) is None,
{
    let chars = chars_of(text);
    if chars.len() % 2 != 0 {
        return None;
    }
    let mut out: Vec<u8> = Vec::new();
    let mut i: usize = 0;
    while i < chars.len()
        invariant
            chars@ == text@,
            chars@.len() % 2 == 0,
            i % 2 == 0,
            i <= chars@.len(),
            out@.len() == i / 2,
            forall|j: int| 0 <= j < i ==> hex_digit(#[trigger] text@[j]) is Some,
            forall|j: int| 0 <= j < i / 2 ==> #[trigger] out@[j] == hex_byte(text@, j),
        decreases chars@.len() - i,
    {
        let high = nibble(chars[i]);
        let low = nibble(chars[i + 1]);
        match (high, low) {
            (Some(h), Some(l)) => {
                out.push(h * 16 + l);
                assert(out@[i as int / 2] == hex_byte(text@, i as int / 2)) by {
                    assert(2 * (i as int / 2) == i);
                }
            },
            _ => {
                assert(hex_digit(text@[i as int]) is None || hex_digit(text@[i + 1]) is None);
                return None;
            },
        }
        i += 2;
    }
    assert(hex_bytes(text@)->0 =~= out@);
    Some(out)
}

/// Every written digit is a hexadecimal digit, reads back as itself, and is
/// untouched by folding the case.
pub proof fn lemma_hex_char(digit: nat)
    requires
        digit < 16,
    ensures
        hex_digit(hex_char(digit)) == Some(digit),
        ascii_lower_char(hex_char(digit)) == hex_char(digit),
{
}

/// Reading hexadecimal text gives back the bytes that were written.
pub proof fn law_hex_reads_back(bytes: Seq<u8>)
    ensures
        hex_bytes(hex_of(bytes)) == Some(bytes),
{
    let s = hex_of(bytes);
    assert forall|i: int| 0 <= i < s.len() implies hex_digit(#[trigger] s[i]) is Some by {
        let b = bytes[i / 2] as nat;
        lemma_hex_char(b / 16);
        lemma_hex_char(b % 16);
    }
    assert forall|i: int| 0 <= i < bytes.len() implies hex_byte(s, i) == #[trigger] bytes[i] by {
        let b = bytes[i] as nat;
        lemma_hex_char(b / 16);
        lemma_hex_char(b % 16);
        assert(s[2 * i] == hex_char(b / 16));
        assert(s[2 * i + 1] == hex_char(b % 16));
    }
    assert(hex_bytes(s)->0 =~= bytes);
}

/// Writing the bytes that hexadecimal text stands for gives back the text in
/// lower case.
pub proof fn law_hex_normalizes_case(s: Seq<char>)
    requires
        hex_bytes(s) is Some,
    ensures
        hex_of(hex_bytes(s)->0) == ascii_lower(s),
{
    let bytes = hex_bytes(s)->0;
    let written = hex_of(bytes);
    assert forall|i: int| 0 <= i < s.len() implies written[i] == ascii_lower(s)[i] by {
        let k = i / 2;
        assert(hex_digit(s[2 * k]) is Some && hex_digit(s[2 * k + 1]) is Some);
        assert(bytes[k] == hex_byte(s, k));
        assert(s[i] == s[2 * k] || s[i] == s[2 * k + 1]);
    }
    assert(written =~= ascii_lower(s));
}

// ---------------------------------------------------------------------------
// UUID text
// ---------------------------------------------------------------------------

/// The `width` lowest hexadecimal digits of `value`, in lower case.
pub open spec fn hex_text(value: nat, width: nat) -> Seq<char>
    decreases width,
{
    if width == 0 {
        Seq::empty()
    } else {
        hex_text(value / 16, (width - 1) as nat).push(hex_char(value % 16))
    }
}

/// The number that a run of hexadecimal digits stands for.
pub open spec fn hex_number(s: Seq<char>) -> nat
    decreases s.len(),
{
    if s.len() == 0 {
        0
    } else {
        hex_number(s.drop_last()) * 16 + hex_digit(s.last())->0
    }
}

/// The hyphenated form of a UUID: 32 lower-case digits in groups of 8, 4, 4,
/// 4 and 12.
pub open spec fn uuid_hyphenated(value: u128) -> Seq<char> {
    let d = hex_text(value as nat, 32);
    d.subrange(0, 8) + seq!['-'] + d.subrange(8, 12) + seq!['-'] + d.subrange(12, 16) + seq!['-']
        + d.subrange(16, 20) + seq!['-'] + d.subrange(20, 32)
}

/// The digits of a hyphenated form, without the four hyphens.
pub open spec fn uuid_ungrouped(s: Seq<char>) -> Option<Seq<char>> {
    if s.len() == 36 && s[8] == '-' && s[13] == '-' && s[18] == '-' && s[23] == '-' {
        Some(
            s.subrange(0, 8) + s.subrange(9, 13) + s.subrange(14, 18) + s.subrange(19, 23)
                + s.subrange(24, 36),
        )
    } else {
        None
    }
}

/// The digits of a UUID in one of its textual forms: 32 digits in a row,
/// hyphenated, hyphenated in braces, or hyphenated behind `urn:uuid:`.
pub open spec fn uuid_digits(s: Seq<char>) -> Option<Seq<char>> {
    if s.len() == 32 {
        Some(s)
    } else if s.len() == 38 && s[0] == '{' && s[37] == '}' {
        uuid_ungrouped(s.subrange(1, 37))
    } else if s.len() == 45 && ascii_lower(s.take(9)) == "urn:uuid:"@ {
        uuid_ungrouped(s.skip(9))
    } else {
        uuid_ungrouped(s)
    }
}

/// The UUID that a text stands for, if it is one.
pub open spec fn uuid_value(s: Seq<char>) -> Option<u128> {
    match uuid_digits(s) {
        Some(d) => if is_hex(d) {
            Some(hex_number(d) as u128)
        } else {
            None
        },
        None => None,
    }
}

/// `uuid::Uuid::parse_str`, which `str::parse` calls: accepts the simple, the
/// hyphenated, the braced and the URN form, digits in either case, and
/// nothing else. The UUID is handed on as its big-endian number.
#[verifier::external_body]
pub(crate) fn parse_uuid(text: &str) -> (r: Option<u128>)
    ensures
        r == uuid_value(text@),
{
    uuid::Uuid::parse_str(text).ok().map(|id| id.as_u128())
}

/// `uuid::Uuid::hyphenated`, displayed: the lower-case hyphenated form.
#[verifier::external_body]
pub(crate) fn uuid_text(value: u128) -> (r: String)
    ensures
        r@ == uuid_hyphenated(value),
{
    uuid::Uuid::from_u128(value).hyphenated().to_string()
}

/// `uuid::Uuid::now_v7`: a fresh version 7 UUID. It depends on the time and
/// on chance, so only the version and variant bits, which every outcome
/// carries, are claimed.
#[verifier::external_body]
pub(crate) fn fresh_uuid() -> (r: u128)
    ensures
        is_version_7(r),
{
    uuid::Uuid::now_v7().as_u128()
}

/// Whether the version digit is 7 and the two variant bits are `10`.
pub open spec fn is_version_7(value: u128) -> bool {
    &&& (value >> 76) & 0xf == 7
    &&& (value >> 62) & 0x3 == 2
}

spec fn power_of_16(n: nat) -> nat
    decreases n,
{
    if n == 0 {
        1
    } else {
        16 * power_of_16((n - 1) as nat)
    }
}

proof fn lemma_hex_text(value: nat, width: nat)
    requires
        value < power_of_16(width),
    ensures
        hex_text(value, width).len() == width,
        is_hex(hex_text(value, width)),
        hex_number(hex_text(value, width)) == value,
    decreases width,
{
    let s = hex_text(value, width);
    if width > 0 {
        let head = hex_text(value / 16, (width - 1) as nat);
        lemma_hex_text(value / 16, (width - 1) as nat);
        lemma_hex_char(value % 16);
        assert(s.drop_last() =~= head);
        assert(s.last() == hex_char(value % 16));
        assert forall|i: int| 0 <= i < s.len() implies hex_digit(#[trigger] s[i]) is Some by {
            if i < head.len() {
                assert(s[i] == head[i]);
            }
        }
    }
}

/// Parsing the hyphenated form gives back the UUID that was written.
pub proof fn law_uuid_reads_back(value: u128)
    ensures
        uuid_value(uuid_hyphenated(value)) == Some(value),
{
    reveal_with_fuel(power_of_16, 33);
    let d = hex_text(value as nat, 32);
    lemma_hex_text(value as nat, 32);
    let s = uuid_hyphenated(value);
    assert(uuid_ungrouped(s)->0 =~= d);
}

/// Each byte is written by two digits, the high one first, each a decimal
/// digit or a small letter from `a` to `f`.
pub proof fn law_hex_writes_high_digit_first(bytes: Seq<u8>, i: int)
    requires
        0 <= i < bytes.len(),
    ensures
        hex_of(bytes).len() == 2 * bytes.len(),
        ({
            let high = hex_of(bytes)[2 * i] as u32;
            let low = hex_of(bytes)[2 * i + 1] as u32;
            let h = bytes[i] as nat / 16;
            let l = bytes[i] as nat % 16;
            &&& high == if h < 10 {
                0x30 + h
            } else {
                0x57 + h
            }
            &&& low == if l < 10 {
                0x30 + l
            } else {
                0x57 + l
            }
        }),
{
    assert((2 * i) % 2 == 0 && (2 * i) / 2 == i);
    assert((2 * i + 1) % 2 == 1 && (2 * i + 1) / 2 == i);
    lemma_hex_char(bytes[i] as nat / 16);
    lemma_hex_char(bytes[i] as nat % 16);
    assert(hex_of(bytes)[2 * i] == hex_char(bytes[i] as nat / 16));
    assert(hex_of(bytes)[2 * i + 1] == hex_char(bytes[i] as nat % 16));
}

/// Hexadecimal text is read two digits to a byte, in either case; text of odd
/// length, or with any other character, is not read.
pub proof fn law_hex_text_is_read_in_pairs(s: Seq<char>)
    ensures
        hex_bytes(s) is Some <==> s.len() % 2 == 0 && forall|i: int|
            0 <= i < s.len() ==> ('0' <= #[trigger] s[i] <= '9') || ('a' <= s[i] <= 'f') || ('A'
                <= s[i] <= 'F'),
        hex_bytes(s) matches Some(bytes) ==> {
            &&& 2 * bytes.len() == s.len()
            &&& hex_of(bytes) == ascii_lower(s)
        },
{
    if hex_bytes(s) is Some {
        law_hex_normalizes_case(s);
        assert forall|i: int| 0 <= i < s.len() implies ('0' <= #[trigger] s[i] <= '9') || ('a'
            <= s[i] <= 'f') || ('A' <= s[i] <= 'F') by {
            assert(hex_digit(s[i]) is Some);
        }
    }
}

}
