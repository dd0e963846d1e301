//! A `UUID4` universally unique identifier, version 4 (RFC 4122), held as its
//! canonical hyphenated text with a trailing NUL byte.

use vstd::prelude::*;
use vstd::string::StringSliceAdditionalSpecFns;
use vstd::utf8::*;

use crate::text::{push_char, push_str};

verus! {

/// The length of a `UUID4` value in bytes: 36 characters of text and a NUL.
pub const UUID4_LEN: usize = 37;

// ------------------------------------------------------------------------------------------
// The canonical text of sixteen bytes.
// ------------------------------------------------------------------------------------------

/// The lowercase hexadecimal digit (an ASCII byte) for a nibble `n` in 0..16.
pub open spec fn hex_digit(n: int) -> u8 {
    if n < 10 {
        (48 + n) as u8
    } else {
        (87 + n) as u8
    }
}

/// The positions of the four hyphens in the 8-4-4-4-12 layout.
pub open spec fn is_hyphen_position(i: int) -> bool {
    i == 8 || i == 13 || i == 18 || i == 23
}

/// Which of the 32 hex digits stands at text position `i` (not a hyphen).
pub open spec fn digit_index(i: int) -> int {
    if i < 8 {
        i
    } else if i < 13 {
        i - 1
    } else if i < 18 {
        i - 2
    } else if i < 23 {
        i - 3
    } else {
        i - 4
    }
}

/// Where the hex digit `j` (0..32) stands in the hyphenated text.
pub open spec fn text_position(j: int) -> int {
    if j < 8 {
        j
    } else if j < 12 {
        j + 1
    } else if j < 16 {
        j + 2
    } else if j < 20 {
        j + 3
    } else {
        j + 4
    }
}

/// Nibble `j` of the bytes `b`: the high half of byte `j / 2` for even `j`,
/// the low half for odd `j`.
pub open spec fn nibble(b: Seq<u8>, j: int) -> int {
    if j % 2 == 0 {
        (b[j / 2] / 16) as int
    } else {
        (b[j / 2] % 16) as int
    }
}

/// The 36-byte hyphenated lowercase text of sixteen bytes, as in
/// "2d89666b-1a1e-4a75-b193-4eb3b454c757".
pub open spec fn hyphenated(b: Seq<u8>) -> Seq<u8> {
    Seq::new(
        36,
        |i: int|
            if is_hyphen_position(i) {
                45u8
            } else {
                hex_digit(nibble(b, digit_index(i)))
            },
    )
}

/// The hyphenated text of sixteen bytes, as characters.
pub open spec fn hyphenated_chars(b: Seq<u8>) -> Seq<char> {
    hyphenated(b).map_values(|x: u8| x as char)
}

/// The version field (the high nibble of byte 6) says version 4, random.
pub open spec fn has_version4(b: Seq<u8>) -> bool {
    b[6] / 16 == 4
}

/// The variant field (the two high bits of byte 8) says RFC 4122.
pub open spec fn has_rfc4122_variant(b: Seq<u8>) -> bool {
    b[8] / 64 == 2
}

/// Sixteen random bytes with the version set to 4 and the variant to RFC 4122.
/// (Byte 6 keeps its low nibble under the version 4; byte 8 keeps its low six
/// bits under the variant bits 10.)
pub open spec fn stamp_version4(b: Seq<u8>) -> Seq<u8> {
    b.update(6, (b[6] % 16 + 64) as u8).update(8, (b[8] % 64 + 128) as u8)
}

// ------------------------------------------------------------------------------------------
// What the `uuid` crate accepts as text.
// ------------------------------------------------------------------------------------------

/// The value of a hexadecimal digit of either case, or -1 for any other character.
pub open spec fn hex_value(c: char) -> int {
    if '0' <= c && c <= '9' {
        c as int - 48
    } else if 'a' <= c && c <= 'f' {
        c as int - 87
    } else if 'A' <= c && c <= 'F' {
        c as int - 55
    } else {
        -1
    }
}

/// Thirty-two hexadecimal digits decoded into sixteen bytes, the first digit of
/// each pair being the high nibble.
pub open spec fn simple_form_bytes(h: Seq<char>) -> Option<Seq<u8>> {
    if h.len() == 32 && (forall|i: int| 0 <= i < 32 ==> #[trigger] hex_value(h[i]) >= 0) {
        Some(Seq::new(16, |k: int| (hex_value(h[2 * k]) * 16 + hex_value(h[2 * k + 1])) as u8))
    } else {
        None
    }
}

/// The bytes of the 8-4-4-4-12 hyphenated form, in which the hex digits may be
/// of either case.
pub open spec fn hyphenated_form_bytes(s: Seq<char>) -> Option<Seq<u8>> {
    if s.len() == 36 && s[8] == '-' && s[13] == '-' && s[18] == '-' && s[23] == '-' {
        simple_form_bytes(Seq::new(32, |j: int| s[text_position(j)]))
    } else {
        None
    }
}

/// ASCII lowercase of one character; other characters are kept.
pub open spec fn ascii_lowercase(c: char) -> char {
    if 'A' <= c && c <= 'Z' {
        (c as int + 32) as char
    } else {
        c
    }
}

/// The prefix of the URN form.
pub open spec fn urn_prefix() -> Seq<char> {
    seq!['u', 'r', 'n', ':', 'u', 'u', 'i', 'd', ':']
}

/// The bytes that `uuid::Uuid::try_parse` reads from a text, if it accepts it:
/// the simple form (32 hex digits), the hyphenated form, the hyphenated form in
/// braces, or the hyphenated form after "urn:uuid:" in any ASCII case.
pub open spec fn parsed_uuid_bytes(s: Seq<char>) -> Option<Seq<u8>> {
    if s.len() == 32 {
        simple_form_bytes(s)
    } else if s.len() == 36 {
        hyphenated_form_bytes(s)
    } else if s.len() == 38 && s[0] == '{' && s[37] == '}' {
        hyphenated_form_bytes(s.subrange(1, 37))
    } else if s.len() == 45 && s.take(9).map_values(|c: char| ascii_lowercase(c))
        == urn_prefix() {
        hyphenated_form_bytes(s.skip(9))
    } else {
        None
    }
}

/// Whether a parsed text names a version 4, RFC 4122 UUID (or does not parse).
pub open spec fn parses_to_version4_or_fails(s: Seq<char>) -> bool {
    match parsed_uuid_bytes(s) {
        Some(b) => has_version4(b) && has_rfc4122_variant(b),
        None => true,
    }
}

// ------------------------------------------------------------------------------------------
// Trusted items.
// ------------------------------------------------------------------------------------------

#[verifier::external_type_specification]
#[verifier::external_body]
pub struct ExUuidError(uuid::Error);

/// `uuid::Uuid::try_parse`, with the parsed UUID handed back as its sixteen
/// bytes. Claimed of it: it succeeds exactly on the texts that
/// `parsed_uuid_bytes` accepts and then yields those bytes (the crate's
/// parser reads the simple, hyphenated, braced and URN forms, hex digits of
/// either case).
#[verifier::external_body]
fn uuid_try_parse(input: &str) -> (r: Result<[u8; 16], uuid::Error>)
    ensures
        match parsed_uuid_bytes(input@) {
            Some(b) => r matches Ok(x) && x@ == b,
            None => r is Err,
        },
{
    match uuid::Uuid::try_parse(input) {
        Ok(u) => Ok(u.into_bytes()),
        Err(e) => Err(e),
    }
}

/// `uuid::Uuid::parse_str`, with the parsed UUID handed back as its sixteen
/// bytes. It shares its parser with `try_parse`, and the same is claimed of
/// it: it succeeds exactly on the texts that `parsed_uuid_bytes` accepts and
/// then yields those bytes.
#[verifier::external_body]
fn uuid_parse_str(input: &str) -> (r: Result<[u8; 16], uuid::Error>)
    ensures
        match parsed_uuid_bytes(input@) {
            Some(b) => r matches Ok(x) && x@ == b,
            None => r is Err,
        },
{
    match uuid::Uuid::parse_str(input) {
        Ok(u) => Ok(u.into_bytes()),
        Err(e) => Err(e),
    }
}

/// Sixteen bytes from `rand::rng()` through `RngCore::fill_bytes`. Nothing is
/// claimed of them: they are random.
#[verifier::external_body]
fn random_bytes() -> (r: [u8; 16]) {
    let mut bytes = [0u8; 16];
    rand::RngCore::fill_bytes(&mut rand::rng(), &mut bytes);
    bytes
}

/// What `String::from_utf8_lossy` makes of bytes.
pub uninterp spec fn lossy_utf8_of(bytes: Seq<u8>) -> Seq<char>;

/// `String::from_utf8_lossy`, the result made an owned `String`. Claimed of
/// it: the result is a function of the bytes alone (`lossy_utf8_of`), and for
/// valid UTF-8 it is the decoded text, as its documentation says. Which
/// replacement characters stand for invalid sequences is left unsaid.
#[verifier::external_body]
fn utf8_lossy(bytes: &[u8]) -> (r: String)
    ensures
        r@ == lossy_utf8_of(bytes@),
        valid_utf8(bytes@) ==> r@ == decode_utf8(bytes@),
{
    String::from_utf8_lossy(bytes).into_owned()
}

/// `std::str::from_utf8`: it accepts exactly the valid UTF-8 byte sequences,
/// and the text it returns is made of those bytes.
#[verifier::external_body]
fn str_from_utf8(bytes: &[u8]) -> (r: Option<&str>)
    ensures
        r is Some <==> valid_utf8(bytes@),
        r matches Some(s) ==> s.spec_bytes() == bytes@,
{
    std::str::from_utf8(bytes).ok()
}

// ------------------------------------------------------------------------------------------
// Lemmas on the text form.
// ------------------------------------------------------------------------------------------

proof fn lemma_hex_digit_value(n: int)
    requires
        0 <= n < 16,
    ensures
        hex_value(hex_digit(n) as char) == n,
        hex_digit(n) < 128,
        hex_digit(n) != 45,
{
}

proof fn lemma_byte_halves(x: u8)
    ensures
        (x / 16) * 16 + x % 16 == x,
        x / 16 < 16,
{
}

/// The canonical text of sixteen bytes parses back to those bytes.
pub proof fn lemma_parse_hyphenated(b: Seq<u8>)
    requires
        b.len() == 16,
    ensures
        parsed_uuid_bytes(hyphenated_chars(b)) == Some(b),
{
    let s = hyphenated_chars(b);
    assert(s.len() == 36);
    assert(s[8] == '-' && s[13] == '-' && s[18] == '-' && s[23] == '-');
    let h = Seq::new(32, |j: int| s[text_position(j)]);
    assert forall|j: int| 0 <= j < 32 implies #[trigger] h[j] == hex_digit(nibble(b, j)) as char by {
        assert(!is_hyphen_position(text_position(j)));
        assert(digit_index(text_position(j)) == j);
    }
    assert forall|i: int| 0 <= i < 32 implies #[trigger] hex_value(h[i]) >= 0 by {
        lemma_byte_halves(b[i / 2]);
        lemma_hex_digit_value(nibble(b, i));
    }
    let d = Seq::new(16, |k: int| (hex_value(h[2 * k]) * 16 + hex_value(h[2 * k + 1])) as u8);
    assert forall|k: int| 0 <= k < 16 implies #[trigger] d[k] == b[k] by {
        lemma_byte_halves(b[k]);
        assert(nibble(b, 2 * k) == b[k] / 16);
        assert(nibble(b, 2 * k + 1) == b[k] % 16);
        lemma_hex_digit_value((b[k] / 16) as int);
        lemma_hex_digit_value((b[k] % 16) as int);
        assert(h[2 * k] == hex_digit(nibble(b, 2 * k)) as char);
        assert(h[2 * k + 1] == hex_digit(nibble(b, 2 * k + 1)) as char);
    }
    assert(d =~= b);
    assert(hyphenated_form_bytes(s) == Some(b));
}

/// The canonical text of sixteen bytes is ASCII, so its UTF-8 encoding is
/// itself and it decodes to its characters.
pub proof fn lemma_hyphenated_utf8(b: Seq<u8>)
    requires
        b.len() == 16,
    ensures
        encode_utf8(hyphenated_chars(b)) == hyphenated(b),
        valid_utf8(hyphenated(b)),
        decode_utf8(hyphenated(b)) == hyphenated_chars(b),
{
    let chars = hyphenated_chars(b);
    assert(is_ascii_chars(chars)) by {
        assert forall|i: int| 0 <= i < chars.len() implies '\0' <= #[trigger] chars[i] <= '\u{7f}'
            by {
            if !is_hyphen_position(i) {
                lemma_byte_halves(b[digit_index(i) / 2]);
                assert(0 <= nibble(b, digit_index(i)) < 16);
            }
        }
    }
    is_ascii_chars_encode_utf8(chars);
    assert(encode_utf8(chars) =~= hyphenated(b));
    encode_utf8_valid_utf8(chars);
    encode_utf8_decode_utf8(chars);
}

/// Lowercasing keeps what a character says as a hex digit.
proof fn lemma_lowercase_hex(c: char)
    ensures
        hex_value(ascii_lowercase(c)) == hex_value(c),
        (ascii_lowercase(c) == '-') == (c == '-'),
        ascii_lowercase(ascii_lowercase(c)) == ascii_lowercase(c),
{
}

proof fn lemma_simple_form_congruent(h1: Seq<char>, h2: Seq<char>)
    requires
        h1.len() == h2.len(),
        forall|i: int| 0 <= i < h1.len() ==> hex_value(#[trigger] h1[i]) == hex_value(h2[i]),
    ensures
        simple_form_bytes(h1) == simple_form_bytes(h2),
{
    if h1.len() == 32 {
        if forall|i: int| 0 <= i < 32 ==> #[trigger] hex_value(h1[i]) >= 0 {
            assert forall|i: int| 0 <= i < 32 implies #[trigger] hex_value(h2[i]) >= 0 by {
                assert(hex_value(h1[i]) == hex_value(h2[i]));
            }
            let d1 = Seq::new(
                16,
                |k: int| (hex_value(h1[2 * k]) * 16 + hex_value(h1[2 * k + 1])) as u8,
            );
            let d2 = Seq::new(
                16,
                |k: int| (hex_value(h2[2 * k]) * 16 + hex_value(h2[2 * k + 1])) as u8,
            );
            assert forall|k: int| 0 <= k < 16 implies d1[k] == d2[k] by {
                assert(hex_value(h1[2 * k]) == hex_value(h2[2 * k]));
                assert(hex_value(h1[2 * k + 1]) == hex_value(h2[2 * k + 1]));
            }
            assert(d1 =~= d2);
        } else {
            let i = choose|i: int| 0 <= i < 32 && !(#[trigger] hex_value(h1[i]) >= 0);
            assert(hex_value(h2[i]) < 0);
        }
    }
}

proof fn lemma_hyphenated_form_lowercase(s: Seq<char>)
    ensures
        hyphenated_form_bytes(s.map_values(|c: char| ascii_lowercase(c))) == hyphenated_form_bytes(
            s,
        ),
{
    let t = s.map_values(|c: char| ascii_lowercase(c));
    if s.len() == 36 {
        lemma_lowercase_hex(s[8]);
        lemma_lowercase_hex(s[13]);
        lemma_lowercase_hex(s[18]);
        lemma_lowercase_hex(s[23]);
        let h1 = Seq::new(32, |j: int| t[text_position(j)]);
        let h2 = Seq::new(32, |j: int| s[text_position(j)]);
        assert forall|i: int| 0 <= i < h1.len() implies hex_value(#[trigger] h1[i]) == hex_value(
            h2[i],
        ) by {
            lemma_lowercase_hex(s[text_position(i)]);
        }
        lemma_simple_form_congruent(h1, h2);
    }
}

/// Parsing a UUID ignores ASCII case: a text and its ASCII-lowercased form
/// parse to the same bytes, or both fail.
pub proof fn lemma_parse_ignores_ascii_case(s: Seq<char>)
    ensures
        parsed_uuid_bytes(s.map_values(|c: char| ascii_lowercase(c))) == parsed_uuid_bytes(s),
{
    let t = s.map_values(|c: char| ascii_lowercase(c));
    assert(t.len() == s.len());
    if s.len() == 32 {
        assert forall|i: int| 0 <= i < t.len() implies hex_value(#[trigger] t[i]) == hex_value(
            s[i],
        ) by {
            lemma_lowercase_hex(s[i]);
        }
        lemma_simple_form_congruent(t, s);
    } else if s.len() == 36 {
        lemma_hyphenated_form_lowercase(s);
    } else if s.len() == 38 {
        assert(t.subrange(1, 37) =~= s.subrange(1, 37).map_values(|c: char| ascii_lowercase(c)));
        lemma_hyphenated_form_lowercase(s.subrange(1, 37));
        assert((t[0] == '{') == (s[0] == '{'));
        assert((t[37] == '}') == (s[37] == '}'));
    } else if s.len() == 45 {
        assert(t.skip(9) =~= s.skip(9).map_values(|c: char| ascii_lowercase(c)));
        lemma_hyphenated_form_lowercase(s.skip(9));
        assert forall|i: int| 0 <= i < 9 implies #[trigger] ascii_lowercase(t[i]) == ascii_lowercase(
            s[i],
        ) by {
            lemma_lowercase_hex(s[i]);
        }
        assert(t.take(9).map_values(|c: char| ascii_lowercase(c)) =~= s.take(9).map_values(
            |c: char| ascii_lowercase(c),
        ));
    }
}

/// A hex digit of either case, lowercased, is the digit that `hex_digit`
/// writes for its value.
proof fn lemma_hex_char_canonical(c: char)
    requires
        hex_value(c) >= 0,
    ensures
        0 <= hex_value(c) < 16,
        hex_digit(hex_value(c)) as char == ascii_lowercase(c),
{
}

/// A text in the hyphenated form, lowercased, is the canonical text of the
/// bytes it parses to.
pub proof fn lemma_hyphenated_form_canonical(s: Seq<char>)
    requires
        hyphenated_form_bytes(s) is Some,
    ensures
        hyphenated_form_bytes(s)->0.len() == 16,
        s.map_values(|c: char| ascii_lowercase(c)) == hyphenated_chars(hyphenated_form_bytes(s)->0),
{
    let b = hyphenated_form_bytes(s)->0;
    let h = Seq::new(32, |j: int| s[text_position(j)]);
    let t = s.map_values(|c: char| ascii_lowercase(c));
    let c = hyphenated_chars(b);
    assert forall|i: int| 0 <= i < 36 implies t[i] == c[i] by {
        if is_hyphen_position(i) {
            assert(s[i] == '-');
        } else {
            let j = digit_index(i);
            assert(text_position(j) == i);
            assert(h[j] == s[i]);
            let k = j / 2;
            lemma_hex_char_canonical(h[2 * k]);
            lemma_hex_char_canonical(h[2 * k + 1]);
            let v1 = hex_value(h[2 * k]);
            let v2 = hex_value(h[2 * k + 1]);
            assert(b[k] == (v1 * 16 + v2) as u8);
            assert(b[k] / 16 == v1 && b[k] % 16 == v2);
            if j % 2 == 0 {
                assert(2 * k == j);
            } else {
                assert(2 * k + 1 == j);
            }
            assert(nibble(b, j) == hex_value(s[i]));
            lemma_hex_char_canonical(s[i]);
        }
    }
    assert(t =~= c);
}

/// The version of a hyphenated UUID text is its character at position 14 and
/// its variant is told by the character at position 19: the bytes it parses to
/// are version 4 exactly when that character is '4', and of the RFC 4122
/// variant exactly when the character at 19 is one of 8, 9, a, b (either case).
/// So `parse` accepts such a text only with a '4' at position 14, and answers
/// `NotVersion4` for any other digit there, such as the '7' of a version 7 UUID.
pub proof fn lemma_version_and_variant_characters(s: Seq<char>)
    requires
        s.len() == 36,
        parsed_uuid_bytes(s) is Some,
    ensures
        has_version4(parsed_uuid_bytes(s)->0) <==> s[14] == '4',
        has_rfc4122_variant(parsed_uuid_bytes(s)->0) <==> (s[19] == '8' || s[19] == '9' || s[19]
            == 'a' || s[19] == 'b' || s[19] == 'A' || s[19] == 'B'),
{
    let b = parsed_uuid_bytes(s)->0;
    lemma_hyphenated_form_canonical(s);
    let t = s.map_values(|c: char| ascii_lowercase(c));
    assert(t[14] == hyphenated_chars(b)[14]);
    assert(t[19] == hyphenated_chars(b)[19]);
    assert(digit_index(14) == 12 && digit_index(19) == 16);
    lemma_byte_halves(b[6]);
    lemma_byte_halves(b[8]);
    assert(hyphenated_chars(b)[14] == hex_digit((b[6] / 16) as int) as char);
    assert(hyphenated_chars(b)[19] == hex_digit((b[8] / 16) as int) as char);
    assert(t[14] == ascii_lowercase(s[14]));
    assert(t[19] == ascii_lowercase(s[19]));
}

/// Whether a character is a hexadecimal digit of either case.
pub open spec fn is_hex_char(c: char) -> bool {
    ('0' <= c && c <= '9') || ('a' <= c && c <= 'f') || ('A' <= c && c <= 'F')
}

/// The texts that parse as a UUID have 32, 36, 38 or 45 characters; one of 36
/// characters has hyphens at 8, 13, 18 and 23 and hex digits everywhere else,
/// one of 32 characters is all hex digits.
pub proof fn lemma_parsed_text_shape(s: Seq<char>)
    requires
        parsed_uuid_bytes(s) is Some,
    ensures
        s.len() == 32 || s.len() == 36 || s.len() == 38 || s.len() == 45,
        s.len() == 32 ==> forall|i: int| 0 <= i < 32 ==> is_hex_char(#[trigger] s[i]),
        s.len() == 36 ==> s[8] == '-' && s[13] == '-' && s[18] == '-' && s[23] == '-' && forall|
            i: int,
        |
            0 <= i < 36 && !is_hyphen_position(i) ==> is_hex_char(#[trigger] s[i]),
{
    if s.len() == 32 {
        assert forall|i: int| 0 <= i < 32 implies is_hex_char(#[trigger] s[i]) by {
            assert(hex_value(s[i]) >= 0);
        }
    }
    if s.len() == 36 {
        let h = Seq::new(32, |j: int| s[text_position(j)]);
        assert forall|i: int| 0 <= i < 36 && !is_hyphen_position(i) implies is_hex_char(
            #[trigger] s[i],
        ) by {
            let j = digit_index(i);
            assert(text_position(j) == i);
            assert(h[j] == s[i]);
            assert(hex_value(h[j]) >= 0);
        }
    }
}

/// Every well-formed `UUID4` shows version 4 in its text: the character at
/// position 14 is '4', and the variant character at position 19 is one of
/// '8', '9', 'a', 'b'; the hyphens stand at 8, 13, 18 and 23 and a NUL ends it.
pub proof fn lemma_well_formed_text_shows_version4(u: UUID4)
    requires
        u.wf(),
    ensures
        u.value@.len() == 37,
        u.value@[14] == 52u8,
        u.value@[19] == 56u8 || u.value@[19] == 57u8 || u.value@[19] == 97u8 || u.value@[19]
            == 98u8,
        u.value@[8] == 45u8 && u.value@[13] == 45u8 && u.value@[18] == 45u8 && u.value@[23]
            == 45u8,
        u.value@[36] == 0u8,
{
    u.lemma_wf();
    let b = u.uuid_bytes();
    assert(u.value@[14] == hyphenated(b)[14]);
    assert(u.value@[19] == hyphenated(b)[19]);
    assert(u.value@[8] == hyphenated(b)[8]);
    assert(u.value@[13] == hyphenated(b)[13]);
    assert(u.value@[18] == hyphenated(b)[18]);
    assert(u.value@[23] == hyphenated(b)[23]);
    assert(digit_index(14) == 12 && digit_index(19) == 16);
    lemma_byte_halves(b[8]);
}

/// Two texts in the hyphenated form give equal `UUID4` values exactly when
/// they are equal up to ASCII case.
pub proof fn lemma_equal_iff_same_text_up_to_case(a: Seq<char>, b: Seq<char>)
    requires
        a.len() == 36,
        b.len() == 36,
        parsed_uuid_bytes(a) is Some,
        parsed_uuid_bytes(b) is Some,
    ensures
        (hyphenated(parsed_uuid_bytes(a)->0).push(0u8) == hyphenated(parsed_uuid_bytes(b)->0).push(
            0u8,
        )) == (a.map_values(|c: char| ascii_lowercase(c)) == b.map_values(
            |c: char| ascii_lowercase(c),
        )),
{
    let pa = parsed_uuid_bytes(a)->0;
    let pb = parsed_uuid_bytes(b)->0;
    lemma_hyphenated_form_canonical(a);
    lemma_hyphenated_form_canonical(b);
    lemma_parse_hyphenated(pa);
    lemma_parse_hyphenated(pb);
    if hyphenated(pa).push(0u8) == hyphenated(pb).push(0u8) {
        assert(hyphenated(pa) =~= hyphenated(pa).push(0u8).drop_last());
        assert(hyphenated(pb) =~= hyphenated(pb).push(0u8).drop_last());
        lemma_hyphenated_injective(pa, pb);
    }
}

/// The bytes round trip of a well-formed `UUID4` (`From<UUID4> for Uuid`,
/// then `From<Uuid> for UUID4`), for instance of every value that `new`
/// gives: `as_bytes` succeeds on it, the bytes it gives are version 4 and RFC
/// 4122, so `from_uuid_bytes` accepts them, the value built from them is the
/// value they came from, and the value's text is the canonical hyphenated
/// lowercase text of those bytes (the text that `uuid::Uuid` displays).
pub proof fn lemma_bytes_round_trip(u: UUID4)
    requires
        u.wf(),
    ensures
        u.readable(),
        parsed_uuid_bytes(u.text()) is Some,
        has_version4(parsed_uuid_bytes(u.text())->0),
        has_rfc4122_variant(parsed_uuid_bytes(u.text())->0),
        hyphenated(parsed_uuid_bytes(u.text())->0).push(0u8) == u.value@,
        u.text() == hyphenated_chars(parsed_uuid_bytes(u.text())->0),
{
    lemma_text_round_trip(u);
    u.lemma_wf();
}

/// Both round trips of a well-formed `UUID4`: its text parses back to its
/// bytes (so `from_str(u.as_str())` gives the same value), and its bytes, which
/// are version 4 and RFC 4122 (so `as_bytes` succeeds and `from_uuid_bytes`
/// accepts them), give back the same value.
pub proof fn lemma_text_round_trip(u: UUID4)
    requires
        u.wf(),
    ensures
        u.readable(),
        parsed_uuid_bytes(u.text()) == Some(u.uuid_bytes()),
        has_version4(u.uuid_bytes()),
        has_rfc4122_variant(u.uuid_bytes()),
        u.value@ == hyphenated(u.uuid_bytes()).push(0u8),
{
    u.lemma_wf();
    lemma_parse_hyphenated(u.uuid_bytes());
}

/// The hyphenated text of different bytes differs.
pub proof fn lemma_hyphenated_injective(b1: Seq<u8>, b2: Seq<u8>)
    requires
        b1.len() == 16,
        b2.len() == 16,
        hyphenated(b1) == hyphenated(b2),
    ensures
        b1 == b2,
{
    lemma_parse_hyphenated(b1);
    lemma_parse_hyphenated(b2);
    assert(hyphenated_chars(b1) == hyphenated_chars(b2));
}

// ------------------------------------------------------------------------------------------
// The type.
// ------------------------------------------------------------------------------------------

/// Why a text is not a `UUID4`.
#[derive(Clone, Copy, Debug, PartialEq, Eq, Structural)]
pub enum UUID4Error {
    /// The text is not a UUID in any form that the `uuid` crate reads.
    InvalidText,
    /// The text is a UUID of another version than 4.
    NotVersion4,
    /// The text is a version 4 UUID of another variant than RFC 4122.
    NotRfc4122Variant,
}

impl UUID4Error {
    /// The message that reports the error.
    pub fn message(&self) -> (r: &'static str)
        ensures
            *self == UUID4Error::NotVersion4 ==> r@ == "UUID is not version 4"@,
            *self == UUID4Error::NotRfc4122Variant ==> r@ == "UUID is not RFC 4122 variant"@,
            *self == UUID4Error::InvalidText ==> r@ == "invalid UUID text"@,
    {
        match self {
            UUID4Error::InvalidText => "invalid UUID text",
            UUID4Error::NotVersion4 => "UUID is not version 4",
            UUID4Error::NotRfc4122Variant => "UUID is not RFC 4122 variant",
        }
    }
}

/// Represents a Universally Unique Identifier (UUID) version 4 based on a
/// 128-bit label as specified in RFC 4122.
#[derive(Clone, Copy, Hash, PartialEq, Eq)]
pub struct UUID4 {
    /// The UUID v4 value as a fixed-length C string byte array (includes null terminator).
    pub value: [u8; 37],
}

impl UUID4 {
    /// The value is the canonical text of `b` followed by a NUL byte.
    pub open spec fn holds_bytes(self, b: Seq<u8>) -> bool {
        b.len() == 16 && self.value@ == hyphenated(b).push(0u8)
    }

    /// The value is the text of a version 4, RFC 4122 UUID, NUL-terminated.
    pub open spec fn wf(self) -> bool {
        exists|b: Seq<u8>| #[trigger]
            self.holds_bytes(b) && has_version4(b) && has_rfc4122_variant(b)
    }

    /// The sixteen bytes of a well-formed value.
    pub open spec fn uuid_bytes(self) -> Seq<u8> {
        choose|b: Seq<u8>| #[trigger]
            self.holds_bytes(b) && has_version4(b) && has_rfc4122_variant(b)
    }

    /// The value is a C string: NUL-terminated, with no NUL before the end.
    pub open spec fn is_c_string(self) -> bool {
        self.value@[36] == 0 && forall|i: int| 0 <= i < 36 ==> #[trigger] self.value@[i] != 0
    }

    /// The value can be read as text: a C string whose bytes are valid UTF-8.
    pub open spec fn readable(self) -> bool {
        self.is_c_string() && valid_utf8(self.value@.take(36))
    }

    /// The text of the value: its first 36 bytes, decoded as UTF-8.
    pub open spec fn text(self) -> Seq<char> {
        decode_utf8(self.value@.take(36))
    }

    /// A value that holds `b` is well formed when `b` is version 4, RFC 4122,
    /// and then its bytes are `b` and its text is the canonical text of `b`.
    pub proof fn lemma_holds(self, b: Seq<u8>)
        requires
            self.holds_bytes(b),
            has_version4(b),
            has_rfc4122_variant(b),
        ensures
            self.wf(),
            self.uuid_bytes() == b,
            self.readable(),
            self.text() == hyphenated_chars(b),
    {
        let c = self.uuid_bytes();
        assert(self.holds_bytes(c));
        assert(hyphenated(c) =~= self.value@.take(36));
        assert(hyphenated(b) =~= self.value@.take(36));
        lemma_hyphenated_injective(b, c);
        lemma_hyphenated_utf8(b);
        assert forall|i: int| 0 <= i < 36 implies #[trigger] self.value@[i] != 0 by {
            assert(self.value@[i] == hyphenated(b)[i]);
            if !is_hyphen_position(i) {
                lemma_byte_halves(b[digit_index(i) / 2]);
            }
        }
    }

    /// A well-formed value holds its bytes.
    pub proof fn lemma_wf(self)
        requires
            self.wf(),
        ensures
            self.holds_bytes(self.uuid_bytes()),
            has_version4(self.uuid_bytes()),
            has_rfc4122_variant(self.uuid_bytes()),
            self.readable(),
            self.text() == hyphenated_chars(self.uuid_bytes()),
    {
        self.lemma_holds(self.uuid_bytes());
    }
}

fn hex_digit_byte(n: u8) -> (r: u8)
    requires
        n < 16,
    ensures
        r == hex_digit(n as int),
{
    if n < 10 {
        48 + n
    } else {
        87 + n
    }
}

fn digit_index_exec(i: usize) -> (j: usize)
    requires
        i < 36,
        !is_hyphen_position(i as int),
    ensures
        j == digit_index(i as int),
        j < 32,
{
    if i < 8 {
        i
    } else if i < 13 {
        i - 1
    } else if i < 18 {
        i - 2
    } else if i < 23 {
        i - 3
    } else {
        i - 4
    }
}

/// The canonical text of sixteen bytes, NUL-terminated.
fn text_value(b: &[u8; 16]) -> (value: [u8; 37])
    ensures
        value@ == hyphenated(b@).push(0u8),
{
    let mut value = [0u8; 37];
    let mut i: usize = 0;
    while i < 36
        invariant
            i <= 36,
            value@.len() == 37,
            value@[36] == 0,
            b@.len() == 16,
            forall|t: int| 0 <= t < i ==> value@[t] == #[trigger] hyphenated(b@)[t],
        decreases 36 - i,
    {
        if i == 8 || i == 13 || i == 18 || i == 23 {
            value[i] = 45;
        } else {
            let j = digit_index_exec(i);
            let byte = b[j / 2];
            let n: u8 = if j % 2 == 0 {
                byte >> 4
            } else {
                byte & 0x0f
            };
            assert(byte >> 4 == byte / 16 && byte & 0x0f == byte % 16 && byte / 16 < 16)
                by (bit_vector);
            value[i] = hex_digit_byte(n);
        }
        i = i + 1;
    }
    assert(value@ =~= hyphenated(b@).push(0u8));
    value
}

impl UUID4 {
    /// Creates a new random [`UUID4`] instance.
    ///
    /// Whatever the random source yields, the result is the text of a version 4,
    /// RFC 4122 UUID.
    pub fn new() -> (r: UUID4)
        ensures
            r.wf(),
            r.readable(),
            r.text() == hyphenated_chars(r.uuid_bytes()),
    {
        Self::from_random_bytes(random_bytes())
    }

    /// The [`UUID4`] made of sixteen random bytes: the version is set to 4 and
    /// the variant to RFC 4122, and the bytes are written as hyphenated
    /// lowercase text with a NUL terminator.
    pub fn from_random_bytes(bytes: [u8; 16]) -> (r: UUID4)
        ensures
            r.value@ == hyphenated(stamp_version4(bytes@)).push(0u8),
            r.wf(),
            r.uuid_bytes() == stamp_version4(bytes@),
            r.readable(),
            r.text() == hyphenated_chars(stamp_version4(bytes@)),
    {
        let mut b = bytes;
        let b6 = b[6];
        let b8 = b[8];
        b[6] = (b6 & 0x0F) | 0x40;
        b[8] = (b8 & 0x3F) | 0x80;
        assert((b6 & 0x0F) | 0x40 == b6 % 16 + 64 && (b8 & 0x3F) | 0x80 == b8 % 64 + 128)
            by (bit_vector);
        assert(b@ =~= stamp_version4(bytes@));
        let r = Self::from_validated_uuid(&b);
        proof {
            r.lemma_holds(b@);
        }
        r
    }

    /// The [`UUID4`] of a UUID given by its sixteen bytes, which must be a
    /// version 4, RFC 4122 UUID.
    pub fn from_uuid_bytes(bytes: [u8; 16]) -> (r: UUID4)
        requires
            has_version4(bytes@),
            has_rfc4122_variant(bytes@),
        ensures
            r.value@ == hyphenated(bytes@).push(0u8),
            r.wf(),
            r.uuid_bytes() == bytes@,
            r.readable(),
            r.text() == hyphenated_chars(bytes@),
    {
        let r = Self::from_validated_uuid(&bytes);
        proof {
            r.lemma_holds(bytes@);
        }
        r
    }

    /// Attempts to create a [`UUID4`] from a string representation, in any form
    /// that the `uuid` crate reads (e.g. "2d89666b-1a1e-4a75-b193-4eb3b454c757").
    ///
    /// A text that is no UUID gives `Err(InvalidText)`; a UUID of another
    /// version or variant must not be given.
    pub fn from_str(value: &str) -> (r: Result<UUID4, UUID4Error>)
        requires
            parses_to_version4_or_fails(value@),
        ensures
            match parsed_uuid_bytes(value@) {
                Some(b) => r matches Ok(u) && u.value@ == hyphenated(b).push(0u8) && u.wf()
                    && u.uuid_bytes() == b && u.readable() && u.text() == hyphenated_chars(b),
                None => r == Err::<UUID4, UUID4Error>(UUID4Error::InvalidText),
            },
    {
        match uuid_try_parse(value) {
            Ok(bytes) => Ok(Self::from_uuid_bytes(bytes)),
            Err(_) => Err(UUID4Error::InvalidText),
        }
    }

    /// Creates a [`UUID4`] from a string slice, which must hold a version 4,
    /// RFC 4122 UUID.
    pub fn from(value: &str) -> (r: UUID4)
        requires
            parsed_uuid_bytes(value@) is Some,
            parses_to_version4_or_fails(value@),
        ensures
            r.value@ == hyphenated(parsed_uuid_bytes(value@)->0).push(0u8),
            r.wf(),
            r.uuid_bytes() == parsed_uuid_bytes(value@)->0,
            r.readable(),
            r.text() == hyphenated_chars(parsed_uuid_bytes(value@)->0),
    {
        match Self::from_str(value) {
            Ok(u) => u,
            Err(_) => UUID4 { value: [0u8; 37] },
        }
    }

    /// Reads a [`UUID4`] from text and checks it the way the constructors do:
    /// the text must be a UUID (`InvalidText`), of version 4 (`NotVersion4`)
    /// and of the RFC 4122 variant (`NotRfc4122Variant`), checked in that order.
    pub fn parse(value: &str) -> (r: Result<UUID4, UUID4Error>)
        ensures
            match parsed_uuid_bytes(value@) {
                None => r == Err::<UUID4, UUID4Error>(UUID4Error::InvalidText),
                Some(b) => if !has_version4(b) {
                    r == Err::<UUID4, UUID4Error>(UUID4Error::NotVersion4)
                } else if !has_rfc4122_variant(b) {
                    r == Err::<UUID4, UUID4Error>(UUID4Error::NotRfc4122Variant)
                } else {
                    r matches Ok(u) && u.value@ == hyphenated(b).push(0u8) && u.wf()
                        && u.uuid_bytes() == b && u.readable() && u.text() == hyphenated_chars(b)
                },
            },
    {
        match uuid_try_parse(value) {
            Err(_) => Err(UUID4Error::InvalidText),
            Ok(bytes) => match Self::validate_v4(&bytes) {
                Err(e) => Err(e),
                Ok(()) => Self::from_str(value),
            },
        }
    }

    /// Checks that sixteen bytes are a version 4 UUID (the high nibble of byte 6
    /// is 4), then that they are of the RFC 4122 variant (the two high bits of
    /// byte 8 are 10).
    pub fn validate_v4(bytes: &[u8; 16]) -> (r: Result<(), UUID4Error>)
        ensures
            r == (if !has_version4(bytes@) {
                Err(UUID4Error::NotVersion4)
            } else if !has_rfc4122_variant(bytes@) {
                Err(UUID4Error::NotRfc4122Variant)
            } else {
                Ok(())
            }),
    {
        let b6 = bytes[6];
        let b8 = bytes[8];
        assert(b6 >> 4 == b6 / 16 && ((b8 & 0xc0) == 0x80) == (b8 / 64 == 2)) by (bit_vector);
        if (b6 >> 4) != 4 {
            Err(UUID4Error::NotVersion4)
        } else if (b8 & 0xc0) != 0x80 {
            Err(UUID4Error::NotRfc4122Variant)
        } else {
            Ok(())
        }
    }

    /// The [`UUID4`] holding the canonical text of checked bytes.
    fn from_validated_uuid(bytes: &[u8; 16]) -> (r: UUID4)
        ensures
            r.value@ == hyphenated(bytes@).push(0u8),
    {
        UUID4 { value: text_value(bytes) }
    }

    /// Returns the UUID as a string slice: the text before the NUL terminator.
    pub fn as_str(&self) -> (r: &str)
        requires
            self.readable(),
        ensures
            r@ == self.text(),
    {
        let all: &[u8] = &self.value;
        let text = vstd::slice::slice_subrange(all, 0, 36);
        assert(text@ =~= self.value@.take(36));
        match str_from_utf8(text) {
            Some(s) => {
                proof {
                    encode_utf8_decode_utf8(s@);
                }
                s
            },
            None => "",
        }
    }

    /// The text that `Display` shows: the bytes before the NUL terminator,
    /// decoded as UTF-8 with invalid sequences replaced.
    pub open spec fn shown_text(self) -> Seq<char> {
        lossy_utf8_of(self.value@.take(36))
    }

    /// The UUID as text, as `Display` shows it; for a readable value this is
    /// its text.
    pub fn to_string(&self) -> (r: String)
        requires
            self.is_c_string(),
        ensures
            r@ == self.shown_text(),
            self.readable() ==> r@ == self.text(),
    {
        let all: &[u8] = &self.value;
        let text = vstd::slice::slice_subrange(all, 0, 36);
        assert(text@ =~= self.value@.take(36));
        utf8_lossy(text)
    }

    /// The UUID as `Debug` shows it: "UUID4(" and the text that `Display`
    /// shows and ")".
    pub fn debug_string(&self) -> (r: String)
        requires
            self.is_c_string(),
        ensures
            r@ == seq!['U', 'U', 'I', 'D', '4', '('] + self.shown_text() + seq![')'],
            self.readable() ==> r@ == seq!['U', 'U', 'I', 'D', '4', '('] + self.text() + seq![')'],
    {
        let mut s = String::new();
        push_char(&mut s, 'U');
        push_char(&mut s, 'U');
        push_char(&mut s, 'I');
        push_char(&mut s, 'D');
        push_char(&mut s, '4');
        push_char(&mut s, '(');
        let shown = self.to_string();
        push_str(&mut s, shown.as_str());
        push_char(&mut s, ')');
        assert(s@ =~= seq!['U', 'U', 'I', 'D', '4', '('] + self.shown_text() + seq![')']);
        s
    }

    /// Returns the raw UUID bytes (16 bytes), read back from the text.
    pub fn as_bytes(&self) -> (r: [u8; 16])
        requires
            self.readable(),
            parsed_uuid_bytes(self.text()) is Some,
        ensures
            r@ == parsed_uuid_bytes(self.text())->0,
    {
        match uuid_parse_str(self.as_str()) {
            Ok(bytes) => bytes,
            Err(_) => [0u8; 16],
        }
    }
}

impl Default for UUID4 {
    /// Creates a new default [`UUID4`] instance: a newly generated one.
    fn default() -> (r: Self)
        ensures
            r.wf(),
            r.readable(),
    {
        Self::new()
    }
}

} // verus!
