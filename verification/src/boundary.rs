//! Calls into outside crates that compute on plain values (encodings,
//! hashes, identifiers, instants, decompression, URL parsing). Each stands
//! behind a function whose contract Verus takes on trust and which says
//! what the crate's source shows of it.

use std::hash::Hasher;
use std::io::Read;
use std::str::FromStr;

use base64::Engine;
use siphasher::sip128::Hasher128;
use vstd::prelude::*;

use crate::text::digit_char;

verus! {

/// An optional byte vector, read as an optional byte sequence.
pub open spec fn bytes_opt_view(o: Option<Vec<u8>>) -> Option<Seq<u8>> {
    match o {
        Some(b) => Some(b@),
        None => None,
    }
}

// ---------------------------------------------------------------- base64

/// The character of the 6-bit value `n` in a base64 alphabet: `A`-`Z`,
/// `a`-`z`, `0`-`9`, then `+` and `/` in the standard alphabet or `-` and
/// `_` in the URL-safe one.
pub open spec fn base64_char(n: int, url_safe: bool) -> char {
    if n < 26 {
        (('A' as int) + n) as char
    } else if n < 52 {
        (('a' as int) + (n - 26)) as char
    } else if n < 62 {
        (('0' as int) + (n - 52)) as char
    } else if n == 62 {
        if url_safe {
            '-'
        } else {
            '+'
        }
    } else {
        if url_safe {
            '_'
        } else {
            '/'
        }
    }
}

/// Padded base64 of `data`: every 3 bytes become 4 characters of 6 bits
/// each, and a last 1 or 2 bytes become 2 or 3 characters followed by `=`
/// up to 4.
pub open spec fn base64_encode(data: Seq<u8>, url_safe: bool) -> Seq<char>
    decreases data.len(),
{
    if data.len() == 0 {
        seq![]
    } else if data.len() == 1 {
        let b0 = data[0] as int;
        seq![base64_char(b0 / 4, url_safe), base64_char((b0 % 4) * 16, url_safe), '=', '=']
    } else if data.len() == 2 {
        let b0 = data[0] as int;
        let b1 = data[1] as int;
        seq![
            base64_char(b0 / 4, url_safe),
            base64_char((b0 % 4) * 16 + b1 / 16, url_safe),
            base64_char((b1 % 16) * 4, url_safe),
            '=',
        ]
    } else {
        let b0 = data[0] as int;
        let b1 = data[1] as int;
        let b2 = data[2] as int;
        seq![
            base64_char(b0 / 4, url_safe),
            base64_char((b0 % 4) * 16 + b1 / 16, url_safe),
            base64_char((b1 % 16) * 4 + b2 / 64, url_safe),
            base64_char(b2 % 64, url_safe),
        ] + base64_encode(data.subrange(3, data.len() as int), url_safe)
    }
}

/// The text `base64`'s `URL_SAFE` engine encodes `data` to: padded base64
/// in the URL-safe alphabet.
pub open spec fn base64_url_safe_encode(data: Seq<u8>) -> Seq<char> {
    base64_encode(data, true)
}

/// The bytes `base64`'s `URL_SAFE` engine decodes `text` to, if it accepts it.
pub uninterp spec fn base64_url_safe_decode(text: Seq<char>) -> Option<Seq<u8>>;

/// The text `base64`'s `STANDARD` engine encodes `data` to: padded base64
/// in the standard alphabet.
pub open spec fn base64_standard_encode(data: Seq<u8>) -> Seq<char> {
    base64_encode(data, false)
}

/// The bytes `base64`'s `STANDARD` engine decodes `text` to, if it accepts it.
pub uninterp spec fn base64_standard_decode(text: Seq<char>) -> Option<Seq<u8>>;

/// `base64::engine::general_purpose::URL_SAFE.encode`. Claims: the result is
/// the padded URL-safe base64 of `data`, and the same engine decodes it
/// back to `data`. `encode` panics when the encoded length overflows
/// `usize`; `requires` leaves those inputs out.
#[verifier::external_body]
pub(crate) fn encode_url_safe(data: &[u8]) -> (r: String)
    requires
        (data@.len() + 2) / 3 * 4 <= usize::MAX,
    ensures
        r@ == base64_url_safe_encode(data@),
        base64_url_safe_decode(r@) == Some(data@),
{
    base64::engine::general_purpose::URL_SAFE.encode(data)
}

/// `base64::engine::general_purpose::URL_SAFE.decode`. Claims: `Some` with
/// the named bytes exactly when the engine accepts the text.
#[verifier::external_body]
pub(crate) fn decode_url_safe(text: &str) -> (r: Option<Vec<u8>>)
    ensures
        bytes_opt_view(r) == base64_url_safe_decode(text@),
{
    base64::engine::general_purpose::URL_SAFE.decode(text).ok()
}

/// `base64::engine::general_purpose::STANDARD.encode`. Claims: the result is
/// the padded standard base64 of `data`, and the same engine decodes it
/// back to `data`. It panics where `URL_SAFE.encode` does, and `requires`
/// leaves those inputs out.
#[verifier::external_body]
pub(crate) fn encode_standard(data: &[u8]) -> (r: String)
    requires
        (data@.len() + 2) / 3 * 4 <= usize::MAX,
    ensures
        r@ == base64_standard_encode(data@),
        base64_standard_decode(r@) == Some(data@),
{
    base64::engine::general_purpose::STANDARD.encode(data)
}

/// `base64::engine::general_purpose::STANDARD.decode`. Claims: `Some` with
/// the named bytes exactly when the engine accepts the text.
#[verifier::external_body]
pub(crate) fn decode_standard(text: &str) -> (r: Option<Vec<u8>>)
    ensures
        bytes_opt_view(r) == base64_standard_decode(text@),
{
    base64::engine::general_purpose::STANDARD.decode(text).ok()
}

// ---------------------------------------------------------------- siphasher

/// The 128-bit SipHash-2-4 digest, with both keys zero, of `data`.
pub uninterp spec fn sip128_digest(data: Seq<u8>) -> u128;

/// `siphasher::sip128::SipHasher::new()`, one `write` of `data`, then
/// `finish128().as_u128()`. Claims: the result is the named digest of `data`.
#[verifier::external_body]
pub(crate) fn sip128(data: &[u8]) -> (r: u128)
    ensures
        r == sip128_digest(data@),
{
    let mut hasher = siphasher::sip128::SipHasher::new();
    hasher.write(data);
    hasher.finish128().as_u128()
}

// ---------------------------------------------------------------- uuid

/// `16` to the power `e`.
pub open spec fn pow16(e: nat) -> nat
    decreases e,
{
    if e == 0 {
        1
    } else {
        16 * pow16((e - 1) as nat)
    }
}

/// The lower-case hexadecimal digit of `n`, for `n` from 0 to 15.
pub open spec fn hex_char(n: int) -> char {
    if n < 10 {
        digit_char(n)
    } else if n == 10 {
        'a'
    } else if n == 11 {
        'b'
    } else if n == 12 {
        'c'
    } else if n == 13 {
        'd'
    } else if n == 14 {
        'e'
    } else {
        'f'
    }
}

/// The `k`-th of the 32 hexadecimal digits of `id`, most significant first.
pub open spec fn hex_digit(id: u128, k: int) -> char {
    hex_char(((id as nat / pow16((31 - k) as nat)) % 16) as int)
}

/// How many hyphens precede index `i` of a hyphenated identifier.
pub open spec fn hyphens_before(i: int) -> int {
    if i <= 8 {
        0
    } else if i <= 13 {
        1
    } else if i <= 18 {
        2
    } else if i <= 23 {
        3
    } else {
        4
    }
}

/// The text `uuid::Uuid::from_u128(id).to_string()` gives: the 32
/// lower-case hexadecimal digits of `id`, most significant first, in groups
/// of 8, 4, 4, 4 and 12 joined by hyphens.
pub open spec fn uuid_text(id: u128) -> Seq<char> {
    Seq::new(
        36,
        |i: int|
            if i == 8 || i == 13 || i == 18 || i == 23 {
                '-'
            } else {
                hex_digit(id, i - hyphens_before(i))
            },
    )
}

/// The value of a hexadecimal digit of either case.
pub open spec fn hex_value(c: char) -> Option<int> {
    if '0' <= c && c <= '9' {
        Some(c as int - '0' as int)
    } else if 'a' <= c && c <= 'f' {
        Some(c as int - 'a' as int + 10)
    } else if 'A' <= c && c <= 'F' {
        Some(c as int - 'A' as int + 10)
    } else {
        None
    }
}

/// The number the hexadecimal digits `digits` spell, most significant
/// first, if each is a digit.
pub open spec fn hex_number(digits: Seq<char>) -> Option<int>
    decreases digits.len(),
{
    if digits.len() == 0 {
        Some(0)
    } else {
        match (hex_number(digits.drop_last()), hex_value(digits.last())) {
            (Some(high), Some(low)) => Some(high * 16 + low),
            _ => None,
        }
    }
}

/// The 32 digits of a hyphenated identifier: 36 characters with hyphens at
/// 8, 13, 18 and 23, which are left out.
pub open spec fn hyphenated_digits(s: Seq<char>) -> Option<Seq<char>> {
    if s.len() == 36 && s[8] == '-' && s[13] == '-' && s[18] == '-' && s[23] == '-' {
        Some(s.subrange(0, 8) + s.subrange(9, 13) + s.subrange(14, 18) + s.subrange(19, 23) + s.subrange(24, 36))
    } else {
        None
    }
}

/// Whether `p` is `urn:uuid:`, its letters in either case.
pub open spec fn is_urn_prefix(p: Seq<char>) -> bool {
    &&& p.len() == 9
    &&& p[0] == 'u' || p[0] == 'U'
    &&& p[1] == 'r' || p[1] == 'R'
    &&& p[2] == 'n' || p[2] == 'N'
    &&& p[3] == ':'
    &&& p[4] == 'u' || p[4] == 'U'
    &&& p[5] == 'u' || p[5] == 'U'
    &&& p[6] == 'i' || p[6] == 'I'
    &&& p[7] == 'd' || p[7] == 'D'
    &&& p[8] == ':'
}

/// The 32 digits `uuid::Uuid::from_str` reads from `text`: all of a text of
/// 32 characters, else those of a hyphenated identifier standing alone, in
/// braces, or after `urn:uuid:`.
pub open spec fn uuid_digits(text: Seq<char>) -> Option<Seq<char>> {
    if text.len() == 32 {
        Some(text)
    } else if text.len() == 36 {
        hyphenated_digits(text)
    } else if text.len() == 38 && text[0] == '{' && text[37] == '}' {
        hyphenated_digits(text.subrange(1, 37))
    } else if text.len() == 45 && is_urn_prefix(text.subrange(0, 9)) {
        hyphenated_digits(text.subrange(9, 45))
    } else {
        None
    }
}

/// `uuid::Uuid::from_str(text)`, as the identifier's 128-bit value: the
/// number the 32 digits it reads spell, when each is a hexadecimal digit.
pub open spec fn uuid_from_text(text: Seq<char>) -> Option<u128> {
    match uuid_digits(text) {
        Some(d) => match hex_number(d) {
            Some(n) => Some(n as u128),
            None => None,
        },
        None => None,
    }
}

/// A hexadecimal digit written by `hex_char` reads back as its value.
proof fn lemma_hex_char_value(n: int)
    requires
        0 <= n < 16,
    ensures
        hex_value(hex_char(n)) == Some(n),
{
}

/// `16^32` is `2^128`, one more than the largest identifier.
proof fn lemma_pow16_32()
    ensures
        pow16(32) == 0x1_0000_0000_0000_0000_0000_0000_0000_0000,
{
    reveal_with_fuel(pow16, 33);
}

/// The first `m` hexadecimal digits of `id` spell `id / 16^(32 - m)`.
proof fn lemma_hex_prefix(id: u128, m: nat)
    requires
        m <= 32,
    ensures
        hex_number(Seq::new(m, |k: int| hex_digit(id, k))) == Some(id as int / pow16((32 - m) as nat) as int),
    decreases m,
{
    let s = Seq::new(m, |k: int| hex_digit(id, k));
    if m == 0 {
        lemma_pow16_32();
        assert(id as int / pow16(32) as int == 0) by {
            vstd::arithmetic::div_mod::lemma_basic_div(id as int, pow16(32) as int);
        }
    } else {
        let prev = Seq::new((m - 1) as nat, |k: int| hex_digit(id, k));
        assert(s.drop_last() =~= prev);
        lemma_hex_prefix(id, (m - 1) as nat);
        let b = pow16((32 - m) as nat) as int;
        assert(b > 0) by {
            lemma_pow16_positive((32 - m) as nat);
        }
        assert(pow16((33 - m) as nat) as int == b * 16);
        let q = id as int / b;
        assert(q >= 0) by {
            vstd::arithmetic::div_mod::lemma_div_pos_is_pos(id as int, b);
        }
        lemma_hex_char_value(q % 16);
        assert(s.last() == hex_digit(id, m - 1));
        vstd::arithmetic::div_mod::lemma_div_denominator(id as int, b, 16);
        vstd::arithmetic::div_mod::lemma_fundamental_div_mod(q, 16);
    }
}

/// Powers of 16 are positive.
proof fn lemma_pow16_positive(e: nat)
    ensures
        pow16(e) > 0,
    decreases e,
{
    if e > 0 {
        lemma_pow16_positive((e - 1) as nat);
    }
}

/// The text of an identifier parses back to the identifier.
pub proof fn lemma_uuid_text_parses(id: u128)
    ensures
        uuid_from_text(uuid_text(id)) == Some(id),
{
    let t = uuid_text(id);
    let digits = Seq::new(32, |k: int| hex_digit(id, k));
    assert(t.len() == 36);
    assert(t[8] == '-' && t[13] == '-' && t[18] == '-' && t[23] == '-');
    assert(t.subrange(0, 8) + t.subrange(9, 13) + t.subrange(14, 18) + t.subrange(19, 23) + t.subrange(24, 36)
        =~= digits);
    assert(uuid_digits(t) == Some(digits));
    lemma_hex_prefix(id, 32);
    assert(pow16(0) == 1);
    assert(id as int / 1 == id as int);
    assert(hex_number(digits) == Some(id as int));
}

/// Whether `c` can appear in a hyphenated identifier: a lower-case
/// hexadecimal digit or a hyphen.
pub open spec fn is_uuid_char(c: char) -> bool {
    ('0' <= c && c <= '9') || ('a' <= c && c <= 'f') || c == '-'
}

/// `uuid::Uuid::to_string` (its `Display`). Claims: the result is the
/// hyphenated text of `id`.
#[verifier::external_body]
pub(crate) fn uuid_to_string(id: u128) -> (r: String)
    ensures
        r@ == uuid_text(id),
{
    uuid::Uuid::from_u128(id).to_string()
}

/// `uuid::Uuid::from_str`. Claims: the result is the parse `uuid_from_text`
/// states.
#[verifier::external_body]
pub(crate) fn uuid_parse(text: &str) -> (r: Option<u128>)
    ensures
        r == uuid_from_text(text@),
{
    match uuid::Uuid::from_str(text) {
        Ok(id) => Some(id.as_u128()),
        Err(_) => None,
    }
}

// ---------------------------------------------------------------- time

/// The first nanosecond that `time::OffsetDateTime` can hold
/// (-9999-01-01T00:00:00Z), counted from the Unix epoch.
pub open spec fn min_unix_nanos() -> int {
    -377_705_116_800_000_000_000
}

/// The last nanosecond that `time::OffsetDateTime` can hold
/// (9999-12-31T23:59:59.999999999Z), counted from the Unix epoch.
pub open spec fn max_unix_nanos() -> int {
    253_402_300_799_999_999_999
}

/// Whether `time::OffsetDateTime` can hold the instant `nanos` after the epoch.
pub open spec fn unix_nanos_valid(nanos: int) -> bool {
    min_unix_nanos() <= nanos <= max_unix_nanos()
}

/// `time::OffsetDateTime::from_unix_timestamp_nanos(nanos).is_ok()`. Claims:
/// it succeeds exactly inside the range of years -9999..=9999 (the crate's
/// range without its `large-dates` feature, which nothing here enables).
#[verifier::external_body]
pub(crate) fn unix_nanos_in_range(nanos: i128) -> (r: bool)
    ensures
        r == unix_nanos_valid(nanos as int),
{
    time::OffsetDateTime::from_unix_timestamp_nanos(nanos).is_ok()
}

// ---------------------------------------------------------------- flate2

/// The bytes a gzip member in `data` decompresses to, if it is a valid one.
pub uninterp spec fn gzip_decompress(data: Seq<u8>) -> Option<Seq<u8>>;

/// `flate2::bufread::GzDecoder::new(data)` read to its end. Claims: the
/// result is the named decompression of `data`.
#[verifier::external_body]
pub(crate) fn gunzip(data: &[u8]) -> (r: Option<Vec<u8>>)
    ensures
        bytes_opt_view(r) == gzip_decompress(data@),
{
    let mut out = Vec::new();
    match flate2::bufread::GzDecoder::new(data).read_to_end(&mut out) {
        Ok(_) => Some(out),
        Err(_) => None,
    }
}

// ---------------------------------------------------------------- url (through reqwest)

/// `reqwest::Url::from_str(text)`, if it parses, as the parsed URL's
/// serialization and whether it has a host.
pub uninterp spec fn url_from_str(text: Seq<char>) -> Option<(Seq<char>, bool)>;

/// A parsed URL: its serialization and whether it has a host.
pub struct ParsedUrl {
    pub text: String,
    pub has_host: bool,
}

/// `reqwest::Url::from_str`, then `to_string` and `has_host` of the result.
/// Claims: the result is the named parse of `text`.
#[verifier::external_body]
pub(crate) fn parse_url(text: &str) -> (r: Option<ParsedUrl>)
    ensures
        match r {
            Some(u) => url_from_str(text@) == Some((u.text@, u.has_host)),
            None => url_from_str(text@) is None,
        },
{
    match reqwest::Url::from_str(text) {
        Ok(url) => Some(ParsedUrl { text: url.to_string(), has_host: url.has_host() }),
        Err(_) => None,
    }
}

} // verus!
