//! What the library takes on trust: the calls into other crates and into parts of std that have
//! no specification. Each item says what it claims of the function behind it.
use base64::Engine;
use rand::Rng;
use vstd::prelude::*;
use vstd::utf8::*;

verus! {

// ---- base64 ----
/// What the standard base64 engine writes for some bytes.
pub uninterp spec fn base64_text(data: Seq<u8>) -> Seq<char>;

/// What the standard base64 engine reads from a text, if it is base64.
pub uninterp spec fn base64_bytes(text: Seq<char>) -> Option<Seq<u8>>;

/// How many characters base64 needs for `n` bytes.
pub open spec fn base64_size(n: nat) -> nat {
    (n + 2) / 3 * 4
}

/// `base64::engine::general_purpose::STANDARD.encode`. The text depends on the bytes alone, and
/// decoding it gives them back.
#[verifier::external_body]
pub(crate) fn base64_encode(data: &[u8]) -> (r: String)
    requires
        base64_size(data@.len()) <= isize::MAX,
    ensures
        r@ == base64_text(data@),
        base64_bytes(r@) == Some(data@),
{
    base64::engine::general_purpose::STANDARD.encode(data)
}

/// `base64::engine::general_purpose::STANDARD.decode`. Whether it succeeds, and with which bytes,
/// depends on the text alone.
#[verifier::external_body]
pub(crate) fn base64_decode(text: &str) -> (r: Option<Vec<u8>>)
    ensures
        match r {
            Some(data) => base64_bytes(text@) == Some(data@),
            None => base64_bytes(text@) is None,
        },
{
    base64::engine::general_purpose::STANDARD.decode(text).ok()
}

// ---- hex ----
/// The lower-case hexadecimal digit of `n`.
pub open spec fn hex_digit_char(n: int) -> char {
    if n < 10 {
        (n as u32 + 48) as char
    } else {
        (n as u32 + 87) as char
    }
}

/// Two lower-case hexadecimal digits for each byte, the higher half first.
pub open spec fn hex_text(data: Seq<u8>) -> Seq<char> {
    Seq::new(
        2 * data.len(),
        |i: int|
            if i % 2 == 0 {
                hex_digit_char(data[i / 2] as int / 16)
            } else {
                hex_digit_char(data[i / 2] as int % 16)
            },
    )
}

/// `hex::encode`: two lower-case digits for each byte.
#[verifier::external_body]
pub(crate) fn hex_encode(data: &[u8]) -> (r: String)
    requires
        2 * data@.len() <= isize::MAX,
    ensures
        r@ == hex_text(data@),
{
    hex::encode(data)
}

// ---- chance ----
/// `rand::thread_rng().gen::<u8>()`. Nothing is claimed of the byte.
#[verifier::external_body]
pub(crate) fn random_byte() -> u8 {
    rand::thread_rng().gen()
}

/// A lower-case hexadecimal digit.
pub open spec fn is_hex_digit(c: char) -> bool {
    '0' <= c <= '9' || 'a' <= c <= 'f'
}

/// The hyphenated lower-case text of a random (version 4) UUID.
pub open spec fn is_uuid(s: Seq<char>) -> bool {
    &&& s.len() == 36
    &&& s[8] == '-' && s[13] == '-' && s[18] == '-' && s[23] == '-'
    &&& s[14] == '4'
    &&& s[19] == '8' || s[19] == '9' || s[19] == 'a' || s[19] == 'b'
    &&& forall|i: int|
        0 <= i < 36 && i != 8 && i != 13 && i != 18 && i != 23 ==> is_hex_digit(#[trigger] s[i])
}

/// `uuid::Uuid::new_v4().to_string()`. Which UUID it is rests on chance; its form does not.
#[verifier::external_body]
pub(crate) fn new_uuid() -> (r: String)
    ensures
        is_uuid(r@),
{
    uuid::Uuid::new_v4().to_string()
}

// ---- media types ----
/// The media type that `mime_guess` gives a path.
pub uninterp spec fn media_type(path: Seq<char>) -> Seq<char>;

/// A path that every system splits in the same way: without what some take for a separator, for the
/// mark of a drive or for the name of a machine.
pub open spec fn splits_alike(path: Seq<char>) -> bool {
    &&& !path.contains('\\')
    &&& !path.contains(':')
    &&& !(path.len() >= 2 && path[0] == '/' && path[1] == '/')
}

/// Whether a media type is that of a path: it depends on the path alone where every system splits
/// the path in the same way, and a path without an extension has the general type.
pub open spec fn is_media_type(kind: Seq<char>, path: Seq<char>) -> bool {
    &&& splits_alike(path) ==> kind == media_type(path)
    &&& !path.contains('.') ==> kind == "application/octet-stream"@
}

/// `mime_guess::from_path(..).first_or_octet_stream()`. The type depends on the extension of the
/// path alone, and is `application/octet-stream` where there is none. Which part of a path is its
/// extension is up to the system where a backslash or a colon occurs, or where the path begins with
/// two slashes: nothing more is claimed then.
#[verifier::external_body]
pub(crate) fn guess_media_type(path: &str) -> (r: String)
    ensures
        splits_alike(path@) ==> r@ == media_type(path@),
        !path@.contains('.') ==> r@ == "application/octet-stream"@,
{
    mime_guess::from_path(path).first_or_octet_stream().as_ref().to_owned()
}

// ---- UTF-8 ----
/// The text that bytes are read as, whatever they hold.
pub uninterp spec fn lossy_text(data: Seq<u8>) -> Seq<char>;

/// `String::from_utf8_lossy`. The text depends on the bytes alone; bytes that are UTF-8 are read as
/// what they encode.
#[verifier::external_body]
pub(crate) fn utf8_lossy(data: &[u8]) -> (r: String)
    ensures
        r@ == lossy_text(data@),
        valid_utf8(data@) ==> r@ == decode_utf8(data@),
{
    String::from_utf8_lossy(data).into_owned()
}

// ---- HTTP headers ----
/// The headers of a request.
#[verifier::external_type_specification]
#[verifier::external_body]
#[verifier::reject_recursive_types(T)]
pub struct ExHeaderMap<T>(axum::http::HeaderMap<T>);

/// The value of a header.
#[verifier::external_type_specification]
#[verifier::external_body]
pub struct ExHeaderValue(axum::http::HeaderValue);

/// For each name that can be asked for, the text of the first value under it, where that value is
/// visible ASCII.
pub uninterp spec fn header_texts(headers: axum::http::HeaderMap) -> Map<Seq<char>, Seq<char>>;

/// `HeaderMap::get` and `HeaderValue::to_str`: the text of the first value under `name`, if there
/// is one and it is visible ASCII.
#[verifier::external_body]
pub(crate) fn header_text(headers: &axum::http::HeaderMap, name: &str) -> (r: Option<String>)
    ensures
        match r {
            Some(t) => header_texts(*headers).contains_key(name@) && t@ == header_texts(
                *headers,
            )[name@],
            None => !header_texts(*headers).contains_key(name@),
        },
{
    headers.get(name).and_then(|v| v.to_str().ok()).map(|s| s.to_owned())
}

// ---- time ----
/// A moment of the monotonic clock.
#[verifier::external_type_specification]
#[verifier::external_body]
pub struct ExInstant(std::time::Instant);

/// A moment of the wall clock.
#[verifier::external_type_specification]
#[verifier::external_body]
pub struct ExSystemTime(std::time::SystemTime);

/// Why one wall-clock time is not after another.
#[verifier::external_type_specification]
#[verifier::external_body]
pub struct ExSystemTimeError(std::time::SystemTimeError);

/// `Instant::now`. Nothing is claimed of it.
pub assume_specification[ std::time::Instant::now ]() -> std::time::Instant
;

/// `Instant::elapsed`. Nothing is claimed of it.
pub assume_specification[ std::time::Instant::elapsed ](i: &std::time::Instant) -> std::time::Duration
;

/// `Duration::as_nanos`. Nothing is claimed of it.
pub assume_specification[ std::time::Duration::as_nanos ](d: &std::time::Duration) -> u128
;

/// `Duration::as_secs`. Nothing is claimed of it.
pub assume_specification[ std::time::Duration::as_secs ](d: &std::time::Duration) -> u64
;

/// `SystemTime::now`. Nothing is claimed of it.
pub assume_specification[ std::time::SystemTime::now ]() -> std::time::SystemTime
;

/// `SystemTime::duration_since`. Nothing is claimed of it.
pub assume_specification[ std::time::SystemTime::duration_since ](
    t: &std::time::SystemTime,
    earlier: std::time::SystemTime,
) -> Result<std::time::Duration, std::time::SystemTimeError>
;

/// The constant `std::time::UNIX_EPOCH`.
#[verifier::external_body]
pub(crate) fn unix_epoch() -> std::time::SystemTime {
    std::time::UNIX_EPOCH
}

} // verus!
