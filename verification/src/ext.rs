//! Calls into std functions that vstd leaves unspecified and into the outside
//! crates (`url`, `regex`, `chrono`, `sha2`, `sha256`, `uuid`, `base64`). Each item here
//! is trusted: its contract is what the called code's documentation and
//! source show, and nothing more.
use vstd::prelude::*;
use sha2::Digest;
use base64::Engine;

verus! {

// ---------------------------------------------------------------------------
// std: Unicode case mapping and character classes
// ---------------------------------------------------------------------------

/// What `str::to_lowercase` returns for a string with characters `s`.
pub uninterp spec fn lowercase_spec(s: Seq<char>) -> Seq<char>;

/// What `str::to_uppercase` returns for a string with characters `s`.
pub uninterp spec fn uppercase_spec(s: Seq<char>) -> Seq<char>;

/// What `char::is_alphanumeric` returns for `c` (Unicode `Alphabetic` or `Numeric`).
pub uninterp spec fn alphanumeric_spec(c: char) -> bool;

/// What `char::is_alphabetic` returns for `c` (Unicode `Alphabetic`).
pub uninterp spec fn alphabetic_spec(c: char) -> bool;

/// Calls `str::to_lowercase`; the result is named by `lowercase_spec`. Like
/// every `String`, it holds at most `isize::MAX` bytes. No character maps to
/// an ASCII capital, and on ASCII text the mapping is `to_ascii_lowercase`,
/// character by character.
#[verifier::external_body]
pub(crate) fn lowercase(s: &str) -> (r: String)
    ensures
        r@ == lowercase_spec(s@),
        crate::text::utf8_len(r@) <= isize::MAX,
        forall|i: int| 0 <= i < r@.len() ==> !crate::text::is_upper(#[trigger] r@[i]),
        (forall|i: int| 0 <= i < s@.len() ==> (#[trigger] s@[i] as u32) < 128) ==> r@ == s@.map_values(
            |c: char| crate::text::lower_char(c),
        ),
{
    s.to_lowercase()
}

/// Calls `str::to_uppercase`; the result is named by `uppercase_spec`. Like
/// every `String`, it holds at most `isize::MAX` bytes.
#[verifier::external_body]
pub(crate) fn uppercase(s: &str) -> (r: String)
    ensures
        r@ == uppercase_spec(s@),
        crate::text::utf8_len(r@) <= isize::MAX,
{
    s.to_uppercase()
}

/// Calls `char::is_alphanumeric`; the result is named by `alphanumeric_spec`.
/// Among ASCII characters exactly the letters and digits are alphanumeric.
#[verifier::external_body]
pub(crate) fn is_alphanumeric(c: char) -> (b: bool)
    ensures
        b == alphanumeric_spec(c),
        (c as u32) < 128 ==> (b <==> crate::text::is_alnum(c)),
{
    c.is_alphanumeric()
}

/// Calls `char::is_alphabetic`; the result is named by `alphabetic_spec`.
#[verifier::external_body]
pub(crate) fn is_alphabetic(c: char) -> (b: bool)
    ensures
        b == alphabetic_spec(c),
{
    c.is_alphabetic()
}

// ---------------------------------------------------------------------------
// url
// ---------------------------------------------------------------------------

/// The error text of `url::Url::parse` on `s`, or `None` when `s` parses.
pub uninterp spec fn url_parse_error_spec(s: Seq<char>) -> Option<Seq<char>>;

/// Calls `url::Url::parse(s)` and returns the `Display` text of its error, if
/// it fails. Both outcomes are named by `url_parse_error_spec`.
#[verifier::external_body]
pub(crate) fn url_parse_error(s: &str) -> (r: Option<String>)
    ensures
        match r {
            Some(e) => url_parse_error_spec(s@) == Some(e@),
            None => url_parse_error_spec(s@) is None,
        },
{
    match url::Url::parse(s) {
        Ok(_) => None,
        Err(e) => Some(e.to_string()),
    }
}

// ---------------------------------------------------------------------------
// regex
// ---------------------------------------------------------------------------

/// One capture-group match: its text and the byte offset where it starts.
pub struct GroupMatch {
    pub text: String,
    pub start: usize,
}

/// Captures of one match: group 0 (the whole match) first, then each group,
/// `None` where a group took no part in the match.
pub type Captures = Vec<Option<GroupMatch>>;

pub open spec fn group_view(g: Option<GroupMatch>) -> Option<(Seq<char>, usize)> {
    match g {
        Some(m) => Some((m.text@, m.start)),
        None => None,
    }
}

pub open spec fn captures_view(c: Captures) -> Seq<Option<(Seq<char>, usize)>> {
    c@.map_values(|g: Option<GroupMatch>| group_view(g))
}

pub open spec fn all_captures_view(v: Vec<Captures>) -> Seq<Seq<Option<(Seq<char>, usize)>>> {
    v@.map_values(|c: Captures| captures_view(c))
}

/// What `regex::Regex::new(pattern)` followed by `captures_iter(text)` yields:
/// `None` when the pattern does not compile, otherwise the successive
/// non-overlapping matches, leftmost first, with their groups.
pub uninterp spec fn regex_captures_spec(pattern: Seq<char>, text: Seq<char>) -> Option<
    Seq<Seq<Option<(Seq<char>, usize)>>>,
>;

/// Compiles `pattern` with `regex::Regex::new` and collects
/// `captures_iter(text)`, each group as its text and start offset. The
/// result is named by `regex_captures_spec`.
#[verifier::external_body]
pub(crate) fn regex_captures(pattern: &str, text: &str) -> (r: Option<Vec<Captures>>)
    ensures
        match r {
            Some(v) => regex_captures_spec(pattern@, text@) == Some(all_captures_view(v)),
            None => regex_captures_spec(pattern@, text@) is None,
        },
{
    let re = regex::Regex::new(pattern).ok()?;
    Some(
        re.captures_iter(text).map(
            |c| c.iter().map(|m| m.map(|m| GroupMatch { text: m.as_str().to_string(), start: m.start() })).collect(),
        ).collect(),
    )
}

/// The characters that `regex::escape` puts a backslash before.
pub open spec fn is_regex_meta(c: char) -> bool {
    c == '\\' || c == '.' || c == '+' || c == '*' || c == '?' || c == '(' || c == ')' || c == '|' || c == '['
        || c == ']' || c == '{' || c == '}' || c == '^' || c == '$' || c == '#' || c == '&' || c == '-' || c == '~'
}

/// What `regex::escape(s)` returns: `s` with a backslash before each meta
/// character.
pub open spec fn regex_escape_spec(s: Seq<char>) -> Seq<char>
    decreases s.len(),
{
    if s.len() == 0 {
        Seq::empty()
    } else if is_regex_meta(s.last()) {
        regex_escape_spec(s.drop_last()).push('\\').push(s.last())
    } else {
        regex_escape_spec(s.drop_last()).push(s.last())
    }
}

/// Calls `regex::escape`, which puts a backslash before each of the meta
/// characters (backslash and `. + * ? ( ) | [ ] { } ^ $ # & - ~`) and copies
/// the others.
#[verifier::external_body]
pub(crate) fn regex_escape(s: &str) -> (r: String)
    ensures
        r@ == regex_escape_spec(s@),
{
    regex::escape(s)
}

// ---------------------------------------------------------------------------
// chrono
// ---------------------------------------------------------------------------

/// The UTC epoch seconds of `chrono::NaiveDateTime::parse_from_str(value, fmt)`,
/// or `None` when parsing fails.
pub uninterp spec fn datetime_epoch_spec(value: Seq<char>, fmt: Seq<char>) -> Option<i64>;

/// Calls `NaiveDateTime::parse_from_str(value, fmt)` and, on success,
/// `and_utc().timestamp()`. The result is named by `datetime_epoch_spec`.
#[verifier::external_body]
pub(crate) fn datetime_epoch(value: &str, fmt: &str) -> (r: Option<i64>)
    ensures
        r == datetime_epoch_spec(value@, fmt@),
{
    chrono::NaiveDateTime::parse_from_str(value, fmt).ok().map(|dt| dt.and_utc().timestamp())
}

// ---------------------------------------------------------------------------
// SHA-256 (sha2 and sha256)
// ---------------------------------------------------------------------------

pub open spec fn is_lower_hex(c: char) -> bool {
    ('0' <= c && c <= '9') || ('a' <= c && c <= 'f')
}

/// Lower-case hex of the SHA-256 digest of the UTF-8 bytes of `s`, as the
/// `sha2` crate's `Sha256` hasher gives it through `{:x}`.
pub uninterp spec fn sha2_hex_spec(s: Seq<char>) -> Seq<char>;

/// Hashes the bytes of `s` with `sha2::Sha256` and formats the digest with
/// `{:x}`. The result is named by `sha2_hex_spec`; it is 64 lower-case hex
/// digits (32 bytes, two digits each).
#[verifier::external_body]
pub(crate) fn sha2_hex(s: &str) -> (r: String)
    ensures
        r@ == sha2_hex_spec(s@),
        r@.len() == 64,
        forall|i: int| 0 <= i < 64 ==> is_lower_hex(#[trigger] r@[i]),
{
    let mut hasher = sha2::Sha256::new();
    hasher.update(s.as_bytes());
    format!("{:x}", hasher.finalize())
}

/// What `sha256::digest(s)` returns.
pub uninterp spec fn sha256_digest_spec(s: Seq<char>) -> Seq<char>;

/// Calls `sha256::digest`, which hex-encodes the SHA-256 digest of the bytes
/// of `s`. The result is named by `sha256_digest_spec`; it is 64 lower-case
/// hex digits.
#[verifier::external_body]
pub(crate) fn sha256_digest(s: &str) -> (r: String)
    ensures
        r@ == sha256_digest_spec(s@),
        r@.len() == 64,
        forall|i: int| 0 <= i < 64 ==> is_lower_hex(#[trigger] r@[i]),
{
    sha256::digest(s)
}

// ---------------------------------------------------------------------------
// Debug formatting (std)
// ---------------------------------------------------------------------------

/// What `format!("{:?}", v)` writes for a list of strings with characters `v`.
pub uninterp spec fn debug_strings_spec(v: Seq<Seq<char>>) -> Seq<char>;

/// Formats a list of strings with `{:?}`; the result is named by
/// `debug_strings_spec`.
#[verifier::external_body]
pub(crate) fn debug_strings(v: &Vec<String>) -> (r: String)
    ensures
        r@ == debug_strings_spec(crate::text::views(v@)),
{
    format!("{:?}", v)
}

/// What `format!("{:?}", s)` writes for a string with characters `s`.
pub uninterp spec fn debug_str_spec(s: Seq<char>) -> Seq<char>;

/// Formats a string with `{:?}`; the result is named by `debug_str_spec`.
#[verifier::external_body]
pub(crate) fn debug_str(s: &str) -> (r: String)
    ensures
        r@ == debug_str_spec(s@),
{
    format!("{:?}", s)
}

// ---------------------------------------------------------------------------
// Integer parsing (std)
// ---------------------------------------------------------------------------

/// The text of the `ParseIntError` that `str::parse::<u64>` gives for `s`.
pub uninterp spec fn parse_u64_error_spec(s: Seq<char>) -> Seq<char>;

/// Calls `str::parse::<u64>`: an optional `+` then decimal digits whose
/// value fits. On failure the error's `Display` text, named by
/// `parse_u64_error_spec`.
#[verifier::external_body]
pub(crate) fn parse_u64_std(s: &str) -> (r: Result<u64, String>)
    ensures
        match r {
            Ok(n) => crate::text::parse_u64(s@) == Some(n),
            Err(e) => crate::text::parse_u64(s@) is None && e@ == parse_u64_error_spec(s@),
        },
{
    s.parse::<u64>().map_err(|e| e.to_string())
}

// ---------------------------------------------------------------------------
// uuid
// ---------------------------------------------------------------------------

/// The hyphenated lower-case form that `Uuid`'s `Display` writes: 36
/// characters, hyphens at 8, 13, 18 and 23, lower-case hex digits elsewhere.
pub open spec fn is_hyphenated_uuid(s: Seq<char>) -> bool {
    &&& s.len() == 36
    &&& forall|i: int|
        0 <= i < 36 ==> if i == 8 || i == 13 || i == 18 || i == 23 {
            #[trigger] s[i] == '-'
        } else {
            is_lower_hex(s[i])
        }
}

/// Calls `uuid::Uuid::new_v4().to_string()`. The value is random; every
/// outcome is in the hyphenated lower-case form.
#[verifier::external_body]
pub(crate) fn new_uuid_v4() -> (r: String)
    ensures
        is_hyphenated_uuid(r@),
{
    uuid::Uuid::new_v4().to_string()
}

// ---------------------------------------------------------------------------
// base64
// ---------------------------------------------------------------------------

/// What the standard base64 engine writes for the UTF-8 bytes of `s`.
pub uninterp spec fn base64_spec(s: Seq<char>) -> Seq<char>;

/// Encodes the bytes of `s` with `base64::engine::general_purpose::STANDARD`
/// (padded, standard alphabet). The result is named by `base64_spec`.
#[verifier::external_body]
pub(crate) fn base64_encode(s: &str) -> (r: String)
    ensures
        r@ == base64_spec(s@),
{
    base64::engine::general_purpose::STANDARD.encode(s)
}

/// The text that base64 `s` encodes: its bytes decoded with the standard
/// engine and read as UTF-8; `None` when either step fails.
pub uninterp spec fn base64_text_spec(s: Seq<char>) -> Option<Seq<char>>;

/// Decodes `s` with `base64::engine::general_purpose::STANDARD` and reads
/// the bytes with `String::from_utf8`. The result is named by
/// `base64_text_spec`.
#[verifier::external_body]
pub(crate) fn base64_decode_text(s: &str) -> (r: Option<String>)
    ensures
        match r {
            Some(t) => base64_text_spec(s@) == Some(t@),
            None => base64_text_spec(s@) is None,
        },
{
    let bytes = base64::engine::general_purpose::STANDARD.decode(s).ok()?;
    String::from_utf8(bytes).ok()
}

} // verus!
