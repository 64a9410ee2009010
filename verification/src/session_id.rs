//! Session ids: which ones are safe as directory names, and how new ones are
//! made.

use crate::string_utils::decimal_text;
use vstd::prelude::*;
use vstd::utf8::*;

verus! {

/// Most bytes that a session id may have.
pub const MAX_SESSION_ID_BYTES: usize = 255;

/// What `char::is_alphanumeric` says of a character: whether it has the
/// Unicode property `Alphabetic` or is a number.
pub uninterp spec fn alphanumeric(c: char) -> bool;

/// Whether a character is an ASCII letter or digit.
pub open spec fn ascii_alphanumeric(c: char) -> bool {
    ||| '0' <= c <= '9'
    ||| 'A' <= c <= 'Z'
    ||| 'a' <= c <= 'z'
}

/// `char::is_alphanumeric`: its result is a function of the character, and
/// among the ASCII characters it holds of exactly the letters and digits.
#[verifier::external_body]
fn is_alphanumeric(c: char) -> (result: bool)
    ensures
        result == alphanumeric(c),
        c <= '\u{7f}' ==> result == ascii_alphanumeric(c),
{
    c.is_alphanumeric()
}

/// Whether a session id may hold a character: alphanumerics, hyphens and
/// underscores.
pub open spec fn is_id_char(c: char) -> bool {
    ||| c == '_'
    ||| c == '-'
    ||| if c <= '\u{7f}' {
        ascii_alphanumeric(c)
    } else {
        alphanumeric(c)
    }
}

/// Whether every character of a text may stand in a session id.
pub open spec fn all_id_chars(text: Seq<char>) -> bool {
    forall|i: int| 0 <= i < text.len() ==> is_id_char(#[trigger] text[i])
}

/// Why a session id is refused.
#[derive(Debug, Clone, Copy, PartialEq, Eq)]
pub enum SessionIdError {
    /// It holds a character other than alphanumerics, hyphens and underscores.
    InvalidCharacters,
    /// It is empty.
    Empty,
    /// It has too many bytes.
    TooLong { len: usize },
}

/// Why a session id is refused, given whether all its characters are allowed.
pub open spec fn id_problem(text: Seq<char>, chars_allowed: bool) -> Option<SessionIdError> {
    if !chars_allowed {
        Some(SessionIdError::InvalidCharacters)
    } else if text.len() == 0 {
        Some(SessionIdError::Empty)
    } else if encode_utf8(text).len() > MAX_SESSION_ID_BYTES {
        Some(SessionIdError::TooLong { len: encode_utf8(text).len() as usize })
    } else {
        None
    }
}

/// Whether a session id is accepted.
pub open spec fn is_safe_id(text: Seq<char>) -> bool {
    &&& all_id_chars(text)
    &&& text.len() > 0
    &&& encode_utf8(text).len() <= MAX_SESSION_ID_BYTES
}

/// The text of a refusal.
pub open spec fn refusal_text(error: SessionIdError, session_id: Seq<char>) -> Seq<char> {
    match error {
        SessionIdError::InvalidCharacters => "Invalid session_id '"@ + session_id
            + "': must contain only alphanumeric characters, hyphens, and underscores"@,
        SessionIdError::Empty => "session_id cannot be empty"@,
        SessionIdError::TooLong { len } => "session_id too long (max 255 characters, got "@
            + crate::string_utils::decimal(len as nat) + ")"@,
    }
}

impl SessionIdError {
    /// The text of the refusal of a session id.
    pub fn message(&self, session_id: &str) -> (text: String)
        ensures
            text@ == refusal_text(*self, session_id@),
    {
        match self {
            SessionIdError::InvalidCharacters => {
                let mut text = "Invalid session_id '".to_string();
                text.append(session_id);
                text.append(
                    "': must contain only alphanumeric characters, hyphens, and underscores",
                );
                text
            },
            SessionIdError::Empty => "session_id cannot be empty".to_string(),
            SessionIdError::TooLong { len } => {
                let mut text = "session_id too long (max 255 characters, got ".to_string();
                text.append(decimal_text(*len as u128).as_str());
                text.append(")");
                text
            },
        }
    }
}

/// Whether every character of a text may stand in a session id.
fn has_only_id_chars(text: &str) -> (result: bool)
    ensures
        result == all_id_chars(text@),
{
    let mut chars = text.chars();
    let n: usize = text.unicode_len();
    let mut seen: usize = 0;
    let ghost whole = text@;
    while seen < n
        invariant
            n == whole.len(),
            seen <= n,
            vstd::std_specs::iter::IteratorSpec::remaining(&chars) == whole.skip(seen as int),
            forall|i: int| 0 <= i < seen ==> is_id_char(#[trigger] whole[i]),
            whole == text@,
        decreases n - seen,
    {
        if let Some(c) = chars.next() {
            assert(c == whole[seen as int]);
            if !(is_alphanumeric(c) || c == '_' || c == '-') {
                return false;
            }
            assert(whole.skip(seen as int).drop_first() =~= whole.skip(seen + 1));
        }
        seen = seen + 1;
    }
    true
}

/// Decides on a session id, given whether all its characters are allowed.
pub fn check_session_id(session_id: &str, chars_allowed: bool) -> (result: Result<
    String,
    SessionIdError,
>)
    ensures
        match result {
            Ok(id) => id@ == session_id@ && id_problem(session_id@, chars_allowed) is None,
            Err(error) => id_problem(session_id@, chars_allowed) == Some(error),
        },
{
    if !chars_allowed {
        return Err(SessionIdError::InvalidCharacters);
    }
    if session_id.is_empty() {
        return Err(SessionIdError::Empty);
    }
    let len: usize = session_id.as_bytes().len();
    if len > MAX_SESSION_ID_BYTES {
        return Err(SessionIdError::TooLong { len });
    }
    Ok(session_id.to_string())
}

/// Sanitizes a session id, so that it names a directory below the store and
/// nothing else: only alphanumeric characters, hyphens and underscores, at
/// least one of them, and no more than fit into a file name.
pub fn sanitize_session_id(session_id: &str) -> (result: Result<String, SessionIdError>)
    ensures
        match result {
            Ok(id) => id@ == session_id@ && is_safe_id(session_id@),
            Err(error) => !is_safe_id(session_id@) && id_problem(
                session_id@,
                all_id_chars(session_id@),
            ) == Some(error),
        },
{
    check_session_id(session_id, has_only_id_chars(session_id))
}

/// An accepted session id is a plain name: it holds no path separator and no
/// dot, so joined to a directory it can only name an entry of that directory.
pub proof fn law_safe_ids_are_plain_names(text: Seq<char>)
    requires
        is_safe_id(text),
    ensures
        !text.contains('/'),
        !text.contains('\\'),
        !text.contains('.'),
        !text.contains('\0'),
        crate::path::is_name(text),
{
    assert forall|i: int| 0 <= i < text.len() implies text[i] != '/' && text[i] != '\\' && text[i]
        != '.' && text[i] != '\0' by {
        assert(is_id_char(text[i]));
    }
    assert(text != crate::path::root_part()) by {
        assert(crate::path::root_part()[0] == '/');
        assert(text[0] != '/');
    }
    assert(text[0] != '.');
}

/// The version number of a UUID.
pub open spec fn uuid_version(bits: u128) -> u128 {
    (bits >> 76) & 0xf
}

/// The variant bits of a UUID.
pub open spec fn uuid_variant(bits: u128) -> u128 {
    (bits >> 62) & 0x3
}

/// The hexadecimal digits.
pub open spec fn hex_char(d: int) -> char {
    seq!['0', '1', '2', '3', '4', '5', '6', '7', '8', '9', 'a', 'b', 'c', 'd', 'e', 'f'][d]
}

/// How many hyphens stand before a place in a hyphenated UUID.
pub open spec fn hyphens_before(i: int) -> int {
    if i <= 8 {
        0
    } else if i <= 13 {
        1
    } else if i <= 18 {
        2
    } else if i <= 23 {
        3
    } else {
        4
    }
}

/// The `k`-th hexadecimal digit of a UUID, from the most significant one.
pub open spec fn uuid_digit(bits: u128, k: int) -> int {
    ((bits >> ((4 * (31 - k)) as u128)) & 0xf) as int
}

/// A UUID in its hyphenated form.
pub open spec fn uuid_chars(bits: u128) -> Seq<char> {
    Seq::new(
        36,
        |i: int|
            if i == 8 || i == 13 || i == 18 || i == 23 {
                '-'
            } else {
                hex_char(uuid_digit(bits, i - hyphens_before(i)))
            },
    )
}

/// `uuid::Uuid::new_v4`, as a number: random bits, but for the version number
/// 4 and the variant bits of RFC 4122.
#[verifier::external_body]
fn random_uuid() -> (bits: u128)
    ensures
        uuid_version(bits) == 4,
        uuid_variant(bits) == 2,
{
    uuid::Uuid::new_v4().as_u128()
}

/// `uuid::Uuid::to_string`, of the UUID with the given bits: 32 lower-case
/// hexadecimal digits, most significant first, with hyphens after the 8th,
/// 12th, 16th and 20th.
#[verifier::external_body]
fn uuid_text(bits: u128) -> (text: String)
    ensures
        text@ == uuid_chars(bits),
{
    uuid::Uuid::from_u128(bits).to_string()
}

/// The session id with the given bits: a UUID in its hyphenated form.
pub fn session_id_from_bits(bits: u128) -> (id: String)
    ensures
        id@ == uuid_chars(bits),
        is_safe_id(id@),
{
    proof {
        law_uuids_are_safe_ids(bits);
    }
    uuid_text(bits)
}

/// Generates a unique session id: a random UUID.
pub fn generate_session_id() -> (id: String)
    ensures
        exists|bits: u128|
            uuid_version(bits) == 4 && uuid_variant(bits) == 2 && id@ == #[trigger] uuid_chars(
                bits,
            ),
        is_safe_id(id@),
{
    let bits: u128 = random_uuid();
    session_id_from_bits(bits)
}

/// The session id to use: the one that was asked for, or a new one.
pub fn session_id_or_new(session_id: Option<String>) -> (id: String)
    ensures
        match session_id {
            Some(given) => id == given,
            None => is_safe_id(id@) && exists|bits: u128|
                uuid_version(bits) == 4 && uuid_variant(bits) == 2 && id@ == #[trigger] uuid_chars(
                    bits,
                ),
        },
{
    match session_id {
        Some(id) => id,
        None => generate_session_id(),
    }
}

/// Every UUID in its hyphenated form is an accepted session id.
pub proof fn law_uuids_are_safe_ids(bits: u128)
    ensures
        is_safe_id(uuid_chars(bits)),
{
    let text = uuid_chars(bits);
    assert forall|i: int| 0 <= i < text.len() implies is_id_char(#[trigger] text[i]) && text[i]
        <= '\u{7f}' by {
        if i == 8 || i == 13 || i == 18 || i == 23 {
            assert(text[i] == '-');
        } else {
            let shift = (4 * (31 - (i - hyphens_before(i)))) as u128;
            assert((bits >> shift) & 0xf <= 15) by (bit_vector);
            lemma_hex_chars(uuid_digit(bits, i - hyphens_before(i)));
        }
    }
    assert(is_ascii_chars(text));
    is_ascii_chars_encode_utf8(text);
}

/// Hexadecimal digits are ASCII letters and digits.
proof fn lemma_hex_chars(d: int)
    requires
        0 <= d < 16,
    ensures
        ascii_alphanumeric(hex_char(d)),
        hex_char(d) <= '\u{7f}',
{
    let digits =
        seq!['0', '1', '2', '3', '4', '5', '6', '7', '8', '9', 'a', 'b', 'c', 'd', 'e', 'f'];
    assert(digits[d] == digits[0] || digits[d] == digits[1] || digits[d] == digits[2] || digits[d]
        == digits[3] || digits[d] == digits[4] || digits[d] == digits[5] || digits[d] == digits[6]
        || digits[d] == digits[7] || digits[d] == digits[8] || digits[d] == digits[9] || digits[d]
        == digits[10] || digits[d] == digits[11] || digits[d] == digits[12] || digits[d]
        == digits[13] || digits[d] == digits[14] || digits[d] == digits[15]);
}

/// Of the ASCII characters a session id may hold exactly the letters, the digits,
/// the hyphen and the underscore; of the others, the alphanumeric ones.
pub proof fn law_ids_hold_letters_digits_and_dashes(c: char)
    ensures
        c <= '\u{7f}' ==> (is_id_char(c) <==> ('a' <= c <= 'z') || ('A' <= c <= 'Z') || ('0' <= c
            <= '9') || c == '-' || c == '_'),
        c > '\u{7f}' ==> (is_id_char(c) <==> alphanumeric(c)),
{
}

/// A session id is accepted exactly when it is not empty, has at most 255 bytes,
/// and every one of its characters is allowed.
pub proof fn law_ids_are_accepted_by_size_and_characters(text: Seq<char>)
    ensures
        is_safe_id(text) <==> 1 <= text.len() && encode_utf8(text).len() <= 255 && (forall|i: int|
            0 <= i < text.len() ==> is_id_char(#[trigger] text[i])),
        id_problem(text, all_id_chars(text)) is None <==> is_safe_id(text),
        all_id_chars(text) <==> (forall|i: int|
            0 <= i < text.len() ==> is_id_char(#[trigger] text[i])),
{
}

/// A refused id is refused for its characters first, then for being empty, then
/// for its bytes, which are counted.
pub proof fn law_ids_are_refused_with_a_reason(text: Seq<char>, chars_allowed: bool)
    ensures
        !chars_allowed ==> id_problem(text, chars_allowed) == Some(
            SessionIdError::InvalidCharacters,
        ),
        chars_allowed && text.len() == 0 ==> id_problem(text, chars_allowed) == Some(
            SessionIdError::Empty,
        ),
        chars_allowed && text.len() > 0 && encode_utf8(text).len() > 255 ==> id_problem(
            text,
            chars_allowed,
        ) == Some((SessionIdError::TooLong { len: encode_utf8(text).len() as usize })),
        chars_allowed && text.len() > 0 && encode_utf8(text).len() <= 255 ==> id_problem(
            text,
            chars_allowed,
        ) is None,
{
}

/// The texts of refusals name the id, or its length.
pub proof fn law_refusals_name_the_id(session_id: Seq<char>, len: usize)
    ensures
        refusal_text(SessionIdError::InvalidCharacters, session_id) == "Invalid session_id '"@
            + session_id
            + "': must contain only alphanumeric characters, hyphens, and underscores"@,
        refusal_text(SessionIdError::Empty, session_id) == "session_id cannot be empty"@,
        refusal_text(SessionIdError::TooLong { len }, session_id)
            == "session_id too long (max 255 characters, got "@ + crate::string_utils::decimal(
            len as nat,
        ) + ")"@,
{
}

/// A UUID has 36 characters: hyphens in their four places, and lower-case
/// hexadecimal digits everywhere else. A random one shows its version and its
/// variant.
pub proof fn law_uuids_look_like_uuids(bits: u128, i: int)
    requires
        0 <= i < 36,
    ensures
        ({
            let text = uuid_chars(bits);
            &&& text.len() == 36
            &&& i == 8 || i == 13 || i == 18 || i == 23 <==> text[i] == '-'
            &&& !(i == 8 || i == 13 || i == 18 || i == 23) ==> ('0' <= text[i] <= '9') || ('a'
                <= text[i] <= 'f')
            &&& uuid_version(bits) == 4 ==> text[14] == '4'
            &&& uuid_variant(bits) == 2 ==> text[19] == '8' || text[19] == '9' || text[19] == 'a'
                || text[19] == 'b'
        }),
{
    let text = uuid_chars(bits);
    let digits =
        seq!['0', '1', '2', '3', '4', '5', '6', '7', '8', '9', 'a', 'b', 'c', 'd', 'e', 'f'];
    if !(i == 8 || i == 13 || i == 18 || i == 23) {
        let shift = (4 * (31 - (i - hyphens_before(i)))) as u128;
        assert((bits >> shift) & 0xf <= 15) by (bit_vector);
        let d = uuid_digit(bits, i - hyphens_before(i));
        assert(digits[d] == digits[0] || digits[d] == digits[1] || digits[d] == digits[2]
            || digits[d] == digits[3] || digits[d] == digits[4] || digits[d] == digits[5]
            || digits[d] == digits[6] || digits[d] == digits[7] || digits[d] == digits[8]
            || digits[d] == digits[9] || digits[d] == digits[10] || digits[d] == digits[11]
            || digits[d] == digits[12] || digits[d] == digits[13] || digits[d] == digits[14]
            || digits[d] == digits[15]);
    }
    assert(uuid_digit(bits, 12) == ((bits >> 76u128) & 0xf) as int);
    assert(uuid_digit(bits, 16) == ((bits >> 60u128) & 0xf) as int);
    assert(digits[4] == '4' && digits[8] == '8' && digits[9] == '9' && digits[10] == 'a'
        && digits[11] == 'b');
    if uuid_variant(bits) == 2 {
        assert((bits >> 60u128) & 0xf == 8 || (bits >> 60u128) & 0xf == 9 || (bits >> 60u128) & 0xf
            == 10 || (bits >> 60u128) & 0xf == 11) by (bit_vector)
            requires
                (bits >> 62) & 0x3 == 2,
        ;
    }
}

/// The digits of a UUID stand in their order, most significant first, in groups of
/// 8, 4, 4, 4 and 12.
pub proof fn law_uuid_digits_stand_in_their_order(bits: u128, k: int)
    requires
        0 <= k < 32,
    ensures
        ({
            let text = uuid_chars(bits);
            let digit = hex_char(uuid_digit(bits, k));
            &&& k < 8 ==> text[k] == digit
            &&& 8 <= k < 12 ==> text[k + 1] == digit
            &&& 12 <= k < 16 ==> text[k + 2] == digit
            &&& 16 <= k < 20 ==> text[k + 3] == digit
            &&& 20 <= k ==> text[k + 4] == digit
        }),
{
}

} // verus!
