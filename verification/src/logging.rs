//! Whether thoughts are displayed on the standard error stream.

use vstd::prelude::*;

verus! {

/// What `str::to_lowercase` gives: the text with its letters in lower case.
pub uninterp spec fn lowercase(text: Seq<char>) -> Seq<char>;

/// Whether a text is all ASCII.
pub open spec fn is_ascii_text(text: Seq<char>) -> bool {
    forall|i: int| 0 <= i < text.len() ==> #[trigger] text[i] <= '\u{7f}'
}

/// An ASCII character in lower case.
pub open spec fn ascii_lower(c: char) -> char {
    if 'A' <= c <= 'Z' {
        ((c as u8) + 32) as char
    } else {
        c
    }
}

/// `str::to_lowercase`: its result is a function of the text, and on an ASCII
/// text it puts the letters from A to Z in lower case and leaves the rest.
#[verifier::external_body]
fn to_lowercase(text: &str) -> (lower: String)
    ensures
        lower@ == lowercase(text@),
        is_ascii_text(text@) ==> lower@ == text@.map_values(|c: char| ascii_lower(c)),
{
    text.to_lowercase()
}

/// Whether a flag in lower case says yes.
pub fn says_true(lower: &str) -> (yes: bool)
    ensures
        yes == (lower@ == "true"@),
{
    lower.to_string() == "true".to_string()
}

/// What a flag says: yes when it is `true`, in whatever case.
pub open spec fn flag_is_true(value: Seq<char>) -> bool {
    lowercase(value) == "true"@
}

/// Whether the display of thoughts is disabled, by the value of the
/// environment variable `DISABLE_THOUGHT_LOGGING`, if it is set.
pub fn logging_disabled(value: Option<&str>) -> (disabled: bool)
    ensures
        match value {
            Some(text) => disabled == flag_is_true(text@),
            None => !disabled,
        },
        value matches Some(text) ==> is_ascii_text(text@) ==> disabled == (text@.map_values(
            |c: char| ascii_lower(c),
        ) == "true"@),
{
    let text = match value {
        Some(text) => text,
        None => "",
    };
    proof {
        reveal_strlit("");
        reveal_strlit("true");
        assert("true"@.len() == 4);
        assert(value is None ==> is_ascii_text(text@));
    }
    let lower = to_lowercase(text);
    says_true(lower.as_str())
}

/// A flag of ASCII characters says yes exactly when it is the word `true`, with
/// each letter in whatever case.
pub proof fn law_true_counts_in_any_case(text: Seq<char>)
    requires
        is_ascii_text(text),
    ensures
        text.map_values(|c: char| ascii_lower(c)) == "true"@ <==> text.len() == 4 && (text[0] == 't'
            || text[0] == 'T') && (text[1] == 'r' || text[1] == 'R') && (text[2] == 'u' || text[2]
            == 'U') && (text[3] == 'e' || text[3] == 'E'),
{
    reveal_strlit("true");
    let lower = text.map_values(|c: char| ascii_lower(c));
    assert forall|i: int| 0 <= i < text.len() implies #[trigger] lower[i] == ascii_lower(text[i])
        && lower_code(text[i]) == lower[i] as int by {
        lemma_lower(text[i]);
    }
    assert(lower.len() == text.len());
    assert("true"@.len() == 4);
    if text.len() == 4 {
        lemma_lower(text[0]);
        lemma_lower(text[1]);
        lemma_lower(text[2]);
        lemma_lower(text[3]);
        if lower == "true"@ {
            assert(lower[0] == 't' && lower[1] == 'r' && lower[2] == 'u' && lower[3] == 'e');
            assert(lower_code(text[0]) == 't' as int && lower_code(text[1]) == 'r' as int);
            assert(lower_code(text[2]) == 'u' as int && lower_code(text[3]) == 'e' as int);
        }
        if (text[0] == 't' || text[0] == 'T') && (text[1] == 'r' || text[1] == 'R') && (text[2]
            == 'u' || text[2] == 'U') && (text[3] == 'e' || text[3] == 'E') {
            assert(lower =~= "true"@);
        }
    }
}

/// The code of a character in lower case.
spec fn lower_code(c: char) -> int {
    if 'A' <= c <= 'Z' {
        c as int + 32
    } else {
        c as int
    }
}

/// Lower case adds 32 to the code of a letter.
proof fn lemma_lower(c: char)
    ensures
        ascii_lower(c) as int == lower_code(c),
{
}

/// What a flag says goes by its letters in lower case: flags that are alike there
/// say the same, and one that is in lower case already says yes exactly when it is
/// the word `true`.
pub proof fn law_flags_go_by_their_lower_case(a: Seq<char>, b: Seq<char>)
    ensures
        lowercase(a) == lowercase(b) ==> flag_is_true(a) == flag_is_true(b),
        lowercase(a) == a ==> (flag_is_true(a) <==> a == "true"@),
        lowercase(a) == b && lowercase(b) == b ==> (flag_is_true(a) <==> b == "true"@),
{
}

} // verus!
