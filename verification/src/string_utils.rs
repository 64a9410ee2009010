//! UTF-8-safe string truncation and number formatting.

use vstd::prelude::*;
use vstd::utf8::*;

verus! {

/// Whether a character is white space: the Unicode property `White_Space`.
pub open spec fn is_white_space(c: char) -> bool {
    ||| '\u{9}' <= c <= '\u{d}'
    ||| c == ' '
    ||| c == '\u{85}'
    ||| c == '\u{a0}'
    ||| c == '\u{1680}'
    ||| '\u{2000}' <= c <= '\u{200a}'
    ||| c == '\u{2028}'
    ||| c == '\u{2029}'
    ||| c == '\u{202f}'
    ||| c == '\u{205f}'
    ||| c == '\u{3000}'
}

/// Whether a character is ASCII punctuation.
pub open spec fn is_punctuation(c: char) -> bool {
    ||| '!' <= c <= '/'
    ||| ':' <= c <= '@'
    ||| '[' <= c <= '`'
    ||| '{' <= c <= '~'
}

/// Whether a character ends a word.
pub open spec fn is_word_end(c: char) -> bool {
    is_white_space(c) || is_punctuation(c)
}

/// The index of the last character of `window` that ends a word.
pub open spec fn last_word_end(window: Seq<char>) -> Option<nat>
    decreases window.len(),
{
    if window.len() == 0 {
        None
    } else if is_word_end(window.last()) {
        Some((window.len() - 1) as nat)
    } else {
        last_word_end(window.drop_last())
    }
}

/// The first `max_chars` characters of `s`, or all of it when it is shorter.
pub open spec fn leading(s: Seq<char>, max_chars: nat) -> Seq<char> {
    if max_chars < s.len() {
        s.take(max_chars as int)
    } else {
        s
    }
}

/// How many characters of `s` a truncation to `max_chars` keeps.
pub open spec fn kept_chars(s: Seq<char>, max_chars: nat) -> nat {
    match last_word_end(leading(s, max_chars)) {
        Some(i) => i,
        None => leading(s, max_chars).len(),
    }
}

/// `last_word_end` is the largest index of a character that ends a word.
pub proof fn lemma_last_word_end(window: Seq<char>)
    ensures
        match last_word_end(window) {
            Some(i) => {
                &&& i < window.len()
                &&& is_word_end(window[i as int])
                &&& forall|j: int| i < j < window.len() ==> !is_word_end(#[trigger] window[j])
            },
            None => forall|j: int| 0 <= j < window.len() ==> !is_word_end(#[trigger] window[j]),
        },
    decreases window.len(),
{
    if window.len() > 0 && !is_word_end(window.last()) {
        lemma_last_word_end(window.drop_last());
        assert forall|j: int|
            0 <= j < window.len() && (last_word_end(window) matches Some(i) ==> i
                < j) implies !is_word_end(#[trigger] window[j]) by {
            if j < window.len() - 1 {
                assert(window.drop_last()[j] == window[j]);
            }
        }
    }
}

/// Text encodes piece by piece.
pub proof fn lemma_encode_concat(a: Seq<char>, b: Seq<char>)
    ensures
        encode_utf8(a + b) == encode_utf8(a) + encode_utf8(b),
    decreases a.len(),
{
    if a.len() == 0 {
        assert(a + b =~= b);
        assert(encode_utf8(a) + encode_utf8(b) =~= encode_utf8(b));
    } else {
        assert((a + b).drop_first() =~= a.drop_first() + b);
        lemma_encode_concat(a.drop_first(), b);
        assert(encode_utf8(a + b) =~= encode_utf8(a) + encode_utf8(b));
    }
}

/// Equal bytes are equal text.
pub proof fn lemma_encode_injective(a: Seq<char>, b: Seq<char>)
    requires
        encode_utf8(a) == encode_utf8(b),
    ensures
        a == b,
{
    encode_utf8_decode_utf8(a);
    encode_utf8_decode_utf8(b);
}

/// The bytes of the first `n` characters end at a character boundary.
pub proof fn lemma_prefix_boundary(s: Seq<char>, n: int)
    requires
        0 <= n <= s.len(),
    ensures
        is_char_boundary(encode_utf8(s), encode_utf8(s.take(n)).len() as int),
        encode_utf8(s.take(n)).len() <= encode_utf8(s).len(),
        encode_utf8(s).subrange(0, encode_utf8(s.take(n)).len() as int) == encode_utf8(s.take(n)),
    decreases s.len(),
{
    assert(s =~= s.take(n) + s.skip(n));
    lemma_encode_concat(s.take(n), s.skip(n));
    assert(encode_utf8(s).subrange(0, encode_utf8(s.take(n)).len() as int) =~= encode_utf8(
        s.take(n),
    ));
    encode_utf8_valid_utf8(s);
    if n > 0 {
        encode_utf8_first_scalar(s);
        lemma_prefix_boundary(s.drop_first(), n - 1);
        assert(s.take(n).drop_first() =~= s.drop_first().take(n - 1));
        assert(pop_first_scalar(encode_utf8(s)) =~= encode_utf8(s.drop_first()));
        assert(s.take(n)[0] == s[0]);
    }
}

/// The number of bytes of a character.
fn char_bytes(c: char) -> (n: usize)
    ensures
        n == encode_utf8(seq![c]).len(),
        1 <= n <= 4,
{
    proof {
        char_is_scalar(c);
        assert(seq![c].drop_first() =~= Seq::<char>::empty());
        assert(encode_utf8(seq![c].drop_first()).len() == 0);
    }
    let code: u32 = c as u32;
    if code < 0x80 {
        1
    } else if code < 0x800 {
        2
    } else if code < 0x1_0000 {
        3
    } else {
        4
    }
}

/// Whether a character ends a word: it is white space or ASCII punctuation.
pub fn ends_word(c: char) -> (result: bool)
    ensures
        result == is_word_end(c),
{
    ('\u{9}' <= c && c <= '\u{d}') || c == ' ' || c == '\u{85}' || c == '\u{a0}' || c == '\u{1680}'
        || ('\u{2000}' <= c && c <= '\u{200a}') || c == '\u{2028}' || c == '\u{2029}' || c
        == '\u{202f}' || c == '\u{205f}' || c == '\u{3000}' || ('!' <= c && c <= '/') || (':' <= c
        && c <= '@') || ('[' <= c && c <= '`') || ('{' <= c && c <= '~')
}

/// Finds a safe byte index for truncation, preferring word boundaries.
///
/// Returns the byte index of the last white space or punctuation within the
/// first `max_chars` characters. If there is none, returns the byte index of
/// the `max_chars`-th character (or the string's length if it is shorter).
pub fn safe_truncate_word_boundary(s: &str, max_chars: usize) -> (index: usize)
    ensures
        index == encode_utf8(s@.take(kept_chars(s@, max_chars as nat) as int)).len(),
        kept_chars(s@, max_chars as nat) <= s@.len(),
        is_char_boundary(encode_utf8(s@), index as int),
{
    let byte_len: usize = s.as_bytes().len();
    let mut chars = s.chars();
    let mut seen: usize = 0;
    let mut at: usize = 0;
    let mut found: Option<usize> = None;
    let ghost text = s@;
    assert(text.take(0) =~= Seq::<char>::empty());
    while seen < max_chars
        invariant
            seen <= max_chars,
            seen <= text.len(),
            byte_len == encode_utf8(text).len(),
            at == encode_utf8(text.take(seen as int)).len(),
            vstd::std_specs::iter::IteratorSpec::remaining(&chars) == text.skip(seen as int),
            match found {
                Some(b) => last_word_end(text.take(seen as int)) matches Some(i) && b
                    == encode_utf8(text.take(i as int)).len(),
                None => last_word_end(text.take(seen as int)) is None,
            },
        ensures
            seen <= max_chars,
            seen <= text.len(),
            seen < max_chars ==> seen == text.len(),
            at == encode_utf8(text.take(seen as int)).len(),
            match found {
                Some(b) => last_word_end(text.take(seen as int)) matches Some(i) && b
                    == encode_utf8(text.take(i as int)).len(),
                None => last_word_end(text.take(seen as int)) is None,
            },
        decreases max_chars - seen,
    {
        match chars.next() {
            Some(c) => {
                proof {
                    let before = text.take(seen as int);
                    let after = text.take(seen + 1);
                    assert(after =~= before + seq![c]);
                    assert(after.drop_last() =~= before);
                    lemma_encode_concat(before, seq![c]);
                    lemma_prefix_boundary(text, seen + 1);
                    assert(text.skip(seen as int).drop_first() =~= text.skip(seen + 1));
                }
                if ends_word(c) {
                    found = Some(at);
                }
                at = at + char_bytes(c);
                seen = seen + 1;
            },
            None => {
                break;
            },
        }
    }
    proof {
        let window = leading(text, max_chars as nat);
        assert(window =~= text.take(seen as int));
        lemma_last_word_end(window);
        lemma_prefix_boundary(text, kept_chars(text, max_chars as nat) as int);
    }
    match found {
        Some(b) => b,
        None => at,
    }
}

/// The decimal digits.
pub open spec fn digit_char(d: nat) -> char {
    seq!['0', '1', '2', '3', '4', '5', '6', '7', '8', '9'][d as int]
}

/// A number in decimal notation.
pub open spec fn decimal(n: nat) -> Seq<char>
    decreases n,
{
    if n < 10 {
        seq![digit_char(n)]
    } else {
        decimal(n / 10).push(digit_char(n % 10))
    }
}

/// One decimal digit as text.
fn digit_text(d: u128) -> (text: &'static str)
    requires
        d < 10,
    ensures
        text@ == seq![digit_char(d as nat)],
{
    proof {
        reveal_strlit("0");
        reveal_strlit("1");
        reveal_strlit("2");
        reveal_strlit("3");
        reveal_strlit("4");
        reveal_strlit("5");
        reveal_strlit("6");
        reveal_strlit("7");
        reveal_strlit("8");
        reveal_strlit("9");
    }
    match d {
        0 => "0",
        1 => "1",
        2 => "2",
        3 => "3",
        4 => "4",
        5 => "5",
        6 => "6",
        7 => "7",
        8 => "8",
        _ => "9",
    }
}

/// Writes a number in decimal notation.
pub fn decimal_text(n: u128) -> (text: String)
    ensures
        text@ == decimal(n as nat),
    decreases n,
{
    if n < 10 {
        digit_text(n).to_string()
    } else {
        let mut text = decimal_text(n / 10);
        text.append(digit_text(n % 10));
        assert(text@ =~= decimal(n as nat));
        text
    }
}

/// Every character of a decimal number is a digit.
pub proof fn lemma_decimal_digits(n: nat)
    ensures
        decimal(n).len() > 0,
        forall|i: int| 0 <= i < decimal(n).len() ==> '0' <= #[trigger] decimal(n)[i] <= '9',
    decreases n,
{
    if n >= 10 {
        lemma_decimal_digits(n / 10);
    }
}

/// Different digits look different.
proof fn lemma_digit_injective(a: nat, b: nat)
    requires
        a < 10,
        b < 10,
        digit_char(a) == digit_char(b),
    ensures
        a == b,
{
    let digits = seq!['0', '1', '2', '3', '4', '5', '6', '7', '8', '9'];
    assert(digits[0] == '0' && digits[1] == '1' && digits[2] == '2' && digits[3] == '3' && digits[4]
        == '4' && digits[5] == '5' && digits[6] == '6' && digits[7] == '7' && digits[8] == '8'
        && digits[9] == '9');
    assert(a == 0 || a == 1 || a == 2 || a == 3 || a == 4 || a == 5 || a == 6 || a == 7 || a == 8
        || a == 9);
    assert(b == 0 || b == 1 || b == 2 || b == 3 || b == 4 || b == 5 || b == 6 || b == 7 || b == 8
        || b == 9);
}

/// Different numbers have different decimal notations.
pub proof fn lemma_decimal_injective(a: nat, b: nat)
    requires
        decimal(a) == decimal(b),
    ensures
        a == b,
    decreases a,
{
    assert(decimal(a).last() == digit_char(a % 10));
    assert(decimal(b).last() == digit_char(b % 10));
    lemma_digit_injective(a % 10, b % 10);
    if a < 10 && b < 10 {
    } else if a < 10 {
        lemma_decimal_digits(b / 10);
        assert(decimal(a).len() == 1);
    } else if b < 10 {
        lemma_decimal_digits(a / 10);
        assert(decimal(b).len() == 1);
    } else {
        assert(decimal(a).drop_last() =~= decimal(a / 10));
        assert(decimal(b).drop_last() =~= decimal(b / 10));
        lemma_decimal_injective(a / 10, b / 10);
    }
}

/// A decimal number ends in its last digit, stands before that as the number
/// without it, and does not start with a zero unless it is one.
pub proof fn law_decimals_are_written_digit_by_digit(n: nat)
    ensures
        decimal(n).len() > 0,
        decimal(n).last() as int == '0' as int + n % 10,
        n < 10 ==> decimal(n).len() == 1,
        n >= 10 ==> decimal(n).drop_last() == decimal(n / 10),
        n > 0 ==> decimal(n)[0] != '0',
    decreases n,
{
    lemma_digit_code(n % 10);
    if n < 10 {
        lemma_digit_code(n);
    } else {
        law_decimals_are_written_digit_by_digit(n / 10);
        assert(decimal(n).drop_last() =~= decimal(n / 10));
        assert(decimal(n)[0] == decimal(n / 10)[0]);
    }
}

/// Digits follow each other.
proof fn lemma_digit_code(d: nat)
    requires
        d < 10,
    ensures
        digit_char(d) as int == '0' as int + d,
{
    let digits = seq!['0', '1', '2', '3', '4', '5', '6', '7', '8', '9'];
    assert(digits[0] == '0' && digits[1] == '1' && digits[2] == '2' && digits[3] == '3' && digits[4]
        == '4' && digits[5] == '5' && digits[6] == '6' && digits[7] == '7' && digits[8] == '8'
        && digits[9] == '9');
    assert(d == 0 || d == 1 || d == 2 || d == 3 || d == 4 || d == 5 || d == 6 || d == 7 || d == 8
        || d == 9);
}

/// Of the ASCII characters those end a word that are printable and neither a
/// letter nor a digit, the blank among them, and the control characters from tab
/// to carriage return. Beyond ASCII only spaces end a word, and never a letter.
pub proof fn law_words_end_at_what_is_no_letter(c: char)
    ensures
        c <= '\u{7f}' ==> (is_word_end(c) <==> ('\u{9}' <= c <= '\u{d}') || (' ' <= c <= '~' && !(
        '0' <= c <= '9') && !('A' <= c <= 'Z') && !('a' <= c <= 'z'))),
        c > '\u{7f}' ==> (is_word_end(c) <==> c == '\u{85}' || c == '\u{a0}' || c == '\u{1680}' || (
        '\u{2000}' <= c <= '\u{200a}') || c == '\u{2028}' || c == '\u{2029}' || c == '\u{202f}' || c
            == '\u{205f}' || c == '\u{3000}'),
{
}

/// A truncation keeps the characters before the last one that ends a word, of
/// those that are looked at; when none does it keeps all of those. It looks at
/// the first `max_chars`, or at the whole of a shorter text.
pub proof fn law_truncations_keep_whole_words(s: Seq<char>, max_chars: nat)
    ensures
        ({
            let looked_at = if max_chars < s.len() {
                max_chars as int
            } else {
                s.len() as int
            };
            let kept = kept_chars(s, max_chars) as int;
            &&& 0 <= kept <= looked_at
            &&& kept < looked_at ==> is_word_end(s[kept])
            &&& forall|j: int| kept < j < looked_at ==> !is_word_end(#[trigger] s[j])
            &&& kept == looked_at <==> (forall|j: int|
                0 <= j < looked_at ==> !is_word_end(#[trigger] s[j]))
        }),
{
    let window = leading(s, max_chars);
    lemma_last_word_end(window);
    let kept = kept_chars(s, max_chars) as int;
    let looked_at = window.len() as int;
    assert forall|j: int| 0 <= j < looked_at implies window[j] == #[trigger] s[j] by {}
    assert forall|j: int| kept < j < looked_at implies !is_word_end(#[trigger] s[j]) by {
        assert(window[j] == s[j]);
    }
    if last_word_end(window) is None {
        assert forall|j: int| 0 <= j < looked_at implies !is_word_end(#[trigger] s[j]) by {
            assert(window[j] == s[j]);
        }
    } else {
        assert(window[kept] == s[kept]);
    }
}

} // verus!
