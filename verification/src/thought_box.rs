//! Thoughts as boxes for the terminal.

use crate::string_utils::decimal_text;
use crate::types::ThoughtData;
use std::io::Write;
use termcolor::{Buffer, BufferWriter, Color, ColorChoice, ColorSpec, WriteColor};
use vstd::prelude::*;
use vstd::utf8::*;

verus! {

/// `termcolor::Buffer`, a buffer for text in colors.
#[verifier::external_type_specification]
#[verifier::external_body]
pub struct ExBuffer(termcolor::Buffer);

/// `termcolor::BufferWriter`, which makes buffers for a stream.
#[verifier::external_type_specification]
#[verifier::external_body]
pub struct ExBufferWriter(termcolor::BufferWriter);

/// The bytes that were written to a buffer.
pub uninterp spec fn buffer_bytes(buffer: Buffer) -> Seq<u8>;

/// Whether a buffer takes colors down as ANSI escape sequences among its bytes.
pub uninterp spec fn buffer_is_ansi(buffer: Buffer) -> bool;

/// The color of a prefix.
#[derive(Debug, Clone, Copy, PartialEq, Eq)]
pub enum PrefixColor {
    Yellow,
    Green,
    Blue,
}

/// The escape sequence that ends all colors and styles.
pub open spec fn reset_sequence() -> Seq<char> {
    "\x1b[0m"@
}

/// The escape sequence that starts a color.
pub open spec fn color_sequence(color: PrefixColor) -> Seq<char> {
    match color {
        PrefixColor::Yellow => "\x1b[33m"@,
        PrefixColor::Green => "\x1b[32m"@,
        PrefixColor::Blue => "\x1b[34m"@,
    }
}

/// `BufferWriter::stderr` with `ColorChoice::Auto`: a writer to the standard
/// error stream, in colors where the environment allows them. Nothing is said
/// of it.
#[verifier::external_body]
fn stderr_writer() -> (writer: BufferWriter) {
    BufferWriter::stderr(ColorChoice::Auto)
}

/// `BufferWriter::buffer`: a new buffer, to which nothing was written. Whether
/// it takes colors down rests with the writer and the environment, and is not
/// said.
#[verifier::external_body]
fn new_buffer(writer: &BufferWriter) -> (buffer: Buffer)
    ensures
        buffer_bytes(buffer).len() == 0,
{
    writer.buffer()
}

/// `std::io::Write::write_all` on a buffer: the bytes of the text come after
/// those that are there. Writing to a buffer does not fail.
#[verifier::external_body]
fn write_text(buffer: &mut Buffer, text: &str)
    ensures
        buffer_bytes(*final(buffer)) == buffer_bytes(*old(buffer)) + encode_utf8(text@),
        buffer_is_ansi(*final(buffer)) == buffer_is_ansi(*old(buffer)),
{
    let _ = buffer.write_all(text.as_bytes());
}

/// `WriteColor::set_color` with a foreground color: a buffer that takes colors
/// down gets the sequence that ends all colors and the one that starts this
/// color; another one gets nothing.
#[verifier::external_body]
fn set_color(buffer: &mut Buffer, color: PrefixColor)
    ensures
        buffer_bytes(*final(buffer)) == buffer_bytes(*old(buffer)) + (if buffer_is_ansi(
            *old(buffer),
        ) {
            encode_utf8(reset_sequence() + color_sequence(color))
        } else {
            Seq::empty()
        }),
        buffer_is_ansi(*final(buffer)) == buffer_is_ansi(*old(buffer)),
{
    let outside = match color {
        PrefixColor::Yellow => Color::Yellow,
        PrefixColor::Green => Color::Green,
        PrefixColor::Blue => Color::Blue,
    };
    let _ = buffer.set_color(ColorSpec::new().set_fg(Some(outside)));
}

/// `WriteColor::reset`: a buffer that takes colors down gets the sequence that
/// ends all colors; another one gets nothing.
#[verifier::external_body]
fn reset_color(buffer: &mut Buffer)
    ensures
        buffer_bytes(*final(buffer)) == buffer_bytes(*old(buffer)) + (if buffer_is_ansi(
            *old(buffer),
        ) {
            encode_utf8(reset_sequence())
        } else {
            Seq::empty()
        }),
        buffer_is_ansi(*final(buffer)) == buffer_is_ansi(*old(buffer)),
{
    let _ = buffer.reset();
}

/// `Buffer::as_slice`: the bytes that were written.
#[verifier::external_body]
fn written_bytes(buffer: &Buffer) -> (bytes: &[u8])
    ensures
        bytes@ == buffer_bytes(*buffer),
{
    buffer.as_slice()
}

/// `String::from_utf8_lossy`, on bytes that are UTF-8: the text that they
/// encode.
#[verifier::external_body]
fn text_of_bytes(bytes: &[u8]) -> (text: String)
    requires
        valid_utf8(bytes@),
    ensures
        encode_utf8(text@) == bytes@,
{
    String::from_utf8_lossy(bytes).to_string()
}

/// What a thought is called, by its kind: a revision, a branch, or just a
/// thought.
pub open spec fn prefix_text(data: ThoughtData) -> Seq<char> {
    if data.is_revision == Some(true) {
        "🔄 Revision"@
    } else if data.branch_from_thought is Some {
        "🌿 Branch"@
    } else {
        "💭 Thought"@
    }
}

/// The color of a thought, by its kind.
pub open spec fn prefix_color(data: ThoughtData) -> PrefixColor {
    if data.is_revision == Some(true) {
        PrefixColor::Yellow
    } else if data.branch_from_thought is Some {
        PrefixColor::Green
    } else {
        PrefixColor::Blue
    }
}

/// What a thought refers to: the thought that it revises, or the one that it
/// branches from, with the name of the branch.
pub open spec fn context_text(data: ThoughtData) -> Seq<char> {
    if data.is_revision == Some(true) {
        match data.revises_thought {
            Some(n) => " (revising thought "@ + crate::string_utils::decimal(n as nat) + ")"@,
            None => Seq::empty(),
        }
    } else {
        match data.branch_from_thought {
            Some(n) => " (from thought "@ + crate::string_utils::decimal(n as nat) + ", ID: "@ + (
            match data.branch_id {
                Some(id) => id@,
                None => "unknown"@,
            }) + ")"@,
            None => Seq::empty(),
        }
    }
}

/// The number of a thought, the total, and what it refers to.
pub open spec fn counts_text(data: ThoughtData) -> Seq<char> {
    " "@ + crate::string_utils::decimal(data.thought_number as nat) + "/"@
        + crate::string_utils::decimal(data.total_thoughts as nat) + context_text(data)
}

/// How many characters the border of a box has: four more than the bytes of
/// the longer of header and thought.
pub open spec fn border_len(data: ThoughtData) -> nat {
    let header = encode_utf8(prefix_text(data) + counts_text(data)).len();
    let thought = encode_utf8(data.thought@).len();
    (if header >= thought {
        header
    } else {
        thought
    }) + 4
}

/// A border.
pub open spec fn border(n: nat) -> Seq<char> {
    Seq::new(n, |i: int| '─')
}

/// The header line of a box, up to the end of its prefix.
pub open spec fn box_header(data: ThoughtData, ansi: bool) -> Seq<char> {
    if ansi {
        "│ "@ + (reset_sequence() + color_sequence(prefix_color(data))) + prefix_text(data)
            + reset_sequence()
    } else {
        "│ "@ + prefix_text(data)
    }
}

/// A thought as a box, in colors or not.
pub open spec fn thought_box(data: ThoughtData, ansi: bool) -> Seq<char> {
    "\n┌"@ + border(border_len(data)) + "┐\n"@ + box_header(data, ansi) + counts_text(data)
        + " │\n"@ + "├"@ + border(border_len(data)) + "┤\n"@ + "│ "@ + data.thought@ + " │\n"@
        + "└"@ + border(border_len(data)) + "┘\n"@
}

/// What a thought refers to.
fn context_of(data: &ThoughtData) -> (context: String)
    ensures
        context@ == context_text(*data),
{
    let mut context = String::new();
    match data.is_revision {
        Some(true) => {
            if let Some(n) = data.revises_thought {
                context.append(" (revising thought ");
                context.append(decimal_text(n as u128).as_str());
                context.append(")");
                assert(context@ =~= context_text(*data));
            }
        },
        _ => {
            if let Some(n) = data.branch_from_thought {
                context.append(" (from thought ");
                context.append(decimal_text(n as u128).as_str());
                context.append(", ID: ");
                match &data.branch_id {
                    Some(id) => {
                        context.append(id.as_str());
                    },
                    None => {
                        context.append("unknown");
                    },
                }
                context.append(")");
                assert(context@ =~= context_text(*data));
            }
        },
    }
    context
}

/// The number of a thought, the total, and what it refers to.
fn counts_of(data: &ThoughtData) -> (counts: String)
    ensures
        counts@ == counts_text(*data),
{
    let mut counts = " ".to_string();
    counts.append(decimal_text(data.thought_number as u128).as_str());
    counts.append("/");
    counts.append(decimal_text(data.total_thoughts as u128).as_str());
    counts.append(context_of(data).as_str());
    counts
}

/// What a thought is called, and its color.
fn prefix_of(data: &ThoughtData) -> (prefix: (&'static str, PrefixColor))
    ensures
        prefix.0@ == prefix_text(*data),
        prefix.1 == prefix_color(*data),
{
    match data.is_revision {
        Some(true) => ("🔄 Revision", PrefixColor::Yellow),
        _ => if data.branch_from_thought.is_some() {
            ("🌿 Branch", PrefixColor::Green)
        } else {
            ("💭 Thought", PrefixColor::Blue)
        },
    }
}

/// A border.
fn border_of(n: u128) -> (text: String)
    ensures
        text@ == border(n as nat),
{
    let mut text = String::new();
    let mut i: u128 = 0;
    proof {
        reveal_strlit("─");
    }
    assert(text@ =~= border(0));
    while i < n
        invariant
            i <= n,
            "─"@ == seq!['─'],
            text@ == border(i as nat),
        decreases n - i,
    {
        text.append("─");
        i = i + 1;
        assert(text@ =~= border(i as nat));
    }
    text
}

/// Writes a text to a buffer that holds another one.
fn write_after(buffer: &mut Buffer, Ghost(before): Ghost<Seq<char>>, text: &str)
    requires
        buffer_bytes(*old(buffer)) == encode_utf8(before),
    ensures
        buffer_bytes(*final(buffer)) == encode_utf8(before + text@),
        buffer_is_ansi(*final(buffer)) == buffer_is_ansi(*old(buffer)),
{
    write_text(buffer, text);
    proof {
        crate::string_utils::lemma_encode_concat(before, text@);
    }
}

/// Writes the header line of a box, up to the end of its prefix, to a buffer
/// that holds another text.
fn write_header(buffer: &mut Buffer, Ghost(before): Ghost<Seq<char>>, data: &ThoughtData)
    requires
        buffer_bytes(*old(buffer)) == encode_utf8(before),
    ensures
        buffer_bytes(*final(buffer)) == encode_utf8(
            before + box_header(*data, buffer_is_ansi(*old(buffer))),
        ),
        buffer_is_ansi(*final(buffer)) == buffer_is_ansi(*old(buffer)),
{
    let ghost ansi = buffer_is_ansi(*buffer);
    let (prefix, color) = prefix_of(data);
    write_after(buffer, Ghost(before), "│ ");
    set_color(buffer, color);
    let ghost colored = if ansi {
        before + "│ "@ + (reset_sequence() + color_sequence(color))
    } else {
        before + "│ "@
    };
    proof {
        let start = before + "│ "@;
        crate::string_utils::lemma_encode_concat(
            start,
            reset_sequence() + color_sequence(color),
        );
        assert(encode_utf8(start) + Seq::<u8>::empty() =~= encode_utf8(start));
    }
    write_after(buffer, Ghost(colored), prefix);
    reset_color(buffer);
    proof {
        let end = colored + prefix@;
        crate::string_utils::lemma_encode_concat(end, reset_sequence());
        assert(encode_utf8(end) + Seq::<u8>::empty() =~= encode_utf8(end));
        if ansi {
            assert(end + reset_sequence() =~= before + box_header(*data, ansi));
        } else {
            assert(end =~= before + box_header(*data, ansi));
        }
    }
}

/// Renders a thought as a box, by way of a buffer to which nothing was written
/// yet.
pub fn render_thought(buffer: Buffer, data: &ThoughtData) -> (text: String)
    requires
        buffer_bytes(buffer).len() == 0,
    ensures
        text@ == thought_box(*data, buffer_is_ansi(buffer)),
{
    let ghost ansi = buffer_is_ansi(buffer);
    let mut buffer = buffer;
    let (prefix, _) = prefix_of(data);
    let counts = counts_of(data);
    let mut header = prefix.to_string();
    header.append(counts.as_str());
    let header_len: usize = header.as_str().as_bytes().len();
    let thought_len: usize = data.thought.as_str().as_bytes().len();
    let longer: usize = if header_len >= thought_len {
        header_len
    } else {
        thought_len
    };
    let border_text = border_of(longer as u128 + 4);
    let ghost edge = border(border_len(*data));
    assert(border_text@ == edge);
    assert(buffer_bytes(buffer) =~= encode_utf8(Seq::empty()));
    let ghost mut so_far = Seq::<char>::empty();
    write_after(&mut buffer, Ghost(so_far), "\n┌");
    proof {
        so_far = so_far + "\n┌"@;
    }
    write_after(&mut buffer, Ghost(so_far), border_text.as_str());
    proof {
        so_far = so_far + edge;
    }
    write_after(&mut buffer, Ghost(so_far), "┐\n");
    proof {
        so_far = so_far + "┐\n"@;
    }
    write_header(&mut buffer, Ghost(so_far), data);
    proof {
        so_far = so_far + box_header(*data, ansi);
    }
    write_after(&mut buffer, Ghost(so_far), counts.as_str());
    proof {
        so_far = so_far + counts@;
    }
    write_after(&mut buffer, Ghost(so_far), " │\n");
    proof {
        so_far = so_far + " │\n"@;
    }
    write_after(&mut buffer, Ghost(so_far), "├");
    proof {
        so_far = so_far + "├"@;
    }
    write_after(&mut buffer, Ghost(so_far), border_text.as_str());
    proof {
        so_far = so_far + edge;
    }
    write_after(&mut buffer, Ghost(so_far), "┤\n");
    proof {
        so_far = so_far + "┤\n"@;
    }
    write_after(&mut buffer, Ghost(so_far), "│ ");
    proof {
        so_far = so_far + "│ "@;
    }
    write_after(&mut buffer, Ghost(so_far), data.thought.as_str());
    proof {
        so_far = so_far + data.thought@;
    }
    write_after(&mut buffer, Ghost(so_far), " │\n");
    proof {
        so_far = so_far + " │\n"@;
    }
    write_after(&mut buffer, Ghost(so_far), "└");
    proof {
        so_far = so_far + "└"@;
    }
    write_after(&mut buffer, Ghost(so_far), border_text.as_str());
    proof {
        so_far = so_far + edge;
    }
    write_after(&mut buffer, Ghost(so_far), "┘\n");
    proof {
        so_far = so_far + "┘\n"@;
        assert(Seq::<char>::empty() + "\n┌"@ =~= "\n┌"@);
        assert(so_far =~= thought_box(*data, ansi));
        encode_utf8_valid_utf8(so_far);
    }
    let text = text_of_bytes(written_bytes(&buffer));
    proof {
        crate::string_utils::lemma_encode_injective(text@, so_far);
    }
    text
}

/// Formats a thought for display on the standard error stream: a bordered box
/// with a prefix by the kind of the thought, in colors where the environment
/// allows them.
pub fn format_thought(data: &ThoughtData) -> (text: String)
    ensures
        text@ == thought_box(*data, true) || text@ == thought_box(*data, false),
{
    let writer = stderr_writer();
    render_thought(new_buffer(&writer), data)
}

/// A thought is called and colored by its kind: a revision before a branch before
/// a plain thought.
pub proof fn law_thoughts_are_called_by_their_kind(data: ThoughtData)
    ensures
        data.is_revision == Some(true) ==> prefix_text(data) == "🔄 Revision"@ && prefix_color(data)
            == PrefixColor::Yellow,
        data.is_revision != Some(true) && data.branch_from_thought is Some ==> prefix_text(data)
            == "🌿 Branch"@ && prefix_color(data) == PrefixColor::Green,
        data.is_revision != Some(true) && data.branch_from_thought is None ==> prefix_text(data)
            == "💭 Thought"@ && prefix_color(data) == PrefixColor::Blue,
{
}

/// A revision says which thought it revises, and a branch where it starts and
/// what it is called; a plain thought refers to nothing.
pub proof fn law_thoughts_say_what_they_refer_to(data: ThoughtData)
    ensures
        data.is_revision == Some(true) ==> (match data.revises_thought {
            Some(n) => context_text(data) == " (revising thought "@ + crate::string_utils::decimal(
                n as nat,
            ) + ")"@,
            None => context_text(data).len() == 0,
        }),
        data.is_revision != Some(true) ==> (match (data.branch_from_thought, data.branch_id) {
            (Some(n), Some(id)) => context_text(data) == " (from thought "@
                + crate::string_utils::decimal(n as nat) + ", ID: "@ + id@ + ")"@,
            (Some(n), None) => context_text(data) == " (from thought "@
                + crate::string_utils::decimal(n as nat) + ", ID: "@ + "unknown"@ + ")"@,
            (None, _) => context_text(data).len() == 0,
        }),
{
}

/// A box has a border above, between and below, four characters longer than the
/// bytes of the longer of its two lines: the header, with the kind, the number,
/// the total and what the thought refers to; and the thought.
pub proof fn law_boxes_frame_header_and_thought(data: ThoughtData, i: int)
    ensures
        ({
            let n = border_len(data);
            let header = encode_utf8(prefix_text(data) + counts_text(data)).len();
            let thought = encode_utf8(data.thought@).len();
            &&& n >= header + 4
            &&& n >= thought + 4
            &&& n == header + 4 || n == thought + 4
            &&& border(n).len() == n
            &&& 0 <= i < n ==> border(n)[i] == '─'
            &&& counts_text(data) == " "@ + crate::string_utils::decimal(
                data.thought_number as nat,
            ) + "/"@ + crate::string_utils::decimal(data.total_thoughts as nat) + context_text(data)
            &&& thought_box(data, false) == "\n┌"@ + border(n) + "┐\n"@ + ("│ "@ + prefix_text(data))
                + counts_text(data) + " │\n"@ + "├"@ + border(n) + "┤\n"@ + "│ "@ + data.thought@
                + " │\n"@ + "└"@ + border(n) + "┘\n"@
        }),
{
}

/// Colors change nothing but the header, where they surround the kind of the
/// thought and end after it.
pub proof fn law_colors_surround_the_kind(data: ThoughtData)
    ensures
        box_header(data, false) == "│ "@ + prefix_text(data),
        box_header(data, true) == "│ "@ + ("\x1b[0m"@ + (match prefix_color(data) {
            PrefixColor::Yellow => "\x1b[33m"@,
            PrefixColor::Green => "\x1b[32m"@,
            PrefixColor::Blue => "\x1b[34m"@,
        })) + prefix_text(data) + "\x1b[0m"@,
        thought_box(data, true) == "\n┌"@ + border(border_len(data)) + "┐\n"@ + box_header(data, true)
            + counts_text(data) + " │\n"@ + "├"@ + border(border_len(data)) + "┤\n"@ + "│ "@
            + data.thought@ + " │\n"@ + "└"@ + border(border_len(data)) + "┘\n"@,
{
}

/// A border is as long as it is asked to be, and is one line throughout.
pub proof fn law_borders_are_lines(n: nat, i: int)
    requires
        0 <= i < n,
    ensures
        border(n).len() == n,
        border(n)[i] == '─',
        border(0).len() == 0,
{
}

} // verus!
