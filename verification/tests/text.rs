use sequential_thinking::logging::{logging_disabled, says_true};
use sequential_thinking::prompts::{prompt, prompt_arguments, PromptRole};
use sequential_thinking::server::tls_config;
use sequential_thinking::string_utils::{decimal_text, ends_word, safe_truncate_word_boundary};
use sequential_thinking::thought_box::{format_thought, render_thought};
use sequential_thinking::trait_impl::display_of;
use sequential_thinking::ThoughtData;
use termcolor::Buffer;

fn thought(text: &str) -> ThoughtData {
    ThoughtData {
        thought: text.to_string(),
        thought_number: 1,
        total_thoughts: 3,
        next_thought_needed: true,
        is_revision: None,
        revises_thought: None,
        branch_from_thought: None,
        branch_id: None,
        needs_more_thoughts: None,
    }
}

#[test]
fn truncation_prefers_the_last_word_boundary() {
    assert_eq!(safe_truncate_word_boundary("hello world foo", 13), 11);
    assert_eq!(safe_truncate_word_boundary("hello world", 5), 5);
    assert_eq!(safe_truncate_word_boundary("hello, world", 8), 6);
}

#[test]
fn truncation_without_a_boundary_counts_characters() {
    assert_eq!(safe_truncate_word_boundary("abcdefgh", 3), 3);
    assert_eq!(safe_truncate_word_boundary("äöüß", 2), 4);
    assert_eq!(safe_truncate_word_boundary("日本語テキスト", 3), 9);
}

#[test]
fn truncation_of_short_texts() {
    assert_eq!(safe_truncate_word_boundary("abc", 10), 3);
    assert_eq!(safe_truncate_word_boundary("", 10), 0);
    assert_eq!(safe_truncate_word_boundary("abc", 0), 0);
    assert_eq!(safe_truncate_word_boundary("a b", 10), 1);
}

#[test]
fn truncation_never_splits_a_character() {
    let text = "näher dran — ganz schön 🌿 weit weg";
    let mut n: usize = 0;
    while n < 40 {
        let at = safe_truncate_word_boundary(text, n);
        assert!(text.is_char_boundary(at));
        assert!(text[..at].chars().count() <= n);
        n += 1;
    }
}

#[test]
fn word_ends_are_white_space_and_ascii_punctuation() {
    let mut code: u32 = 0;
    while code <= 0x10ffff {
        if let Some(c) = char::from_u32(code) {
            assert_eq!(ends_word(c), c.is_whitespace() || c.is_ascii_punctuation());
        }
        code += 1;
    }
}

#[test]
fn numbers_in_decimal() {
    assert_eq!(decimal_text(0), "0");
    assert_eq!(decimal_text(7), "7");
    assert_eq!(decimal_text(10), "10");
    assert_eq!(decimal_text(90210), "90210");
    assert_eq!(decimal_text(u128::MAX), u128::MAX.to_string());
}

#[test]
fn short_thoughts_are_displayed_whole() {
    assert_eq!(display_of("Computing: 15*20 = 300"), "\x1b[38;5;247mComputing: 15*20 = 300\x1b[0m");
    let exact = "x".repeat(200);
    assert_eq!(display_of(&exact), format!("\x1b[38;5;247m{}\x1b[0m", exact));
}

#[test]
fn long_thoughts_are_cut_at_a_word() {
    let long = format!("{} {}", "a".repeat(150), "b".repeat(100));
    assert_eq!(display_of(&long), format!("\x1b[38;5;247m{}...\x1b[0m", "a".repeat(150)));
    let solid = "ü".repeat(201);
    assert_eq!(display_of(&solid), format!("\x1b[38;5;247m{}...\x1b[0m", "ü".repeat(200)));
}

#[test]
fn a_plain_thought_as_a_box() {
    let text = render_thought(Buffer::no_color(), &thought("hi"));
    let edge = "─".repeat(20);
    assert_eq!(
        text,
        format!("\n┌{edge}┐\n│ 💭 Thought 1/3 │\n├{edge}┤\n│ hi │\n└{edge}┘\n")
    );
}

#[test]
fn a_revision_as_a_box_in_color() {
    let mut data = thought("Wait, I need to reconsider");
    data.is_revision = Some(true);
    data.revises_thought = Some(2);
    data.thought_number = 3;
    data.total_thoughts = 12;
    let header = "🔄 Revision 3/12 (revising thought 2)";
    let edge = "─".repeat(header.len() + 4);
    let text = render_thought(Buffer::ansi(), &data);
    assert_eq!(
        text,
        format!(
            "\n┌{edge}┐\n│ \x1b[0m\x1b[33m🔄 Revision\x1b[0m 3/12 (revising thought 2) │\n\
             ├{edge}┤\n│ Wait, I need to reconsider │\n└{edge}┘\n"
        )
    );
}

#[test]
fn a_branch_as_a_box_in_color() {
    let mut data = thought("Let me explore denormalization as an alternative to the first approach");
    data.branch_from_thought = Some(2);
    data.branch_id = Some("denormalize".to_string());
    let edge = "─".repeat(data.thought.len() + 4);
    let text = render_thought(Buffer::ansi(), &data);
    assert!(text.contains("\x1b[0m\x1b[32m🌿 Branch\x1b[0m 1/3 (from thought 2, ID: denormalize) │\n"));
    assert!(text.starts_with(&format!("\n┌{edge}┐\n")));
    data.branch_id = None;
    let unnamed = render_thought(Buffer::no_color(), &data);
    assert!(unnamed.contains("🌿 Branch 1/3 (from thought 2, ID: unknown) │\n"));
}

#[test]
fn a_revision_wins_over_a_branch() {
    let mut data = thought("both");
    data.is_revision = Some(true);
    data.branch_from_thought = Some(1);
    let text = render_thought(Buffer::no_color(), &data);
    assert!(text.contains("│ 🔄 Revision 1/3 │\n"));
    data.is_revision = Some(false);
    let text = render_thought(Buffer::no_color(), &data);
    assert!(text.contains("│ 🌿 Branch 1/3 (from thought 1, ID: unknown) │\n"));
}

#[test]
fn formatting_follows_the_environment() {
    let data = thought("blue");
    let text = format_thought(&data);
    let plain = render_thought(Buffer::no_color(), &data);
    let colored = render_thought(Buffer::ansi(), &data);
    assert!(colored.contains("\x1b[34m💭 Thought\x1b[0m"));
    assert!(text == plain || text == colored);
}

#[test]
fn the_logging_flag() {
    assert!(logging_disabled(Some("true")));
    assert!(logging_disabled(Some("TRUE")));
    assert!(logging_disabled(Some("True")));
    assert!(!logging_disabled(Some("false")));
    assert!(!logging_disabled(Some("1")));
    assert!(!logging_disabled(Some("")));
    assert!(!logging_disabled(None));
    assert!(says_true("true"));
    assert!(!says_true("TRUE"));
}

#[test]
fn tls_needs_certificate_and_key() {
    assert_eq!(tls_config(Some("cert"), Some("key")), Some(("cert", "key")));
    assert_eq!(tls_config(Some("cert"), None), None);
    assert_eq!(tls_config(None, Some("key")), None);
    assert_eq!(tls_config::<&str>(None, None), None);
}

#[test]
fn the_prompt_teaches_the_tool() {
    assert!(prompt_arguments().is_empty());
    let messages = prompt();
    assert_eq!(messages.len(), 2);
    assert_eq!(messages[0].role, PromptRole::User);
    assert_eq!(
        messages[0].text,
        "How do I use the sequential_thinking tool to solve a complex problem?"
    );
    assert_eq!(messages[1].role, PromptRole::Assistant);
    assert!(messages[1].text.starts_with(
        "The sequential_thinking tool helps you break down complex problems step by step:\n\n\
         1. Start with initial estimate:\nsequential_thinking({\n\"thought\": "
    ));
    assert!(messages[1].text.contains("\"branch_id\": \"alt-pattern-x\",\n"));
    assert!(messages[1].text.ends_with("across all invocations"));
}
