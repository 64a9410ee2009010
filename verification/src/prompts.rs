//! The prompt that teaches how to use the tool.

use vstd::prelude::*;

verus! {

/// What a user asks of the tool.
pub const PROMPT_QUESTION: &'static str = "How do I use the sequential_thinking tool to solve a complex problem?";

/// What an assistant answers.
pub const PROMPT_ANSWER: &'static str = "The sequential_thinking tool helps you break down complex problems step by step:\n\n\
     1. Start with initial estimate:\n\
     sequential_thinking({\n\
     \"thought\": \"First, I need to understand the problem scope\",\n\
     \"thought_number\": 1,\n\
     \"total_thoughts\": 5,\n\
     \"next_thought_needed\": true\n\
     })\n\n\
     2. Continue building:\n\
     sequential_thinking({\n\
     \"thought\": \"Now analyzing the core requirements\",\n\
     \"thought_number\": 2,\n\
     \"total_thoughts\": 5,\n\
     \"next_thought_needed\": true\n\
     })\n\n\
     3. Revise if needed:\n\
     sequential_thinking({\n\
     \"thought\": \"Wait, I need to reconsider my approach\",\n\
     \"thought_number\": 3,\n\
     \"total_thoughts\": 6,\n\
     \"is_revision\": true,\n\
     \"revises_thought\": 2,\n\
     \"next_thought_needed\": true\n\
     })\n\n\
     4. Branch to explore alternatives:\n\
     sequential_thinking({\n\
     \"thought\": \"Alternative approach using pattern X\",\n\
     \"thought_number\": 4,\n\
     \"total_thoughts\": 6,\n\
     \"branch_from_thought\": 2,\n\
     \"branch_id\": \"alt-pattern-x\",\n\
     \"next_thought_needed\": true\n\
     })\n\n\
     5. Conclude:\n\
     sequential_thinking({\n\
     \"thought\": \"Final solution: implement approach Y\",\n\
     \"thought_number\": 6,\n\
     \"total_thoughts\": 6,\n\
     \"next_thought_needed\": false\n\
     })\n\n\
     The tool tracks your entire thinking process, allowing you to:\n\
     - Adjust total_thoughts dynamically as you learn more\n\
     - Revise earlier thoughts when you discover new information\n\
     - Branch to explore multiple solution paths\n\
     - See your complete thought history across all invocations";

/// Who says something in a prompt.
#[derive(Debug, Clone, Copy, PartialEq, Eq)]
pub enum PromptRole {
    User,
    Assistant,
}

/// A message of a prompt.
#[derive(Debug, PartialEq, Eq)]
pub struct PromptMessage {
    pub role: PromptRole,
    pub text: String,
}

/// The names of the arguments of the prompt: it takes none.
pub fn prompt_arguments() -> (names: Vec<String>)
    ensures
        names@ == Seq::<String>::empty(),
{
    Vec::new()
}

/// The messages of the prompt: a question on the use of the tool, and the
/// answer to it.
pub fn prompt() -> (messages: Vec<PromptMessage>)
    ensures
        messages@.len() == 2,
        messages[0].role == PromptRole::User,
        messages[0].text@ == PROMPT_QUESTION@,
        messages[1].role == PromptRole::Assistant,
        messages[1].text@ == PROMPT_ANSWER@,
{
    let mut messages: Vec<PromptMessage> = Vec::new();
    messages.push(PromptMessage { role: PromptRole::User, text: PROMPT_QUESTION.to_string() });
    messages.push(PromptMessage { role: PromptRole::Assistant, text: PROMPT_ANSWER.to_string() });
    messages
}

} // verus!
