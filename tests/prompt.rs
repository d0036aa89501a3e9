use helix_search::context::{
    file_context, file_context_text, selection_context_text, Context, DocumentId,
};
use helix_search::prompt::{format_prompt, Message, HELP_MSG};
use helix_search::prompts::{copilot_instructions, quick_copilot_instructions, COPILOT_BASE};

#[test]
fn instructions_end_with_shared_text() {
    let text = copilot_instructions();
    assert!(text.starts_with("You are a code-focused AI programming assistant"));
    assert!(text.contains("solutions.\\n\nWhen asked for your name"));
    assert!(text.ends_with(COPILOT_BASE));
}

#[test]
fn quick_instructions_ask_for_the_selection() {
    let text = quick_copilot_instructions();
    assert!(text.starts_with("You are a code-focused AI programming assistant"));
    assert!(text.contains(COPILOT_BASE));
    assert!(text.ends_with(
        "\n        Give only an updated version of the current selection with the request applied.\n        "
    ));
}

#[test]
fn document_context_names_the_document() {
    assert_eq!(Context::document(DocumentId(3)), Context::Document { name: DocumentId(3) });
}

#[test]
fn prompt_has_system_context_and_history() {
    let history = vec![
        Message { content: "hi".to_string(), role: "user".to_string() },
        Message { content: "hello".to_string(), role: "assistant".to_string() },
    ];
    let context = vec!["# FILE:a".to_string(), "# FILE:b".to_string()];
    let messages = format_prompt("Be brief.", &history, &context);
    assert_eq!(messages.len(), 4);
    let provider = file_context();
    let expected = format!(
        "Be brief.\n\n{HELP_MSG}\n - #{}: {}",
        provider.name, provider.description
    );
    assert_eq!(messages[0].content, expected);
    assert_eq!(messages[0].role, "system");
    assert_eq!(messages[1].content, "# FILE:a\n# FILE:b");
    assert_eq!(messages[1].role, "system");
    assert_eq!(messages[2].content, "hi");
    assert_eq!(messages[3].role, "assistant");
}

#[test]
fn prompt_without_context_has_empty_context_message() {
    let messages = format_prompt("p", &[], &[]);
    assert_eq!(messages.len(), 2);
    assert_eq!(messages[1].content, "");
    assert!(messages[0].content.ends_with(
        " - #file: Includes content of provided file in chat context. Supports input."
    ));
}

#[test]
fn file_context_text_fences_the_listing() {
    assert_eq!(
        file_context_text("src/a.rs", "rust", "1: fn a() {}\n"),
        "# FILE:src/a.rs CONTEXT\n```rust\n1: fn a() {}\n\n```\n\n"
    );
}

#[test]
fn selection_context_text_announces_the_selection() {
    assert_eq!(
        selection_context_text("a.py", "python", "3: x = 1\n"),
        "# FILE:a.py CONTEXT\nUser's active selection:\n```python\n3: x = 1\n\n```\n\n"
    );
}
