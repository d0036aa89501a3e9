//! The messages sent to the assistant: instructions, context and history.
use vstd::prelude::*;

use crate::context::{
    file_context, ContextProvider, FILE_CONTEXT_DESCRIPTION, FILE_CONTEXT_NAME,
};

verus! {

/// One message of a chat.
#[derive(Clone, Debug)]
pub struct Message {
    pub content: String,
    pub role: String,
}

/// The role of the messages that instruct the assistant.
pub const SYSTEM_ROLE: &'static str = "system";

/// How the assistant asks for more context.
pub const HELP_MSG: &'static str = r#"When you need additional context, request it using this format:

> #<command>:`<input>`

Examples:
> #file:`path/to/file.js`        (loads specific file)
> #buffers:`visible`             (loads all visible buffers)
> #git:`staged`                  (loads git staged changes)
> #system:`uname -a`             (loads system information)

Guidelines:
- Always request context when needed rather than guessing about files or code
- Use the > format on a new line when requesting context
- Output context commands directly - never ask if the user wants to provide information
- Assume the user will provide requested context in their next response

Available context providers and their usage:"#;

/// `parts` joined, with `sep` between each two.
pub open spec fn joined(parts: Seq<Seq<char>>, sep: Seq<char>) -> Seq<char>
    decreases parts.len(),
{
    if parts.len() == 0 {
        Seq::empty()
    } else if parts.len() == 1 {
        parts[0]
    } else {
        joined(parts.drop_last(), sep) + sep + parts.last()
    }
}

/// The line that presents a provider of context: ` - #name: description`.
pub open spec fn provider_line(p: ContextProvider) -> Seq<char> {
    " - #"@ + p.name@ + ": "@ + p.description@
}

/// The system prompt: the caller's prompt, how to ask for context, and the
/// line that presents the provider of file contents.
pub open spec fn system_prompt(prompt: Seq<char>) -> Seq<char> {
    prompt + "\n\n"@ + HELP_MSG@ + "\n"@ + " - #"@ + FILE_CONTEXT_NAME@ + ": "@
        + FILE_CONTEXT_DESCRIPTION@
}

fn join_strings(parts: &[String], sep: &str) -> (r: String)
    ensures
        r@ == joined(parts@.map_values(|s: String| s@), sep@),
{
    let ghost views = parts@.map_values(|s: String| s@);
    let mut r = String::new();
    let mut i: usize = 0;
    while i < parts.len()
        invariant
            i <= parts.len(),
            views == parts@.map_values(|s: String| s@),
            r@ == joined(views.take(i as int), sep@),
        decreases parts.len() - i,
    {
        if i > 0 {
            r.append(sep);
        }
        r.append(parts[i].as_str());
        proof {
            assert(views.take(i + 1).drop_last() =~= views.take(i as int));
        }
        i = i + 1;
    }
    assert(views.take(i as int) =~= views);
    r
}

fn provider_lines(providers: &[ContextProvider]) -> (r: String)
    ensures
        r@ == joined(providers@.map_values(|p| provider_line(p)), "\n\n"@),
{
    let ghost lines = providers@.map_values(|p| provider_line(p));
    let mut r = String::new();
    let mut i: usize = 0;
    while i < providers.len()
        invariant
            i <= providers.len(),
            lines == providers@.map_values(|p| provider_line(p)),
            r@ == joined(lines.take(i as int), "\n\n"@),
        decreases providers.len() - i,
    {
        if i > 0 {
            r.append("\n\n");
        }
        r.append(" - #");
        r.append(providers[i].name);
        r.append(": ");
        r.append(providers[i].description);
        proof {
            assert(lines.take(i + 1).drop_last() =~= lines.take(i as int));
        }
        i = i + 1;
    }
    assert(lines.take(i as int) =~= lines);
    r
}

/// The messages that open a request to the assistant: the system prompt, with
/// how to ask for file context; then the resolved context, one item a line;
/// then the history as it stands.
pub fn format_prompt(prompt: &str, history: &[Message], context: &[String]) -> (r: Vec<Message>)
    ensures
        r@.len() == history@.len() + 2,
        r@[0].content@ == system_prompt(prompt@),
        r@[0].role@ == SYSTEM_ROLE@,
        r@[1].content@ == joined(context@.map_values(|s: String| s@), "\n"@),
        r@[1].role@ == SYSTEM_ROLE@,
        forall|k: int|
            #![trigger history@[k]]
            0 <= k < history@.len() ==> r@[k + 2].content@ == history@[k].content@ && r@[k
                + 2].role@ == history@[k].role@,
{
    let enabled = [file_context()];
    let mut system = String::from_str(prompt);
    system.append("\n\n");
    system.append(HELP_MSG);
    system.append("\n");
    let lines = provider_lines(&enabled);
    proof {
        let ls = enabled@.map_values(|p| provider_line(p));
        assert(ls.len() == 1);
        assert(ls[0] == provider_line(enabled@[0]));
    }
    system.append(lines.as_str());
    let mut messages: Vec<Message> = Vec::new();
    messages.push(Message { content: system, role: String::from_str(SYSTEM_ROLE) });
    let joined_context = join_strings(context, "\n");
    messages.push(Message { content: joined_context, role: String::from_str(SYSTEM_ROLE) });
    let mut i: usize = 0;
    while i < history.len()
        invariant
            i <= history.len(),
            messages@.len() == i + 2,
            messages@[0].content@ == system_prompt(prompt@),
            messages@[0].role@ == SYSTEM_ROLE@,
            messages@[1].content@ == joined(context@.map_values(|s: String| s@), "\n"@),
            messages@[1].role@ == SYSTEM_ROLE@,
            forall|j: int|
                #![trigger history@[j]]
                0 <= j < i ==> messages@[j + 2].content@ == history@[j].content@ && messages@[j
                    + 2].role@ == history@[j].role@,
        decreases history.len() - i,
    {
        messages.push(
            Message { content: history[i].content.clone(), role: history[i].role.clone() },
        );
        i = i + 1;
    }
    messages
}

} // verus!
