//! What a chat can be given as context, and the providers that fill it in.
use vstd::prelude::*;

verus! {

/// The identifier of a document open in the editor.
#[derive(Clone, Copy, Debug, PartialEq, Eq, Structural)]
pub struct DocumentId(pub usize);

/// One piece of context attached to a chat.
#[derive(Clone, Copy, Debug, PartialEq, Eq, Structural)]
pub enum Context {
    /// The contents of a document.
    Document { name: DocumentId },
    /// The user's current selection.
    Selection,
}

impl Context {
    /// The context that holds the document `doc`.
    pub fn document(doc: DocumentId) -> (r: Self)
        ensures
            r == (Context::Document { name: doc }),
    {
        Context::Document { name: doc }
    }
}

/// A source of context, under the name by which a chat asks for it.
pub struct ContextProvider {
    pub name: &'static str,
    pub description: &'static str,
}

/// The name of the provider of file contents.
pub const FILE_CONTEXT_NAME: &'static str = "file";

/// What the provider of file contents does.
pub const FILE_CONTEXT_DESCRIPTION: &'static str = "Includes content of provided file in chat context. Supports input.";

/// The provider of file contents.
pub fn file_context() -> (r: ContextProvider)
    ensures
        r.name@ == FILE_CONTEXT_NAME@,
        r.description@ == FILE_CONTEXT_DESCRIPTION@,
{
    ContextProvider { name: FILE_CONTEXT_NAME, description: FILE_CONTEXT_DESCRIPTION }
}

/// The context of a file: a heading with its name, then its listing in a
/// code fence tagged with its file type.
pub open spec fn spec_file_context_text(
    name: Seq<char>,
    file_type: Seq<char>,
    doc_text: Seq<char>,
) -> Seq<char> {
    "# FILE:"@ + name + " CONTEXT\n```"@ + file_type + "\n"@ + doc_text + "\n```\n\n"@
}

/// The context of a selection: a heading with the file's path, a line that
/// announces the selection, then its listing in a code fence tagged with the
/// file type.
pub open spec fn spec_selection_context_text(
    path: Seq<char>,
    file_type: Seq<char>,
    doc_text: Seq<char>,
) -> Seq<char> {
    "# FILE:"@ + path + " CONTEXT\nUser's active selection:\n```"@ + file_type + "\n"@
        + doc_text + "\n```\n\n"@
}

/// The text that the provider of file contents hands to the chat, from the
/// file's name, its file type and its listing.
pub fn file_context_text(name: &str, file_type: &str, doc_text: &str) -> (r: String)
    ensures
        r@ == spec_file_context_text(name@, file_type@, doc_text@),
{
    let mut r = String::from_str("# FILE:");
    r.append(name);
    r.append(" CONTEXT\n```");
    r.append(file_type);
    r.append("\n");
    r.append(doc_text);
    r.append("\n```\n\n");
    r
}

/// The text that the provider of the selection hands to the chat, from the
/// file's path, its file type and the listing of the selected lines.
pub fn selection_context_text(path: &str, file_type: &str, doc_text: &str) -> (r: String)
    ensures
        r@ == spec_selection_context_text(path@, file_type@, doc_text@),
{
    let mut r = String::from_str("# FILE:");
    r.append(path);
    r.append(" CONTEXT\nUser's active selection:\n```");
    r.append(file_type);
    r.append("\n");
    r.append(doc_text);
    r.append("\n```\n\n");
    r
}

} // verus!
