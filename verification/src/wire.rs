//! The wire format of events.
//!
//! Each event travels to observers as one JSON object with exactly two
//! members, in this order and without whitespace: `type`, one of
//! `file_added`, `file_modified` and `file_removed`, and `filename`, the
//! name as a JSON string.

use crate::event::{ChangeKind, EventView, FileChangeEvent};
use vstd::prelude::*;
use vstd::string::StringExecFns;

verus! {

#[verifier::external_type_specification]
#[verifier::external_body]
pub struct ExJsonError(serde_json::Error);

/// What `serde_json::to_string` makes of a text: its JSON string literal,
/// which is the text in double quotes with whatever escapes JSON asks for,
/// or `None` where it reports an error.
pub uninterp spec fn json_string(text: Seq<char>) -> Option<Seq<char>>;

/// Calls `serde_json::to_string` on a string slice. What comes back is
/// fixed by the text alone: the literal that `json_string` names, or an
/// error where it names none.
#[verifier::external_body]
fn quote_json(text: &str) -> (quoted: Result<String, serde_json::Error>)
    ensures
        match quoted {
            Ok(literal) => json_string(text@) == Some(literal@),
            Err(_) => json_string(text@) is None,
        },
{
    serde_json::to_string(text)
}

/// An event could not be put on the wire.
#[derive(Clone, Copy, Debug, PartialEq, Eq, Structural)]
pub enum WireError {
    /// The filename could not be written as a JSON string.
    Filename,
}

/// The value of the `type` member for each kind of event.
pub open spec fn type_tag(kind: ChangeKind) -> Seq<char> {
    match kind {
        ChangeKind::Added => "file_added"@,
        ChangeKind::Modified => "file_modified"@,
        ChangeKind::Removed => "file_removed"@,
    }
}

/// The wire text of an event of the given kind whose filename has already
/// been written as a JSON string.
pub open spec fn wire_text_of_quoted(kind: ChangeKind, quoted: Seq<char>) -> Seq<char> {
    "{\"type\":\""@ + type_tag(kind) + "\",\"filename\":"@ + quoted + "}"@
}

/// The wire text of an event, or `None` where its filename cannot be
/// written as a JSON string.
pub open spec fn wire_text(event: EventView) -> Option<Seq<char>> {
    match json_string(event.filename) {
        Some(quoted) => Some(wire_text_of_quoted(event.kind, quoted)),
        None => None,
    }
}

/// The value of the `type` member for `kind`.
pub fn tag_of(kind: ChangeKind) -> (tag: &'static str)
    ensures
        tag@ == type_tag(kind),
{
    match kind {
        ChangeKind::Added => "file_added",
        ChangeKind::Modified => "file_modified",
        ChangeKind::Removed => "file_removed",
    }
}

/// Frames the wire text of an event of the given kind around its filename,
/// which the caller has already written as a JSON string.
pub fn frame(kind: ChangeKind, quoted: &str) -> (text: String)
    ensures
        text@ == wire_text_of_quoted(kind, quoted@),
{
    let mut text = String::from_str("{\"type\":\"");
    text.append(tag_of(kind));
    text.append("\",\"filename\":");
    text.append(quoted);
    text.append("}");
    text
}

/// Writes an event as its wire text. It fails exactly where the filename
/// cannot be written as a JSON string.
pub fn to_wire(event: &FileChangeEvent) -> (encoded: Result<String, WireError>)
    ensures
        match encoded {
            Ok(text) => wire_text(event@) == Some(text@),
            Err(e) => wire_text(event@) is None && e == WireError::Filename,
        },
{
    match quote_json(event.filename()) {
        Ok(quoted) => Ok(frame(event.kind(), quoted.as_str())),
        Err(_) => Err(WireError::Filename),
    }
}

} // verus!
