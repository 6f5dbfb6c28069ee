//! What the library has to say to its user, and the lines in which it is shown.

use crate::text::{append_str, string_of, strings_view};
use vstd::prelude::*;

verus! {

/// What the library has to say to its user.
pub enum Message<'a> {
    Info(&'a str),
    Warning(&'a str),
    Error(&'a str),
    Index(IndexMessage<'a>),
    Tracker(TrackerMessage<'a>),
}

/// What is said of a source document during ingest.
pub enum IndexMessage<'a> {
    Adding { document_name: &'a str },
    SkippedExisting { document_name: &'a str },
}

/// An index as the registry knows it: its name and its documents root.
pub struct IndexInfo<'a> {
    pub name: &'a str,
    pub path: &'a String,
}

/// What the registry has to say.
pub enum TrackerMessage<'a> {
    AvailableIndices(Vec<IndexInfo<'a>>),
}

/// Shows messages to the user.
pub trait MessageDisplay: Sync {
    fn display(&self, message: Message);
}

/// A name and a path as Rust writes a pair of two texts for debugging: in brackets,
/// each text between double quotes, with its special characters escaped.
pub uninterp spec fn debug_pair_text(name: Seq<char>, path: Seq<char>) -> Seq<char>;

/// Stands for the `Debug` formatting of a pair of strings, what `{:?}` writes for it.
#[verifier::external_body]
fn debug_pair(name: &str, path: &String) -> (text: String)
    ensures
        text@ == debug_pair_text(name@, path@),
{
    format!("{:?}", (name, path))
}

/// A text behind a lead.
pub open spec fn led(lead: Seq<char>, text: Seq<char>) -> Seq<char> {
    lead + text
}

/// The line that lists one index.
pub open spec fn index_line(info: IndexInfo) -> Seq<char> {
    led(" - "@, debug_pair_text(info.name@, info.path@))
}

/// The lines that list some indices.
pub open spec fn index_lines(indices: Seq<IndexInfo>) -> Seq<Seq<char>> {
    Seq::new(indices.len(), |i: int| index_line(indices[i]))
}

/// The lines in which a message is shown.
pub open spec fn message_lines(message: Message) -> Seq<Seq<char>> {
    match message {
        Message::Info(text) => seq![led("Info: "@, text@)],
        Message::Warning(text) => seq![led("Warning: "@, text@)],
        Message::Error(text) => seq![led("Error: "@, text@)],
        Message::Index(IndexMessage::Adding { document_name }) => seq![
            led("Adding document: "@, document_name@),
        ],
        Message::Index(IndexMessage::SkippedExisting { document_name }) => seq![
            led("Skipped (already exists): "@, document_name@),
        ],
        Message::Tracker(TrackerMessage::AvailableIndices(indices)) => seq![
            "Currently available indices: "@,
        ] + index_lines(indices@),
    }
}

/// The line made of a lead and a text.
pub fn lead_line(lead: &str, text: &str) -> (line: String)
    ensures
        line@ == led(lead@, text@),
{
    let mut buffer: Vec<char> = Vec::new();
    append_str(&mut buffer, lead);
    append_str(&mut buffer, text);
    string_of(&buffer)
}

fn one_line(line: String) -> (lines: Vec<String>)
    ensures
        strings_view(lines@) == seq![line@],
{
    let mut lines: Vec<String> = Vec::new();
    lines.push(line);
    assert(strings_view(lines@) =~= seq![line@]);
    lines
}

/// The lines in which `message` is shown.
pub fn display_lines(message: &Message) -> (lines: Vec<String>)
    ensures
        strings_view(lines@) == message_lines(*message),
{
    match message {
        Message::Info(text) => one_line(lead_line("Info: ", text)),
        Message::Warning(text) => one_line(lead_line("Warning: ", text)),
        Message::Error(text) => one_line(lead_line("Error: ", text)),
        Message::Index(IndexMessage::Adding { document_name }) => one_line(
            lead_line("Adding document: ", document_name),
        ),
        Message::Index(IndexMessage::SkippedExisting { document_name }) => one_line(
            lead_line("Skipped (already exists): ", document_name),
        ),
        Message::Tracker(TrackerMessage::AvailableIndices(indices)) => {
            let mut lines: Vec<String> = Vec::new();
            lines.push("Currently available indices: ".to_owned());
            let mut i: usize = 0;
            assert(strings_view(lines@) =~= seq!["Currently available indices: "@] + index_lines(
                indices@,
            ).take(0));
            while i < indices.len()
                invariant
                    i <= indices.len(),
                    strings_view(lines@) == seq!["Currently available indices: "@] + index_lines(
                        indices@,
                    ).take(i as int),
                decreases indices.len() - i,
            {
                let pair = debug_pair(indices[i].name, indices[i].path);
                let line = lead_line(" - ", pair.as_str());
                let ghost before = lines@;
                lines.push(line);
                assert(strings_view(lines@) =~= strings_view(before).push(line@));
                assert(strings_view(lines@) =~= seq!["Currently available indices: "@] + index_lines(
                    indices@,
                ).take(i + 1));
                i += 1;
            }
            assert(index_lines(indices@).take(indices.len() as int) =~= index_lines(indices@));
            lines
        },
    }
}

} // verus!
