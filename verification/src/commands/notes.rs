//! `addnote <member> <note>`: staff notes on members.

use vstd::prelude::*;

verus! {

/// What `addnote` does with the note it is given.
#[derive(Debug)]
pub enum NoteAction {
    /// The note is empty: answer "Did not add note.".
    Refuse(String),
    /// Append the note to the member's notes.
    Append,
}

/// Refuses an empty note.
pub fn note_action(note: &str) -> (res: NoteAction)
    ensures
        note@.len() == 0 <==> res is Refuse,
        res matches NoteAction::Refuse(t) ==> t@ == "Did not add note."@,
{
    if note.is_empty() {
        NoteAction::Refuse(String::from_str("Did not add note."))
    } else {
        NoteAction::Append
    }
}

/// The member's notes with a new note on a line of its own.
pub fn append_note(notes: &str, note: &str) -> (res: String)
    ensures
        res@ == notes@ + "\n"@ + note@,
{
    let mut t = String::from_str(notes);
    t.append("\n");
    t.append(note);
    t
}

} // verus!
