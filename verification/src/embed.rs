//! Rich replies: an embed with a title, an optional description and fields.

use vstd::prelude::*;

verus! {

/// One field of an embed.
#[derive(Debug)]
pub struct EmbedField {
    pub name: String,
    pub value: String,
    pub inline: bool,
}

/// An embed reply.
#[derive(Debug)]
pub struct Embed {
    pub title: String,
    pub description: Option<String>,
    pub fields: Vec<EmbedField>,
}

/// The fields of an embed as `(name, value, inline)` triples.
pub open spec fn fields_view(fields: Seq<EmbedField>) -> Seq<(Seq<char>, Seq<char>, bool)> {
    fields.map_values(|f: EmbedField| (f.name@, f.value@, f.inline))
}

/// A field that is not shown inline.
pub fn block_field(name: String, value: String) -> (f: EmbedField)
    ensures
        f.name@ == name@,
        f.value@ == value@,
        !f.inline,
{
    EmbedField { name, value, inline: false }
}

} // verus!
