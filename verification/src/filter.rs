//! Rules of a consumer that picks the party's talk out of the log.

use vstd::prelude::*;
use vstd::slice::slice_subrange;
use crate::messages::display::{display_model, Completion};
use crate::messages::parts::{Part, PartModel};
use crate::messages::types::MessageType;
use crate::messages::HasDisplayText;

verus! {

/// The categories in which the members of a party talk.
pub open spec fn is_party_talk_spec(t: MessageType) -> bool {
    t == MessageType::Party || t == MessageType::StandardEmotes || t == MessageType::CustomEmotes
}

/// Tells whether a category is one in which the members of a party talk.
pub fn is_party_talk(t: MessageType) -> (r: bool)
    ensures
        r == is_party_talk_spec(t),
{
    t == MessageType::Party || t == MessageType::StandardEmotes || t == MessageType::CustomEmotes
}

/// The name opens with the three bytes of one of the eight glyphs that
/// number the members of a party.
pub open spec fn has_party_glyph(name: Seq<u8>) -> bool {
    name.len() >= 3 && name[0] == 0xEE && name[1] == 0x82 && 0x90 <= name[2] <= 0x97
}

/// The name without the glyph that numbers a member of a party.
pub open spec fn strip_party_bytes_spec(name: Seq<u8>) -> Seq<u8> {
    if has_party_glyph(name) {
        name.subrange(3, name.len() as int)
    } else {
        name
    }
}

/// Takes the glyph that numbers a member of a party off a name.
pub fn strip_party_bytes(name: &[u8]) -> (stripped: &[u8])
    ensures
        stripped@ == strip_party_bytes_spec(name@),
{
    if name.len() >= 3 && name[0] == 0xEE && name[1] == 0x82 && 0x90 <= name[2] && name[2]
        <= 0x97 {
        slice_subrange(name, 3, name.len())
    } else {
        name
    }
}

/// The real and the shown name of a sender: those of a name, or a text for
/// both; none for any other fragment.
pub open spec fn sender_names_spec(sender: PartModel, table: Seq<Completion>) -> Option<
    (Seq<char>, Seq<char>),
> {
    match sender {
        PartModel::Name { real_name, display_name } => Some(
            (display_model(*real_name, table), display_model(*display_name, table)),
        ),
        PartModel::PlainText(name) => Some((name, name)),
        _ => None,
    }
}

/// What a reader of names returned, as texts.
pub open spec fn names_of(r: Option<(String, String)>) -> Option<(Seq<char>, Seq<char>)> {
    match r {
        Some((a, b)) => Some((a@, b@)),
        None => None,
    }
}

/// The real and the shown name of a sender.
pub fn sender_names(sender: &Part, table: &[Completion]) -> (r: Option<(String, String)>)
    ensures
        names_of(r) == sender_names_spec(sender@, table@),
{
    match sender {
        Part::Name { real_name, display_name } => Some(
            (real_name.display_text(table), display_name.display_text(table)),
        ),
        Part::PlainText(name) => Some((name.clone(), name.clone())),
        _ => None,
    }
}

} // verus!
