//! Message processing.

use vstd::prelude::*;
use vstd::string::StringExecFns;
use crate::messages::display::{display_all, Completion};
use crate::messages::parts::{models, Part, PartModel};

pub mod display;
pub mod entries;
pub mod grammar;
pub mod laws;
pub mod parser;
pub mod parts;
pub mod search;
pub mod text;
pub mod types;

pub use self::types::MessageType;



verus! {

/// The model of an optional fragment.
pub open spec fn model_of(part: Option<Part>) -> Option<PartModel> {
    match part {
        Some(p) => Some(p@),
        None => None,
    }
}

/// A decoded message: its fragments in the order of its bytes, which is the
/// order in which they are shown.
#[derive(Debug, PartialEq, Eq)]
pub struct Message {
    pub parts: Vec<Part>,
}

impl View for Message {
    type V = Seq<PartModel>;

    open spec fn view(&self) -> Seq<PartModel> {
        crate::messages::parts::models(self.parts@)
    }
}

impl Message {
    pub fn new(parts: Vec<Part>) -> (message: Message)
        ensures
            message.parts == parts,
    {
        Message { parts }
    }
}

/// What can be shown as text.
pub trait HasDisplayText {
    /// The text that is shown, with `table` as the phrase dictionary.
    spec fn display_spec(&self, table: Seq<Completion>) -> Seq<char>;

    fn display_text(&self, table: &[Completion]) -> (text: String)
        ensures
            text@ == self.display_spec(table@),
    ;
}

impl HasDisplayText for Message {
    open spec fn display_spec(&self, table: Seq<Completion>) -> Seq<char> {
        display_all(self@, table)
    }

    fn display_text(&self, table: &[Completion]) -> (text: String) {
        let mut text = String::new();
        let mut i: usize = 0;
        while i < self.parts.len()
            invariant
                i <= self.parts@.len(),
                self@.len() == self.parts@.len(),
                text@ == display_all(self@.subrange(0, i as int), table@),
            decreases self.parts@.len() - i,
        {
            let t = self.parts[i].display_text(table);
            text.append(t.as_str());
            proof {
                let next = self@.subrange(0, i + 1);
                assert(next.drop_last() =~= self@.subrange(0, i as int));
                assert(next.last() == self.parts@[i as int]@);
            }
            i += 1;
        }
        assert(self@.subrange(0, self.parts@.len() as int) =~= self@);
        text
    }
}

/// A kind of structure has the two bytes that open it.
pub trait HasMarkerBytes {
    /// The two bytes that open a structure of this kind.
    spec fn marker() -> (u8, u8);

    fn marker_bytes() -> (m: (u8, u8))
        ensures
            m == Self::marker(),
    ;
}

/// A kind of structure tells whether bytes can hold one of its own.
pub trait VerifiesData {
    /// The bytes are long enough for this kind and open with its marker.
    spec fn verifies(bytes: Seq<u8>) -> bool;

    fn verify_data(bytes: &[u8]) -> (ok: bool)
        ensures
            ok == Self::verifies(bytes@),
    ;
}

/// A kind of structure tells how many bytes one of its own takes.
pub trait DeterminesLength {
    /// The number of bytes that a structure of this kind at the start of
    /// `bytes` takes, its marker and its closing byte included.
    spec fn length_of(bytes: Seq<u8>) -> int;

    fn determine_length(bytes: &[u8]) -> (len: usize)
        ensures
            len as int == Self::length_of(bytes@),
            len >= 3,
    ;
}

/// A kind of structure decodes the bytes of one of its own.
pub trait Parses {
    /// The fragment that this kind decodes from exactly `bytes`, if any.
    spec fn parsed(bytes: Seq<u8>) -> Option<PartModel>;

    fn parse(bytes: &[u8]) -> (part: Option<Part>)
        ensures
            model_of(part) == Self::parsed(bytes@),
    ;
}

} // verus!
