use vstd::prelude::*;
use vstd::slice::slice_subrange;
use vstd::string::StringExecFns;
use crate::messages::grammar::{name_length, name_parse, opens_with, END, NAME_ID, START};
use crate::messages::parser::MessageParser;
use crate::messages::parts::{resolve_display, Part, PartModel};
use crate::messages::search::{find_byte_from, find_pair_from};
use crate::messages::text::text_or_bytes;
use crate::messages::{DeterminesLength, HasMarkerBytes, Parses, VerifiesData};

verus! {

/// The kind of a player's or character's name, with its two renderings.
pub struct NamePart;

impl NamePart {
    /// The name whose real and display renderings are the given texts.
    pub fn from_names(real_name: &str, display_name: &str) -> (part: Part)
        ensures
            part@ == (PartModel::Name {
                real_name: Box::new(PartModel::PlainText(real_name@)),
                display_name: Box::new(PartModel::PlainText(display_name@)),
            }),
    {
        let real_part = Part::PlainText(String::from_str(real_name));
        let display_part = Part::PlainText(String::from_str(display_name));
        NamePart::from_parts(real_part, display_part)
    }

    /// The name whose real and display renderings are the given fragments.
    pub fn from_parts(real_part: Part, display_part: Part) -> (part: Part)
        ensures
            part@ == (PartModel::Name {
                real_name: Box::new(real_part@),
                display_name: Box::new(display_part@),
            }),
    {
        Part::Name { real_name: Box::new(real_part), display_name: Box::new(display_part) }
    }
}

impl HasMarkerBytes for NamePart {
    open spec fn marker() -> (u8, u8) {
        (START, NAME_ID)
    }

    fn marker_bytes() -> (m: (u8, u8)) {
        (START, NAME_ID)
    }
}

impl VerifiesData for NamePart {
    open spec fn verifies(bytes: Seq<u8>) -> bool {
        opens_with(bytes, NAME_ID, 22)
    }

    fn verify_data(bytes: &[u8]) -> (ok: bool) {
        if bytes.len() < 22 {
            return false;
        }
        let (two, marker) = NamePart::marker_bytes();
        bytes[0] == two && bytes[1] == marker
    }
}

impl DeterminesLength for NamePart {
    open spec fn length_of(bytes: Seq<u8>) -> int {
        name_length(bytes)
    }

    fn determine_length(bytes: &[u8]) -> (len: usize) {
        let end_pos: usize = match find_pair_from(bytes, 2, START, NAME_ID) {
            Some(e) => e,
            None => 0,
        };
        let last_three: usize = match find_byte_from(bytes, end_pos + 2, END) {
            Some(t) => t,
            None => 0,
        };
        3 + end_pos + last_three
    }
}

impl Parses for NamePart {
    open spec fn parsed(bytes: Seq<u8>) -> Option<PartModel> {
        name_parse(bytes)
    }

    fn parse(bytes: &[u8]) -> (part: Option<Part>)
        decreases bytes@.len(), 2int,
    {
        if !NamePart::verify_data(bytes) {
            return None;
        }
        let real_length: usize = bytes[2] as usize + 2;
        let display_end: usize = match find_pair_from(bytes, real_length, START, NAME_ID) {
            Some(p) => real_length + p,
            None => {
                return None;
            },
        };
        let skip: usize = if bytes[3] == END {
            3
        } else {
            9
        };
        if skip > real_length || real_length + 1 > display_end {
            return None;
        }
        let real_bytes = slice_subrange(bytes, skip, real_length);
        let real_name = text_or_bytes(real_bytes);
        let display_bytes = slice_subrange(bytes, real_length + 1, display_end);
        let parts = MessageParser::parse(display_bytes);
        let display_name = resolve_display(parts, display_bytes);
        Some(NamePart::from_parts(real_name, display_name))
    }
}

} // verus!
