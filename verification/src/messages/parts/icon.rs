use vstd::prelude::*;
use vstd::slice::slice_subrange;
use crate::messages::grammar::{icon_length, icon_parse, opens_with, END, ICON_ID, START};
use crate::messages::parts::{Part, PartModel};
use crate::messages::search::find_byte_from;
use crate::messages::text::read_var_le;
use crate::messages::{DeterminesLength, HasMarkerBytes, Parses, VerifiesData};

verus! {

/// The kind of a glyph reference: marker, length byte, id, closing byte.
pub struct IconPart;

impl IconPart {
    /// The fragment that holds the glyph id `data`.
    pub fn from_parts(data: u64) -> (part: Part)
        ensures
            part@ == PartModel::Icon(data),
    {
        Part::Icon(data)
    }
}

impl HasMarkerBytes for IconPart {
    open spec fn marker() -> (u8, u8) {
        (START, ICON_ID)
    }

    fn marker_bytes() -> (m: (u8, u8)) {
        (START, ICON_ID)
    }
}

impl VerifiesData for IconPart {
    open spec fn verifies(bytes: Seq<u8>) -> bool {
        opens_with(bytes, ICON_ID, 3)
    }

    fn verify_data(bytes: &[u8]) -> (ok: bool) {
        if bytes.len() < 3 {
            return false;
        }
        let (two, marker) = IconPart::marker_bytes();
        bytes[0] == two && bytes[1] == marker
    }
}

impl DeterminesLength for IconPart {
    open spec fn length_of(bytes: Seq<u8>) -> int {
        icon_length(bytes)
    }

    fn determine_length(bytes: &[u8]) -> (len: usize) {
        let len: usize = if bytes.len() > 2 {
            bytes[2] as usize
        } else {
            0
        };
        let last_three: usize = match find_byte_from(bytes, 2 + len, END) {
            Some(t) => t,
            None => 0,
        };
        3 + len + last_three
    }
}

impl Parses for IconPart {
    open spec fn parsed(bytes: Seq<u8>) -> Option<PartModel> {
        icon_parse(bytes)
    }

    fn parse(bytes: &[u8]) -> (part: Option<Part>) {
        if !IconPart::verify_data(bytes) {
            return None;
        }
        let len: usize = bytes[2] as usize;
        let last_three: usize = match find_byte_from(bytes, 2 + len, END) {
            Some(t) => t,
            None => {
                return None;
            },
        };
        if len + last_three < 1 {
            return None;
        }
        let raw_data = slice_subrange(bytes, 3, 2 + len + last_three);
        match read_var_le(raw_data) {
            Some(data) => Some(IconPart::from_parts(data)),
            None => None,
        }
    }
}

} // verus!
