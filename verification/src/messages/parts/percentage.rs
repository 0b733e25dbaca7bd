use vstd::prelude::*;
use crate::messages::grammar::{opens_with, percentage_length, percentage_parse, PERCENTAGE_ID, START};
use crate::messages::parts::{Part, PartModel};
use crate::messages::{DeterminesLength, HasMarkerBytes, Parses, VerifiesData};

verus! {

/// The kind of a numeric annotation: marker, value, closing byte.
pub struct PercentagePart;

impl PercentagePart {
    /// The fragment that holds the value `data`.
    pub fn from_parts(data: u8) -> (part: Part)
        ensures
            part@ == PartModel::Percentage(data),
    {
        Part::Percentage(data)
    }
}

impl HasMarkerBytes for PercentagePart {
    open spec fn marker() -> (u8, u8) {
        (START, PERCENTAGE_ID)
    }

    fn marker_bytes() -> (m: (u8, u8)) {
        (START, PERCENTAGE_ID)
    }
}

impl VerifiesData for PercentagePart {
    open spec fn verifies(bytes: Seq<u8>) -> bool {
        bytes.len() == 4 && opens_with(bytes, PERCENTAGE_ID, 4)
    }

    fn verify_data(bytes: &[u8]) -> (ok: bool) {
        if bytes.len() != 4 {
            return false;
        }
        let (two, marker) = PercentagePart::marker_bytes();
        bytes[0] == two && bytes[1] == marker
    }
}

impl DeterminesLength for PercentagePart {
    open spec fn length_of(bytes: Seq<u8>) -> int {
        percentage_length(bytes)
    }

    fn determine_length(bytes: &[u8]) -> (len: usize) {
        4
    }
}

impl Parses for PercentagePart {
    open spec fn parsed(bytes: Seq<u8>) -> Option<PartModel> {
        percentage_parse(bytes)
    }

    fn parse(bytes: &[u8]) -> (part: Option<Part>) {
        if !PercentagePart::verify_data(bytes) {
            return None;
        }
        let data = bytes[2];
        Some(PercentagePart::from_parts(data))
    }
}

} // verus!
