use vstd::prelude::*;
use crate::messages::grammar::{kind_parse, opens_with, span_length, FORMATTED_ID, START};
use crate::messages::parts::span::{determine_span_length, parse_span, verify_span};
use crate::messages::parts::{Part, PartModel};
use crate::messages::{DeterminesLength, HasMarkerBytes, Parses, VerifiesData};

verus! {

/// The kind of a styled span, such as italic text.
pub struct FormattedPart;

impl FormattedPart {
    /// The styled span with the given info bytes and display.
    pub fn from_parts(info: Vec<u8>, display: Part) -> (part: Part)
        ensures
            part@ == (PartModel::Formatted { info: info@, display: Box::new(display@) }),
    {
        Part::Formatted { info: info, display: Box::new(display) }
    }
}

impl HasMarkerBytes for FormattedPart {
    open spec fn marker() -> (u8, u8) {
        (START, FORMATTED_ID)
    }

    fn marker_bytes() -> (m: (u8, u8)) {
        (START, FORMATTED_ID)
    }
}

impl VerifiesData for FormattedPart {
    open spec fn verifies(bytes: Seq<u8>) -> bool {
        opens_with(bytes, FORMATTED_ID, 7)
    }

    fn verify_data(bytes: &[u8]) -> (ok: bool) {
        verify_span(bytes, FORMATTED_ID)
    }
}

impl DeterminesLength for FormattedPart {
    open spec fn length_of(bytes: Seq<u8>) -> int {
        span_length(bytes, FORMATTED_ID)
    }

    fn determine_length(bytes: &[u8]) -> (len: usize) {
        determine_span_length(bytes, FORMATTED_ID)
    }
}

impl Parses for FormattedPart {
    open spec fn parsed(bytes: Seq<u8>) -> Option<PartModel> {
        kind_parse(FORMATTED_ID, bytes)
    }

    fn parse(bytes: &[u8]) -> (part: Option<Part>)
        decreases bytes@.len(), 2int,
    {
        match parse_span(bytes, FORMATTED_ID) {
            Some((info, display)) => Some(FormattedPart::from_parts(info, display)),
            None => None,
        }
    }
}

} // verus!
