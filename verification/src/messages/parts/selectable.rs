use vstd::prelude::*;
use crate::messages::grammar::{kind_parse, opens_with, span_length, SELECTABLE_ID, START};
use crate::messages::parts::span::{determine_span_length, parse_span, verify_span};
use crate::messages::parts::{Part, PartModel};
use crate::messages::{DeterminesLength, HasMarkerBytes, Parses, VerifiesData};

verus! {

/// The kind of a span that the user can select.
pub struct SelectablePart;

impl SelectablePart {
    /// The selectable span with the given info bytes and display.
    pub fn from_parts(info: Vec<u8>, display: Part) -> (part: Part)
        ensures
            part@ == (PartModel::Selectable { info: info@, display: Box::new(display@) }),
    {
        Part::Selectable { info: info, display: Box::new(display) }
    }
}

impl HasMarkerBytes for SelectablePart {
    open spec fn marker() -> (u8, u8) {
        (START, SELECTABLE_ID)
    }

    fn marker_bytes() -> (m: (u8, u8)) {
        (START, SELECTABLE_ID)
    }
}

impl VerifiesData for SelectablePart {
    open spec fn verifies(bytes: Seq<u8>) -> bool {
        opens_with(bytes, SELECTABLE_ID, 7)
    }

    fn verify_data(bytes: &[u8]) -> (ok: bool) {
        verify_span(bytes, SELECTABLE_ID)
    }
}

impl DeterminesLength for SelectablePart {
    open spec fn length_of(bytes: Seq<u8>) -> int {
        span_length(bytes, SELECTABLE_ID)
    }

    fn determine_length(bytes: &[u8]) -> (len: usize) {
        determine_span_length(bytes, SELECTABLE_ID)
    }
}

impl Parses for SelectablePart {
    open spec fn parsed(bytes: Seq<u8>) -> Option<PartModel> {
        kind_parse(SELECTABLE_ID, bytes)
    }

    fn parse(bytes: &[u8]) -> (part: Option<Part>)
        decreases bytes@.len(), 2int,
    {
        match parse_span(bytes, SELECTABLE_ID) {
            Some((info, display)) => Some(SelectablePart::from_parts(info, display)),
            None => None,
        }
    }
}

} // verus!
