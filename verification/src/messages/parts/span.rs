//! What selectable and styled spans share: a region of info bytes, then a
//! display region that runs to the last closing marker.

use vstd::prelude::*;
use vstd::slice::{slice_subrange, slice_to_vec};
use crate::messages::grammar::{span_length, span_parse, END, START};
use crate::messages::parser::MessageParser;
use crate::messages::parts::{resolve_display, Part};
use crate::messages::search::{find_byte_from, rfind_pair_from};

verus! {

/// What a span decoder returned, as info bytes and the model of the display.
pub open spec fn span_model(r: Option<(Vec<u8>, Part)>) -> Option<
    (Seq<u8>, crate::messages::parts::PartModel),
> {
    match r {
        Some((info, display)) => Some((info@, display@)),
        None => None,
    }
}

/// The length of a span of kind `id` at the start of `bytes`.
pub fn determine_span_length(bytes: &[u8], id: u8) -> (len: usize)
    ensures
        len as int == span_length(bytes@, id),
        len >= 3,
{
    let end_pos: usize = match rfind_pair_from(bytes, 2, START, id) {
        Some(e) => e,
        None => 0,
    };
    let last_three: usize = match find_byte_from(bytes, end_pos + 2, END) {
        Some(t) => t,
        None => 0,
    };
    3 + end_pos + last_three
}

/// Whether `bytes` can hold a span of kind `id`.
pub fn verify_span(bytes: &[u8], id: u8) -> (ok: bool)
    ensures
        ok == crate::messages::grammar::opens_with(bytes@, id, 7),
{
    if bytes.len() < 7 {
        return false;
    }
    bytes[0] == START && bytes[1] == id
}

/// Decodes the span of kind `id` that `bytes` holds into its info bytes and
/// what it displays.
pub fn parse_span(bytes: &[u8], id: u8) -> (r: Option<(Vec<u8>, Part)>)
    ensures
        span_model(r) == span_parse(bytes@, id),
    decreases bytes@.len(), 1int,
{
    if !verify_span(bytes, id) {
        return None;
    }
    let info_length: usize = bytes[2] as usize + 2;
    let display_end: usize = match rfind_pair_from(bytes, info_length, START, id) {
        Some(p) => info_length + p,
        None => {
            return None;
        },
    };
    if 3 > info_length || info_length + 1 > display_end {
        return None;
    }
    let info_bytes = slice_subrange(bytes, 3, info_length);
    let display_bytes = slice_subrange(bytes, info_length + 1, display_end);
    let parts = MessageParser::parse(display_bytes);
    let display_part = resolve_display(parts, display_bytes);
    Some((slice_to_vec(info_bytes), display_part))
}

} // verus!
