//! The structure grammar, as functions on sequences of bytes.
//!
//! A message is plain bytes interleaved with structures. A structure opens
//! with the byte `0x02` and a one-byte id that selects its kind; most kinds
//! close with the byte `0x03`. Everything here is specification: the decoders
//! of the sibling modules are proved to compute these functions.

use vstd::prelude::*;
use vstd::utf8::*;
use crate::messages::parts::PartModel;
use crate::messages::search::{first_byte, first_pair, last_pair, tail};

verus! {

/// The byte that opens every structure.
pub const START: u8 = 0x02;

/// The byte that closes a structure.
pub const END: u8 = 0x03;

/// Id of a name.
pub const NAME_ID: u8 = 0x27;

/// Id of a phrase reference.
pub const AUTO_TRANSLATE_ID: u8 = 0x2e;

/// Id of a selectable span.
pub const SELECTABLE_ID: u8 = 0x13;

/// Id of a styled span.
pub const FORMATTED_ID: u8 = 0x1a;

/// Id of a percentage.
pub const PERCENTAGE_ID: u8 = 0x1d;

/// Id of an icon.
pub const ICON_ID: u8 = 0x12;

/// The value of a search that found nothing, counted as zero.
pub open spec fn or_zero(o: Option<int>) -> int {
    match o {
        Some(i) => i,
        None => 0,
    }
}

/// The byte at `i`, counted as zero where the bytes end before it.
pub open spec fn byte_or_zero(b: Seq<u8>, i: int) -> int {
    if 0 <= i < b.len() {
        b[i] as int
    } else {
        0
    }
}

/// `b` opens with the marker of the kind `id` and holds at least `min` bytes.
pub open spec fn opens_with(b: Seq<u8>, id: u8, min: int) -> bool {
    b.len() >= min && b.len() >= 2 && b[0] == START && b[1] == id
}

/// A run of plain bytes as a fragment: text where it is UTF-8, else bytes.
pub open spec fn text_or_bytes(b: Seq<u8>) -> PartModel {
    if valid_utf8(b) {
        PartModel::PlainText(decode_utf8(b))
    } else {
        PartModel::Bytes(b)
    }
}

/// What a pending run of plain bytes adds to the output: nothing where it is
/// empty, else one fragment.
pub open spec fn flush(run: Seq<u8>) -> Seq<PartModel> {
    if run.len() == 0 {
        Seq::empty()
    } else {
        seq![text_or_bytes(run)]
    }
}

/// The one fragment that stands for a display region: its only fragment, or
/// all of them in a row, or the region itself where it decodes to nothing.
pub open spec fn resolve_display(parts: Seq<PartModel>, region: Seq<u8>) -> PartModel {
    if parts.len() == 1 {
        parts[0]
    } else if parts.len() > 1 {
        PartModel::Multi(parts)
    } else {
        text_or_bytes(region)
    }
}

/// Length of a structure that is closed by a second marker and then `END`:
/// `close` is where the closing marker stands, counted from the third byte.
/// A search that finds nothing counts as zero.
pub open spec fn closed_length(b: Seq<u8>, close: Option<int>) -> int {
    let e = or_zero(close);
    3 + e + or_zero(first_byte(tail(b, e + 2), END))
}

/// Length of a name: up to the `END` that follows the first closing marker.
pub open spec fn name_length(b: Seq<u8>) -> int {
    closed_length(b, first_pair(tail(b, 2), START, NAME_ID))
}

/// Length of a span of kind `id`: up to the `END` that follows the last
/// closing marker, since a span may hold spans of its own kind.
pub open spec fn span_length(b: Seq<u8>, id: u8) -> int {
    closed_length(b, last_pair(tail(b, 2), START, id))
}

/// Length of a phrase reference: the declared length and the three bytes
/// before it.
pub open spec fn auto_translate_length(b: Seq<u8>) -> int {
    byte_or_zero(b, 2) + 3
}

/// Length of an icon: the declared length, the three bytes before it, and
/// the distance to the next `END`.
pub open spec fn icon_length(b: Seq<u8>) -> int {
    let len = byte_or_zero(b, 2);
    3 + len + or_zero(first_byte(tail(b, 2 + len), END))
}

/// Length of a percentage.
pub open spec fn percentage_length(b: Seq<u8>) -> int {
    4
}

/// The value of up to eight bytes, most significant first.
pub open spec fn be_value(b: Seq<u8>) -> int
    decreases b.len(),
{
    if b.len() == 0 {
        0
    } else {
        be_value(b.drop_last()) * 256 + b.last() as int
    }
}

/// The value of up to eight bytes, least significant first.
pub open spec fn le_value(b: Seq<u8>) -> int
    decreases b.len(),
{
    if b.len() == 0 {
        0
    } else {
        b[0] as int + 256 * le_value(b.drop_first())
    }
}

/// A variable-length integer holds one byte, or an even number of bytes up
/// to eight.
pub open spec fn var_int_ok(b: Seq<u8>) -> bool {
    b.len() == 1 || (b.len() > 0 && b.len() <= 8 && b.len() % 2 == 0)
}

/// The big-endian variable-length integer in `b`, if `b` is one.
pub open spec fn var_be(b: Seq<u8>) -> Option<int> {
    if var_int_ok(b) {
        Some(be_value(b))
    } else {
        None
    }
}

/// The little-endian variable-length integer in `b`, if `b` is one.
pub open spec fn var_le(b: Seq<u8>) -> Option<int> {
    if var_int_ok(b) {
        Some(le_value(b))
    } else {
        None
    }
}

/// `b` with a zero byte in front where it holds an odd number of bytes
/// greater than one, which leaves its big-endian value as it is.
pub open spec fn padded(b: Seq<u8>) -> Seq<u8> {
    if b.len() > 1 && b.len() % 2 == 1 {
        seq![0u8] + b
    } else {
        b
    }
}

/// The phrase reference in `b`: the category in the fourth byte, then the
/// id, big-endian, in the declared bytes that are left before the last one.
pub open spec fn auto_translate_parse(b: Seq<u8>) -> Option<PartModel> {
    if !opens_with(b, AUTO_TRANSLATE_ID, 6) {
        None
    } else {
        let declared = b[2] as int;
        if declared < 2 || 2 + declared > b.len() {
            None
        } else {
            match var_be(padded(b.subrange(4, 2 + declared))) {
                Some(id) => Some(
                    PartModel::AutoTranslate { category: b[3], id: (id as usize) as int },
                ),
                None => None,
            }
        }
    }
}

/// The icon in `b`: its id, little-endian, in the bytes between the length
/// byte and the closing `END`.
pub open spec fn icon_parse(b: Seq<u8>) -> Option<PartModel> {
    if !opens_with(b, ICON_ID, 3) {
        None
    } else {
        let len = b[2] as int;
        match first_byte(tail(b, 2 + len), END) {
            None => None,
            Some(t) => {
                if len + t < 1 {
                    None
                } else {
                    match var_le(b.subrange(3, 2 + len + t)) {
                        Some(id) => Some(PartModel::Icon(id as u64)),
                        None => None,
                    }
                }
            },
        }
    }
}

/// The percentage in `b`: four bytes, the value in the third.
pub open spec fn percentage_parse(b: Seq<u8>) -> Option<PartModel> {
    if b.len() == 4 && opens_with(b, PERCENTAGE_ID, 4) {
        Some(PartModel::Percentage(b[2]))
    } else {
        None
    }
}

/// Where the real name starts: after three bytes where the fourth is `END`,
/// else after nine.
pub open spec fn name_skip(b: Seq<u8>) -> int {
    if byte_or_zero(b, 3) == END {
        3
    } else {
        9
    }
}

/// The name in `b`. The real name ends where the third byte says; the display
/// region runs from one byte after that to the first closing marker, and is
/// decoded as a message of its own.
pub open spec fn name_parse(b: Seq<u8>) -> Option<PartModel>
    decreases b.len(), 0int, 0int,
{
    if !opens_with(b, NAME_ID, 22) {
        None
    } else {
        let real_end = b[2] as int + 2;
        match first_pair(tail(b, real_end), START, NAME_ID) {
            None => None,
            Some(p) => {
                let display_end = real_end + p;
                if name_skip(b) > real_end || real_end + 1 > display_end || display_end > b.len() {
                    None
                } else {
                    let region = b.subrange(real_end + 1, display_end);
                    Some(
                        PartModel::Name {
                            real_name: Box::new(text_or_bytes(b.subrange(name_skip(b), real_end))),
                            display_name: Box::new(
                                resolve_display(scan(region, 0, Seq::empty()), region),
                            ),
                        },
                    )
                }
            },
        }
    }
}

/// The span of kind `id` in `b`, as its info bytes and what it displays. The
/// info ends where the third byte says; the display region runs from one byte
/// after that to the last closing marker, and is decoded as a message of its
/// own.
pub open spec fn span_parse(b: Seq<u8>, id: u8) -> Option<(Seq<u8>, PartModel)>
    decreases b.len(), 0int, 0int,
{
    if !opens_with(b, id, 7) {
        None
    } else {
        let info_end = b[2] as int + 2;
        match last_pair(tail(b, info_end), START, id) {
            None => None,
            Some(p) => {
                let display_end = info_end + p;
                if 3 > info_end || info_end + 1 > display_end || display_end > b.len() {
                    None
                } else {
                    let region = b.subrange(info_end + 1, display_end);
                    Some(
                        (
                            b.subrange(3, info_end),
                            resolve_display(scan(region, 0, Seq::empty()), region),
                        ),
                    )
                }
            },
        }
    }
}

/// The id names one of the kinds.
pub open spec fn known_id(id: u8) -> bool {
    id == NAME_ID || id == AUTO_TRANSLATE_ID || id == SELECTABLE_ID || id == FORMATTED_ID || id
        == PERCENTAGE_ID || id == ICON_ID
}

/// The length that the kind `id` gives to a structure at the start of `b`.
pub open spec fn kind_length(id: u8, b: Seq<u8>) -> int {
    if id == NAME_ID {
        name_length(b)
    } else if id == AUTO_TRANSLATE_ID {
        auto_translate_length(b)
    } else if id == SELECTABLE_ID {
        span_length(b, SELECTABLE_ID)
    } else if id == FORMATTED_ID {
        span_length(b, FORMATTED_ID)
    } else if id == PERCENTAGE_ID {
        percentage_length(b)
    } else {
        icon_length(b)
    }
}

/// The fragment that the kind `id` decodes from exactly the bytes `b`.
pub open spec fn kind_parse(id: u8, b: Seq<u8>) -> Option<PartModel>
    decreases b.len(), 1int, 0int,
{
    if id == NAME_ID {
        name_parse(b)
    } else if id == AUTO_TRANSLATE_ID {
        auto_translate_parse(b)
    } else if id == SELECTABLE_ID {
        match span_parse(b, SELECTABLE_ID) {
            Some((info, display)) => Some(
                PartModel::Selectable { info: info, display: Box::new(display) },
            ),
            None => None,
        }
    } else if id == FORMATTED_ID {
        match span_parse(b, FORMATTED_ID) {
            Some((info, display)) => Some(
                PartModel::Formatted { info: info, display: Box::new(display) },
            ),
            None => None,
        }
    } else if id == PERCENTAGE_ID {
        percentage_parse(b)
    } else if id == ICON_ID {
        icon_parse(b)
    } else {
        None
    }
}

/// The structure at the start of `m`, with the number of bytes it takes: the
/// kind is chosen by the second byte, its length rule bounds the structure,
/// and its decoder must accept exactly those bytes.
pub open spec fn structure_at(m: Seq<u8>) -> Option<(int, PartModel)>
    decreases m.len(), 2int, 0int,
{
    if m.len() < 2 || !known_id(m[1]) {
        None
    } else {
        let len = kind_length(m[1], m);
        if len < 1 || len > m.len() {
            None
        } else {
            match kind_parse(m[1], m.subrange(0, len)) {
                Some(part) => Some((len, part)),
                None => None,
            }
        }
    }
}

/// The fragments that the scan gives from the place `i` of `s` on, with
/// `run` the plain bytes gathered since the last structure. A `START` that
/// opens no structure is a plain byte.
pub open spec fn scan(s: Seq<u8>, i: int, run: Seq<u8>) -> Seq<PartModel>
    decreases s.len(), 3int, s.len() - i,
{
    if i < 0 || i >= s.len() {
        flush(run)
    } else {
        let hit = if s[i] == START {
            structure_at(s.subrange(i, s.len() as int))
        } else {
            None
        };
        match hit {
            Some((len, part)) => {
                if 1 <= len <= s.len() - i {
                    flush(run) + seq![part] + scan(s, i + len, Seq::empty())
                } else {
                    scan(s, i + 1, run.push(s[i]))
                }
            },
            None => scan(s, i + 1, run.push(s[i])),
        }
    }
}

/// The fragments of a whole message.
pub open spec fn parse_spec(s: Seq<u8>) -> Seq<PartModel> {
    scan(s, 0, Seq::empty())
}

} // verus!
