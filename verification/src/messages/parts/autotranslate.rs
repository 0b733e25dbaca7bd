use vstd::prelude::*;
use crate::messages::grammar::{
    auto_translate_length, auto_translate_parse, opens_with, padded, var_be, AUTO_TRANSLATE_ID,
    START,
};
use crate::messages::display::{find_completion, lookup, Completion};
use crate::messages::parts::{Part, PartModel};
use crate::messages::text;
use crate::messages::{DeterminesLength, HasMarkerBytes, Parses, VerifiesData};

verus! {

/// The kind of a phrase reference: marker, length byte, category, id,
/// closing byte.
pub struct AutoTranslatePart;

impl AutoTranslatePart {
    /// The fragment that refers to the phrase `id` of `category`.
    pub fn from_parts(category: u8, id: usize) -> (part: Part)
        ensures
            part@ == (PartModel::AutoTranslate { category: category, id: id as int }),
    {
        Part::AutoTranslate { category: category, id: id }
    }

    /// The first entry of the dictionary `table` for the phrase `id` of
    /// `category`.
    pub fn get_completion(table: &[Completion], category: u8, id: usize) -> (r: Option<
        &Completion,
    >)
        ensures
            match r {
                Some(c) => lookup(table@, category, id as int) matches Some(i) && *c == table@[i],
                None => lookup(table@, category, id as int) is None,
            },
    {
        match find_completion(table, category, id) {
            Some(i) => Some(&table[i]),
            None => None,
        }
    }

    /// The dictionary's first entry for the phrase that `part` refers to;
    /// none where `part` is no phrase reference.
    pub fn get_completion_for_part<'a>(table: &'a [Completion], part: &Part) -> (r: Option<
        &'a Completion,
    >)
        ensures
            match r {
                Some(c) => part@ matches PartModel::AutoTranslate { category, id } && lookup(
                    table@,
                    category,
                    id,
                ) matches Some(i) && *c == table@[i],
                None => part@ matches PartModel::AutoTranslate { category, id } ==> lookup(
                    table@,
                    category,
                    id,
                ) is None,
            },
    {
        match part {
            Part::AutoTranslate { category, id } => AutoTranslatePart::get_completion(
                table,
                *category,
                *id,
            ),
            _ => None,
        }
    }

    /// Reads a big-endian integer of one byte, or of an even number of bytes
    /// up to eight.
    pub fn read_var_be(bytes: &[u8]) -> (r: Option<u64>)
        ensures
            text::value_of(r) == var_be(bytes@),
    {
        text::read_var_be(bytes)
    }
}

impl HasMarkerBytes for AutoTranslatePart {
    open spec fn marker() -> (u8, u8) {
        (START, AUTO_TRANSLATE_ID)
    }

    fn marker_bytes() -> (m: (u8, u8)) {
        (START, AUTO_TRANSLATE_ID)
    }
}

impl VerifiesData for AutoTranslatePart {
    open spec fn verifies(bytes: Seq<u8>) -> bool {
        opens_with(bytes, AUTO_TRANSLATE_ID, 6)
    }

    fn verify_data(bytes: &[u8]) -> (ok: bool) {
        if bytes.len() < 6 {
            return false;
        }
        let (two, marker) = AutoTranslatePart::marker_bytes();
        bytes[0] == two && bytes[1] == marker
    }
}

impl DeterminesLength for AutoTranslatePart {
    open spec fn length_of(bytes: Seq<u8>) -> int {
        auto_translate_length(bytes)
    }

    fn determine_length(bytes: &[u8]) -> (len: usize) {
        if bytes.len() > 2 {
            bytes[2] as usize + 3
        } else {
            3
        }
    }
}

impl Parses for AutoTranslatePart {
    open spec fn parsed(bytes: Seq<u8>) -> Option<PartModel> {
        auto_translate_parse(bytes)
    }

    fn parse(bytes: &[u8]) -> (part: Option<Part>) {
        if !AutoTranslatePart::verify_data(bytes) {
            return None;
        }
        let declared: usize = bytes[2] as usize;
        let category = bytes[3];
        if declared < 2 || 2 + declared > bytes.len() {
            return None;
        }
        let end: usize = 2 + declared;
        let ghost raw = bytes@.subrange(4, end as int);
        let mut raw_bytes: Vec<u8> = Vec::new();
        if end - 4 > 1 && (end - 4) % 2 == 1 {
            raw_bytes.push(0);
        }
        let ghost lead = raw_bytes@;
        let mut k: usize = 4;
        while k < end
            invariant
                4 <= k <= end <= bytes@.len(),
                raw_bytes@ =~= lead + bytes@.subrange(4, k as int),
            decreases end - k,
        {
            raw_bytes.push(bytes[k]);
            k += 1;
        }
        assert(raw_bytes@ =~= padded(raw));
        match AutoTranslatePart::read_var_be(raw_bytes.as_slice()) {
            Some(id) => Some(AutoTranslatePart::from_parts(category, id as usize)),
            None => None,
        }
    }
}

} // verus!
