//! Entries of the chat log, raw and decoded.

use vstd::prelude::*;
use vstd::slice::{slice_subrange, slice_to_vec};
use vstd::utf8::{decode_utf8, valid_utf8};
use crate::messages::grammar::{le_value, name_parse, parse_spec};
use crate::messages::parser::MessageParser;
use crate::messages::parts::{NamePart, Part, PartModel};
use crate::messages::search::{find_byte_from, first_byte, tail};
use crate::messages::text::{read_u32_le, text_or_bytes};
use crate::messages::types::{classify, MessageType};
use crate::messages::{model_of, Message, Parses};

verus! {

/// Number of bytes in the header of a raw entry.
pub const HEADER_LEN: usize = 8;

/// The byte that ends the sender field.
pub const DELIMITER: u8 = 0x3a;

/// The three fields of a raw entry: the header of eight bytes, the sender up
/// to the first delimiter after the header, and the message after that
/// delimiter. There is no split where the header is short or no delimiter
/// follows it.
pub open spec fn split_spec(bytes: Seq<u8>) -> Option<(Seq<u8>, Seq<u8>, Seq<u8>)> {
    if bytes.len() < 8 {
        None
    } else {
        match first_byte(tail(bytes, 8), DELIMITER) {
            None => None,
            Some(p) => Some(
                (
                    bytes.subrange(0, 8),
                    bytes.subrange(8, 8 + p),
                    bytes.subrange(8 + p + 1, bytes.len() as int),
                ),
            ),
        }
    }
}

/// A blob of fewer than eight bytes has no split.
pub proof fn lemma_split_short(bytes: Seq<u8>)
    requires
        bytes.len() < 8,
    ensures
        split_spec(bytes) is None,
{
}

/// A blob splits exactly where it holds its header and a delimiter after it,
/// and the split gives back every byte but the one delimiter.
pub proof fn lemma_split_covers(bytes: Seq<u8>)
    ensures
        match split_spec(bytes) {
            Some((header, sender, message)) => header.len() == 8 && header + sender
                + seq![DELIMITER] + message == bytes,
            None => bytes.len() < 8 || forall|i: int|
                8 <= i < bytes.len() ==> bytes[i] != DELIMITER,
        },
{
    if bytes.len() >= 8 {
        let t = tail(bytes, 8);
        crate::messages::search::lemma_first_byte_found(t, DELIMITER);
        match first_byte(t, DELIMITER) {
            Some(p) => {
                assert(t[p] == bytes[8 + p]);
                assert(bytes.subrange(0, 8) + bytes.subrange(8, 8 + p) + seq![DELIMITER]
                    + bytes.subrange(8 + p + 1, bytes.len() as int) =~= bytes);
            },
            None => {
                assert forall|i: int| 8 <= i < bytes.len() implies bytes[i] != DELIMITER by {
                    assert(!crate::messages::search::byte_at(t, i - 8, DELIMITER));
                    assert(t[i - 8] == bytes[i]);
                }
            },
        }
    }
}

/// The sender of an entry: none where the field is empty; else the name
/// structure that the field holds; else, where the field is text, a name
/// with that text as both renderings; else the bytes as they are.
pub open spec fn sender_spec(sender: Seq<u8>) -> Option<PartModel> {
    if sender.len() == 0 {
        None
    } else {
        match name_parse(sender) {
            Some(name) => Some(name),
            None => if valid_utf8(sender) {
                Some(
                    PartModel::Name {
                        real_name: Box::new(PartModel::PlainText(decode_utf8(sender))),
                        display_name: Box::new(PartModel::PlainText(decode_utf8(sender))),
                    },
                )
            } else {
                Some(PartModel::Bytes(sender))
            },
        }
    }
}

/// The mathematical value of an [`Entry`].
pub struct EntryModel {
    pub message_type: MessageType,
    pub timestamp: int,
    pub sender: Option<PartModel>,
    pub message: Seq<PartModel>,
}

/// The entry that three raw fields decode to: the seconds in the first four
/// header bytes, least significant first; the category in the fifth; the
/// sender and the message decoded on their own.
pub open spec fn entry_spec(header: Seq<u8>, sender: Seq<u8>, message: Seq<u8>) -> EntryModel {
    EntryModel {
        message_type: classify(header[4]),
        timestamp: le_value(header.subrange(0, 4)),
        sender: sender_spec(sender),
        message: parse_spec(message),
    }
}

/// A wrapper around the raw bytes of an entry.
#[derive(Debug, Clone, PartialEq, Eq)]
pub struct RawEntry {
    /// The bytes in the entry.
    pub bytes: Vec<u8>,
}

impl RawEntry {
    pub fn new(bytes: Vec<u8>) -> (raw: RawEntry)
        ensures
            raw.bytes@ == bytes@,
    {
        RawEntry { bytes }
    }

    /// Splits the bytes into header, sender and message.
    pub fn as_parts(&self) -> (parts: Option<RawEntryParts>)
        ensures
            match parts {
                Some(p) => split_spec(self.bytes@) == Some((p.header@, p.sender@, p.message@))
                    && p.well_formed(),
                None => split_spec(self.bytes@) is None,
            },
            self.bytes@.len() < 8 ==> parts is None,
    {
        let header = match self.get_header() {
            Some(h) => h,
            None => {
                return None;
            },
        };
        let bytes = self.bytes.as_slice();
        let colon: usize = match find_byte_from(bytes, HEADER_LEN, DELIMITER) {
            Some(p) => p,
            None => {
                return None;
            },
        };
        let sender = slice_to_vec(slice_subrange(bytes, HEADER_LEN, HEADER_LEN + colon));
        let message = slice_to_vec(slice_subrange(bytes, HEADER_LEN + colon + 1, bytes.len()));
        Some(RawEntryParts { header, sender, message })
    }

    /// The first eight bytes, where there are that many.
    pub fn get_header(&self) -> (header: Option<Vec<u8>>)
        ensures
            match header {
                Some(h) => self.bytes@.len() >= 8 && h@ == self.bytes@.subrange(0, 8),
                None => self.bytes@.len() < 8,
            },
    {
        if self.bytes.len() < HEADER_LEN {
            return None;
        }
        Some(slice_to_vec(slice_subrange(self.bytes.as_slice(), 0, HEADER_LEN)))
    }
}

/// The raw parts of an entry.
#[derive(Debug, Clone, PartialEq, Eq)]
pub struct RawEntryParts {
    /// The bytes for the header of the entry.
    pub header: Vec<u8>,
    /// The bytes for the sender of the entry.
    pub sender: Vec<u8>,
    /// The bytes for the message of the entry.
    pub message: Vec<u8>,
}

impl RawEntryParts {
    /// The header has its eight bytes.
    pub open spec fn well_formed(&self) -> bool {
        self.header@.len() == 8
    }

    /// Decodes the sender field.
    pub fn decode_sender(sender: &[u8]) -> (part: Option<Part>)
        ensures
            model_of(part) == sender_spec(sender@),
    {
        if sender.len() == 0 {
            return None;
        }
        match NamePart::parse(sender) {
            Some(part) => Some(part),
            None => match text_or_bytes(sender) {
                Part::PlainText(name) => Some(
                    NamePart::from_names(name.as_str(), name.as_str()),
                ),
                other => Some(other),
            },
        }
    }

    /// Converts the raw parts into a processed entry.
    pub fn as_entry(&self) -> (entry: Entry)
        requires
            self.well_formed(),
        ensures
            entry@ == entry_spec(self.header@, self.sender@, self.message@),
    {
        let message_type = self.header[4];
        let timestamp = read_u32_le(self.header.as_slice());
        let sender = RawEntryParts::decode_sender(self.sender.as_slice());
        let message = Message::new(MessageParser::parse(self.message.as_slice()));
        Entry { message_type: MessageType::from_code(message_type), timestamp, sender, message }
    }
}

/// An entry of the chat log.
#[derive(Debug, PartialEq, Eq)]
pub struct Entry {
    /// The type of message this entry contains.
    pub message_type: MessageType,
    /// The time the entry was created, in seconds since the epoch.
    pub timestamp: u32,
    /// The sender of the message, if any.
    pub sender: Option<Part>,
    /// The message of the entry.
    pub message: Message,
}

impl View for Entry {
    type V = EntryModel;

    open spec fn view(&self) -> EntryModel {
        EntryModel {
            message_type: self.message_type,
            timestamp: self.timestamp as int,
            sender: model_of(self.sender),
            message: self.message@,
        }
    }
}

/// The entry that a raw blob decodes to, if it splits into fields.
pub open spec fn decode_spec(bytes: Seq<u8>) -> Option<EntryModel> {
    match split_spec(bytes) {
        Some((header, sender, message)) => Some(entry_spec(header, sender, message)),
        None => None,
    }
}

/// What a decoder of entries returned, as a model.
pub open spec fn entry_model_of(entry: Option<Entry>) -> Option<EntryModel> {
    match entry {
        Some(e) => Some(e@),
        None => None,
    }
}

/// Decodes one raw blob, as the log holds it, into an entry.
pub fn decode_entry(bytes: Vec<u8>) -> (entry: Option<Entry>)
    ensures
        entry_model_of(entry) == decode_spec(bytes@),
{
    let raw = RawEntry::new(bytes);
    match raw.as_parts() {
        Some(parts) => Some(parts.as_entry()),
        None => None,
    }
}

} // verus!
