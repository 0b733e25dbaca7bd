//! Entries out of the lines of an exported log.
//!
//! A line holds fields between `|`: a flag, a time stamp, the category as a
//! hexadecimal number, the sender, and the message. The message may hold `|`
//! itself; the field after the last `|` of the line is no part of it.

use chrono::DateTime;
use vstd::prelude::*;
use vstd::slice::slice_subrange;
use vstd::string::StringExecFns;
use crate::messages::entries::{entry_model_of, Entry, EntryModel};
use crate::messages::grammar::{name_parse, parse_spec};
use crate::messages::parser::MessageParser;
use crate::messages::parts::NamePart;
use crate::messages::search::{find_byte_from, first_byte, last_byte, rfind_byte_from, tail};
use crate::messages::types::{classify, MessageType};
use crate::messages::{Message, Parses};
use crate::numbers::{parse_u64, read_hex};

verus! {

/// The byte that parts the fields of a line.
pub const PIPE: u8 = 0x7c;

/// The seconds since the epoch that chrono reads from a time stamp in the
/// form of RFC 3339, given as bytes; none where chrono rejects the text.
pub uninterp spec fn rfc3339_seconds(text: Seq<u8>) -> Option<int>;

/// What a reader of time stamps returned, as a mathematical integer.
pub open spec fn seconds_of(r: Option<i64>) -> Option<int> {
    match r {
        Some(v) => Some(v as int),
        None => None,
    }
}

/// Calls chrono's `DateTime::parse_from_rfc3339` on the bytes taken as text,
/// and `timestamp` on what it returns: the seconds since the epoch of the
/// instant that the text names, or nothing where the bytes are no text or no
/// such time stamp.
#[verifier::external_body]
fn parse_timestamp(text: &[u8]) -> (r: Option<i64>)
    ensures
        seconds_of(r) == rfc3339_seconds(text@),
{
    match std::str::from_utf8(text) {
        Ok(s) => match DateTime::parse_from_rfc3339(s) {
            Ok(d) => Some(d.timestamp()),
            Err(_) => None,
        },
        Err(_) => None,
    }
}

/// The first field of `s` and what follows its `|`; none where `s` holds
/// no `|`.
pub open spec fn cut(s: Seq<u8>) -> Option<(Seq<u8>, Seq<u8>)> {
    match first_byte(s, PIPE) {
        Some(p) => Some((s.subrange(0, p), s.subrange(p + 1, s.len() as int))),
        None => None,
    }
}

/// The message in what follows the sender: all of it before its last `|`,
/// and nothing where it holds no `|`.
pub open spec fn message_field(rest: Seq<u8>) -> Seq<u8> {
    match last_byte(rest, PIPE) {
        Some(q) => rest.subrange(0, q),
        None => Seq::empty(),
    }
}

/// The fields of a line.
pub struct ActFields {
    pub flag: Vec<u8>,
    pub time: Vec<u8>,
    pub kind: Vec<u8>,
    pub sender: Vec<u8>,
    pub message: Vec<u8>,
}

/// The mathematical value of [`ActFields`].
pub struct ActFieldsModel {
    pub flag: Seq<u8>,
    pub time: Seq<u8>,
    pub kind: Seq<u8>,
    pub sender: Seq<u8>,
    pub message: Seq<u8>,
}

impl View for ActFields {
    type V = ActFieldsModel;

    open spec fn view(&self) -> ActFieldsModel {
        ActFieldsModel {
            flag: self.flag@,
            time: self.time@,
            kind: self.kind@,
            sender: self.sender@,
            message: self.message@,
        }
    }
}

/// The fields of a line: four fields that each end in a `|`, then the
/// message. A line with fewer than four `|` has no fields.
pub open spec fn fields_spec(line: Seq<u8>) -> Option<ActFieldsModel> {
    match cut(line) {
        None => None,
        Some((flag, r1)) => match cut(r1) {
            None => None,
            Some((time, r2)) => match cut(r2) {
                None => None,
                Some((kind, r3)) => match cut(r3) {
                    None => None,
                    Some((sender, r4)) => Some(
                        ActFieldsModel {
                            flag: flag,
                            time: time,
                            kind: kind,
                            sender: sender,
                            message: message_field(r4),
                        },
                    ),
                },
            },
        },
    }
}

/// The flag of the lines that hold chat: `00`.
pub open spec fn is_chat_flag(flag: Seq<u8>) -> bool {
    flag.len() == 2 && flag[0] == 0x30 && flag[1] == 0x30
}

/// The entry of a line whose time stamp and category have been read: the
/// seconds cut to 32 bits, the category from the low byte of the number, the
/// sender where the field holds a name structure, and the decoded message.
pub open spec fn entry_of_fields(seconds: int, kind: int, sender: Seq<u8>, message: Seq<u8>)
    -> EntryModel {
    EntryModel {
        message_type: classify((kind % 256) as u8),
        timestamp: (seconds as u32) as int,
        sender: name_parse(sender),
        message: parse_spec(message),
    }
}

/// The entry that a line stands for: none unless the line has its fields,
/// its flag is `00`, its time stamp is one and its category is a number.
pub open spec fn line_spec(line: Seq<u8>) -> Option<EntryModel> {
    match fields_spec(line) {
        None => None,
        Some(f) => if !is_chat_flag(f.flag) {
            None
        } else {
            match (rfc3339_seconds(f.time), parse_u64(f.kind, 16)) {
                (Some(seconds), Some(kind)) => Some(
                    entry_of_fields(seconds, kind, f.sender, f.message),
                ),
                _ => None,
            }
        },
    }
}

/// What a splitter of lines returned, as a model.
pub open spec fn fields_model_of(r: Option<ActFields>) -> Option<ActFieldsModel> {
    match r {
        Some(f) => Some(f@),
        None => None,
    }
}

/// Copies the bytes of `s` from `from` up to `to`.
fn copy_range(s: &[u8], from: usize, to: usize) -> (v: Vec<u8>)
    requires
        from <= to <= s@.len(),
    ensures
        v@ == s@.subrange(from as int, to as int),
{
    vstd::slice::slice_to_vec(slice_subrange(s, from, to))
}

/// Finds the `|` that ends the field which starts at `from`.
fn find_pipe(line: &[u8], from: usize) -> (r: Option<usize>)
    requires
        from <= line@.len(),
    ensures
        match r {
            Some(p) => from <= p < line@.len() <= usize::MAX && cut(tail(line@, from as int)) == Some(
                (line@.subrange(from as int, p as int), tail(line@, p + 1)),
            ),
            None => cut(tail(line@, from as int)) is None,
        },
{
    match find_byte_from(line, from, PIPE) {
        Some(p) => {
            let ghost t = tail(line@, from as int);
            assert(t.subrange(0, p as int) =~= line@.subrange(from as int, from + p));
            assert(t.subrange(p + 1, t.len() as int) =~= tail(line@, from + p + 1));
            Some(from + p)
        },
        None => None,
    }
}

/// Finds the end of the message in what starts at `from`.
fn find_message_end(line: &[u8], from: usize) -> (end: usize)
    requires
        from <= line@.len(),
    ensures
        from <= end <= line@.len(),
        message_field(tail(line@, from as int)) == line@.subrange(from as int, end as int),
{
    match rfind_byte_from(line, from, PIPE) {
        Some(q) => {
            let ghost t = tail(line@, from as int);
            assert(t.subrange(0, q as int) =~= line@.subrange(from as int, from + q));
            from + q
        },
        None => {
            assert(line@.subrange(from as int, from as int) =~= Seq::<u8>::empty());
            from
        },
    }
}

/// Splits a line into its fields.
pub fn split_fields(line: &[u8]) -> (r: Option<ActFields>)
    ensures
        fields_model_of(r) == fields_spec(line@),
{
    assert(tail(line@, 0) =~= line@);
    let p0: usize = match find_pipe(line, 0) {
        Some(p) => p,
        None => {
            return None;
        },
    };
    let p1: usize = match find_pipe(line, p0 + 1) {
        Some(p) => p,
        None => {
            return None;
        },
    };
    let p2: usize = match find_pipe(line, p1 + 1) {
        Some(p) => p,
        None => {
            return None;
        },
    };
    let p3: usize = match find_pipe(line, p2 + 1) {
        Some(p) => p,
        None => {
            return None;
        },
    };
    let end: usize = find_message_end(line, p3 + 1);
    Some(
        ActFields {
            flag: copy_range(line, 0, p0),
            time: copy_range(line, p0 + 1, p1),
            kind: copy_range(line, p1 + 1, p2),
            sender: copy_range(line, p2 + 1, p3),
            message: copy_range(line, p3 + 1, end),
        },
    )
}

/// A reader of the lines of an exported log.
#[derive(Debug)]
pub struct ActReader {
    /// The file that holds the lines.
    pub path: String,
    /// End at the end of the file, instead of waiting for more lines.
    pub stop: bool,
}

impl ActReader {
    pub fn new(path: &str, stop: bool) -> (reader: ActReader)
        ensures
            reader.path@ == path@,
            reader.stop == stop,
    {
        ActReader { path: String::from_str(path), stop }
    }

    /// The entry of a line whose time stamp and category have been read.
    pub fn entry_from_fields(seconds: i64, kind: u64, sender: &[u8], message: &[u8]) -> (entry:
        Entry)
        ensures
            entry@ == entry_of_fields(seconds as int, kind as int, sender@, message@),
    {
        let message_type = MessageType::from_code((kind % 256) as u8);
        let timestamp = seconds as u32;
        let sender = NamePart::parse(sender);
        let message = Message::new(MessageParser::parse(message));
        Entry { message_type, timestamp, sender, message }
    }

    /// Decodes one line; none for a line that holds no chat or is malformed.
    pub fn decode_line(line: &[u8]) -> (entry: Option<Entry>)
        ensures
            entry_model_of(entry) == line_spec(line@),
    {
        let fields = match split_fields(line) {
            Some(f) => f,
            None => {
                return None;
            },
        };
        if !(fields.flag.len() == 2 && fields.flag[0] == 0x30 && fields.flag[1] == 0x30) {
            return None;
        }
        let seconds = match parse_timestamp(fields.time.as_slice()) {
            Some(s) => s,
            None => {
                return None;
            },
        };
        let kind = match read_hex(fields.kind.as_slice()) {
            Some(k) => k,
            None => {
                return None;
            },
        };
        Some(
            ActReader::entry_from_fields(
                seconds,
                kind,
                fields.sender.as_slice(),
                fields.message.as_slice(),
            ),
        )
    }
}

} // verus!
