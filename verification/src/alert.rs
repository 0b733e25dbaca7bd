//! Rules of a consumer that raises an alert when someone is defeated.

use vstd::prelude::*;
use vstd::utf8::encode_utf8;
use crate::messages::entries::{Entry, EntryModel};
use crate::messages::parts::{Part, PartModel};
use crate::messages::types::MessageType;

verus! {

/// Seconds that must pass between two alerts.
pub const ALERT_PAUSE: i64 = 30;

/// The bytes of `You are defeated by `.
pub open spec fn self_defeated() -> Seq<u8> {
    seq![0x59, 0x6f, 0x75, 0x20, 0x61, 0x72, 0x65, 0x20, 0x64, 0x65, 0x66, 0x65, 0x61, 0x74, 0x65, 0x64, 0x20, 0x62, 0x79, 0x20]
}

/// The bytes of ` is defeated by `.
pub open spec fn other_defeated() -> Seq<u8> {
    seq![0x20, 0x69, 0x73, 0x20, 0x64, 0x65, 0x66, 0x65, 0x61, 0x74, 0x65, 0x64, 0x20, 0x62, 0x79, 0x20]
}

/// `s` starts with `prefix`.
pub open spec fn has_prefix(s: Seq<u8>, prefix: Seq<u8>) -> bool {
    prefix.len() <= s.len() && s.subrange(0, prefix.len() as int) == prefix
}

/// The first text among fragments, from the place `i` on.
pub open spec fn first_text(parts: Seq<PartModel>, i: int) -> Option<Seq<char>>
    decreases parts.len() - i,
{
    if i < 0 || i >= parts.len() {
        None
    } else {
        match parts[i] {
            PartModel::PlainText(text) => Some(text),
            _ => first_text(parts, i + 1),
        }
    }
}

/// The entry tells of a defeat: it is a battle message whose first text
/// starts with one of the two phrases.
pub open spec fn is_defeat(entry: EntryModel) -> bool {
    &&& entry.message_type == MessageType::BattleSystemMessages || entry.message_type
        == MessageType::BattleDeath
    &&& match first_text(entry.message, 0) {
        Some(text) => has_prefix(encode_utf8(text), self_defeated()) || has_prefix(
            encode_utf8(text),
            other_defeated(),
        ),
        None => false,
    }
}

/// An alert is due for a message of the time `at`: the message is younger
/// than the start of the program, and the last alert, if any, lies more than
/// the pause back. Times are seconds since the epoch.
pub open spec fn alert_due_spec(at: int, start: int, last: Option<int>) -> bool {
    at > start && match last {
        Some(l) => at - l > ALERT_PAUSE,
        None => true,
    }
}

/// Tells whether `s` starts with `prefix`.
pub fn starts_with(s: &[u8], prefix: &[u8]) -> (r: bool)
    ensures
        r == has_prefix(s@, prefix@),
{
    if prefix.len() > s.len() {
        return false;
    }
    let mut i: usize = 0;
    while i < prefix.len()
        invariant
            i <= prefix@.len() <= s@.len(),
            forall|j: int| 0 <= j < i ==> s@[j] == prefix@[j],
        decreases prefix@.len() - i,
    {
        if s[i] != prefix[i] {
            assert(s@.subrange(0, prefix@.len() as int)[i as int] != prefix@[i as int]);
            return false;
        }
        i += 1;
    }
    assert(s@.subrange(0, prefix@.len() as int) =~= prefix@);
    true
}

/// Tells whether an entry tells of a defeat.
pub fn is_defeat_notice(entry: &Entry) -> (r: bool)
    ensures
        r == is_defeat(entry@),
{
    if entry.message_type != MessageType::BattleSystemMessages && entry.message_type
        != MessageType::BattleDeath {
        return false;
    }
    let parts = &entry.message.parts;
    let mut i: usize = 0;
    while i < parts.len()
        invariant
            i <= parts@.len(),
            entry.message_type == MessageType::BattleSystemMessages || entry.message_type
                == MessageType::BattleDeath,
            entry.message@.len() == parts@.len(),
            forall|j: int| 0 <= j < parts@.len() ==> entry.message@[j] == parts@[j]@,
            first_text(entry.message@, 0) == first_text(entry.message@, i as int),
        decreases parts@.len() - i,
    {
        match &parts[i] {
            Part::PlainText(text) => {
                let bytes = text.as_str().as_bytes();
                assert(parts@[i as int]@ == PartModel::PlainText(text@));
                assert(first_text(entry.message@, i as int) == Some(text@));
                assert(bytes@ == encode_utf8(text@));
                let you: Vec<u8> = vec![0x59, 0x6f, 0x75, 0x20, 0x61, 0x72, 0x65, 0x20, 0x64, 0x65, 0x66, 0x65, 0x61, 0x74, 0x65, 0x64, 0x20, 0x62, 0x79, 0x20];
                let other: Vec<u8> = vec![0x20, 0x69, 0x73, 0x20, 0x64, 0x65, 0x66, 0x65, 0x61, 0x74, 0x65, 0x64, 0x20, 0x62, 0x79, 0x20];
                assert(you@ =~= self_defeated());
                assert(other@ =~= other_defeated());
                return starts_with(bytes, you.as_slice()) || starts_with(
                    bytes,
                    other.as_slice(),
                );
            },
            _ => {
                assert(!(parts@[i as int]@ is PlainText));
            },
        }
        i += 1;
    }
    false
}

/// Tells whether an alert is due for a message of the time `at`.
pub fn alert_due(at: i64, start: i64, last: Option<i64>) -> (r: bool)
    ensures
        r == alert_due_spec(
            at as int,
            start as int,
            match last {
                Some(l) => Some(l as int),
                None => None,
            },
        ),
{
    if at <= start {
        return false;
    }
    match last {
        Some(l) => at > l && (at as i128) - (l as i128) > ALERT_PAUSE as i128,
        None => true,
    }
}

} // verus!
