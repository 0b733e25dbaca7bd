//! The scan that turns the bytes of a message into fragments.

use vstd::prelude::*;
use vstd::slice::slice_subrange;
use crate::messages::grammar::{
    flush, parse_spec, scan, structure_at, AUTO_TRANSLATE_ID, FORMATTED_ID, ICON_ID, NAME_ID,
    PERCENTAGE_ID, SELECTABLE_ID, START,
};
use crate::messages::parts::{
    models, AutoTranslatePart, FormattedPart, IconPart, NamePart, Part, PartModel,
    PercentagePart, SelectablePart,
};
use crate::messages::text::text_or_bytes;
use crate::messages::{DeterminesLength, Parses};

verus! {

/// What an attempt to read a structure returned, as a length and a model.
pub open spec fn structure_model(r: Option<(usize, Part)>) -> Option<(int, PartModel)> {
    match r {
        Some((len, part)) => Some((len as int, part@)),
        None => None,
    }
}

/// Pushing one fragment adds its model at the end.
pub proof fn lemma_models_push(parts: Seq<Part>, part: Part)
    ensures
        models(parts.push(part)) =~= models(parts).push(part@),
{
}

/// Moves a pending run of plain bytes to the output as one fragment, if
/// there is any.
fn flush_run(parts: &mut Vec<Part>, run: &mut Vec<u8>)
    ensures
        models(final(parts)@) =~= models(old(parts)@) + flush(old(run)@),
        final(run)@.len() == 0,
{
    if run.len() > 0 {
        let part = text_or_bytes(run.as_slice());
        proof {
            lemma_models_push(parts@, part);
        }
        parts.push(part);
        run.clear();
    }
}

/// The decoder of the message grammar.
pub struct MessageParser;

impl MessageParser {
    /// Decodes a message into its fragments, in the order of its bytes.
    pub fn parse(message: &[u8]) -> (parts: Vec<Part>)
        ensures
            models(parts@) == parse_spec(message@),
            parts@.len() == parse_spec(message@).len(),
        decreases message@.len(), 4int,
    {
        let n = message.len();
        let mut parts: Vec<Part> = Vec::new();
        let mut buf: Vec<u8> = Vec::new();
        let mut i: usize = 0;
        while i < n
            invariant
                i <= n,
                n == message@.len(),
                parse_spec(message@) =~= models(parts@) + scan(message@, i as int, buf@),
            decreases n - i,
        {
            let byte = message[i];
            let hit = if byte == START {
                MessageParser::parse_structure(slice_subrange(message, i, n))
            } else {
                None
            };
            match hit {
                Some((len, part)) => {
                    let ghost before = models(parts@);
                    let ghost run = buf@;
                    flush_run(&mut parts, &mut buf);
                    proof {
                        lemma_models_push(parts@, part);
                        assert(buf@ =~= Seq::<u8>::empty());
                        assert(scan(message@, i as int, run) =~= flush(run) + seq![part@] + scan(
                            message@,
                            i + len,
                            Seq::empty(),
                        ));
                    }
                    parts.push(part);
                    i += len;
                },
                None => {
                    buf.push(byte);
                    i += 1;
                },
            }
        }
        flush_run(&mut parts, &mut buf);
        parts
    }

    /// Reads the structure at the start of `message`, if one stands there:
    /// the fragment, and the number of bytes that it takes.
    pub fn parse_structure(message: &[u8]) -> (r: Option<(usize, Part)>)
        ensures
            structure_model(r) == structure_at(message@),
            r matches Some((len, _)) ==> 3 <= len <= message@.len(),
        decreases message@.len(), 3int,
    {
        if message.len() < 2 {
            return None;
        }
        let id = message[1];
        let length: usize = if id == NAME_ID {
            NamePart::determine_length(message)
        } else if id == AUTO_TRANSLATE_ID {
            AutoTranslatePart::determine_length(message)
        } else if id == SELECTABLE_ID {
            SelectablePart::determine_length(message)
        } else if id == FORMATTED_ID {
            FormattedPart::determine_length(message)
        } else if id == PERCENTAGE_ID {
            PercentagePart::determine_length(message)
        } else if id == ICON_ID {
            IconPart::determine_length(message)
        } else {
            return None;
        };
        if length > message.len() {
            return None;
        }
        let body = slice_subrange(message, 0, length);
        let part = if id == NAME_ID {
            NamePart::parse(body)
        } else if id == AUTO_TRANSLATE_ID {
            AutoTranslatePart::parse(body)
        } else if id == SELECTABLE_ID {
            SelectablePart::parse(body)
        } else if id == FORMATTED_ID {
            FormattedPart::parse(body)
        } else if id == PERCENTAGE_ID {
            PercentagePart::parse(body)
        } else {
            IconPart::parse(body)
        };
        match part {
            Some(p) => Some((length, p)),
            None => None,
        }
    }
}

} // verus!
