use vstd::prelude::*;
use vstd::string::StringExecFns;
use crate::messages::parts::{Part, PartModel};

verus! {

/// Builder of plain-text fragments.
pub struct PlainTextPart;

impl PlainTextPart {
    /// The fragment that holds `text`.
    pub fn from_text(text: &str) -> (part: Part)
        ensures
            part@ == PartModel::PlainText(text@),
    {
        Part::PlainText(String::from_str(text))
    }
}

} // verus!
