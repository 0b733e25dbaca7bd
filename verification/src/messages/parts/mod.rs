//! The fragments that a decoded message is made of.

use vstd::prelude::*;
use vstd::string::StringExecFns;
use crate::messages::display::{
    braced_text, display_all, display_model, find_completion, icon_text, placeholder_text,
    to_hex_string,
};
use crate::messages::HasDisplayText;

mod autotranslate;
mod formatted;
mod icon;
mod multi;
mod name;
mod percentage;
mod plaintext;
mod selectable;
pub mod span;

pub use crate::messages::display::Completion;
pub use self::autotranslate::AutoTranslatePart;
pub use self::formatted::FormattedPart;
pub use self::icon::IconPart;
pub use self::multi::MultiPart;
pub use self::name::NamePart;
pub use self::selectable::SelectablePart;
pub use self::percentage::PercentagePart;
pub use self::plaintext::PlainTextPart;

verus! {

/// One fragment of a decoded message.
#[derive(Debug, PartialEq, Eq)]
pub enum Part {
    /// A name, which is composed of a real name and a display name.
    Name {
        /// The real name, which is sometimes just information.
        real_name: Box<Part>,
        /// The display name, which is shown to the user.
        display_name: Box<Part>,
    },
    /// A reference into the client's phrase dictionary.
    AutoTranslate {
        /// The category of the phrase.
        category: u8,
        /// The id of the phrase inside its category.
        id: usize,
    },
    /// A span that the user can select.
    Selectable {
        /// The bytes that describe the span.
        info: Vec<u8>,
        /// What is shown for the span.
        display: Box<Part>,
    },
    /// Several fragments in a row.
    Multi(Vec<Box<Part>>),
    /// A run of text.
    PlainText(String),
    /// Bytes that are no text and no known structure.
    Bytes(Vec<u8>),
    /// A styled span.
    Formatted {
        /// The bytes that describe the style.
        info: Vec<u8>,
        /// What is shown in that style.
        display: Box<Part>,
    },
    /// A numeric annotation, shown as one space.
    Percentage(u8),
    /// A glyph, by its id.
    Icon(u64),
}

/// The mathematical value of a [`Part`]: the same tree over sequences.
pub enum PartModel {
    Name { real_name: Box<PartModel>, display_name: Box<PartModel> },
    AutoTranslate { category: u8, id: int },
    Selectable { info: Seq<u8>, display: Box<PartModel> },
    Multi(Seq<PartModel>),
    PlainText(Seq<char>),
    Bytes(Seq<u8>),
    Formatted { info: Seq<u8>, display: Box<PartModel> },
    Percentage(u8),
    Icon(u64),
}

/// The model of a fragment, by recursion over the tree.
pub open spec fn part_model(part: Part) -> PartModel
    decreases part,
{
    match part {
        Part::Name { real_name, display_name } => PartModel::Name {
            real_name: Box::new(part_model(*real_name)),
            display_name: Box::new(part_model(*display_name)),
        },
        Part::AutoTranslate { category, id } => PartModel::AutoTranslate {
            category: category,
            id: id as int,
        },
        Part::Selectable { info, display } => PartModel::Selectable {
            info: info@,
            display: Box::new(part_model(*display)),
        },
        Part::Multi(parts) => PartModel::Multi(
            Seq::new(
                parts@.len(),
                |i: int|
                    if 0 <= i < parts@.len() {
                        part_model(*parts@[i])
                    } else {
                        PartModel::Percentage(0)
                    },
            ),
        ),
        Part::PlainText(text) => PartModel::PlainText(text@),
        Part::Bytes(bytes) => PartModel::Bytes(bytes@),
        Part::Formatted { info, display } => PartModel::Formatted {
            info: info@,
            display: Box::new(part_model(*display)),
        },
        Part::Percentage(value) => PartModel::Percentage(value),
        Part::Icon(id) => PartModel::Icon(id),
    }
}

impl View for Part {
    type V = PartModel;

    open spec fn view(&self) -> PartModel {
        part_model(*self)
    }
}

/// The models of a row of fragments, in order.
pub open spec fn models(parts: Seq<Part>) -> Seq<PartModel> {
    Seq::new(parts.len(), |i: int| parts[i]@)
}

impl HasDisplayText for Part {
    open spec fn display_spec(&self, table: Seq<Completion>) -> Seq<char> {
        display_model(self@, table)
    }

    fn display_text(&self, table: &[Completion]) -> (text: String)
        decreases self,
    {
        match self {
            Part::PlainText(text) => text.clone(),
            Part::Name { real_name, display_name } => display_name.display_text(table),
            Part::AutoTranslate { category, id } => match find_completion(table, *category, *id) {
                Some(i) => {
                    let t = braced_text(table[i].value.as_str());
                        t
                },
                None => {
                    let t = placeholder_text(*category, *id);
                        t
                },
            },
            Part::Bytes(bytes) => to_hex_string(bytes.as_slice()),
            Part::Selectable { info, display } => display.display_text(table),
            Part::Formatted { info, display } => display.display_text(table),
            Part::Multi(parts) => {
                let mut text = String::new();
                let mut i: usize = 0;
                let ghost shown = self@->Multi_0;
                while i < parts.len()
                    invariant
                        i <= parts@.len(),
                        *self == Part::Multi(*parts),
                        self@ == PartModel::Multi(shown),
                        shown.len() == parts@.len(),
                        text@ == display_all(shown.subrange(0, i as int), table@),
                    decreases parts@.len() - i,
                {
                    let t = parts[i].display_text(table);
                    text.append(t.as_str());
                    proof {
                        let next = shown.subrange(0, i + 1);
                        assert(next.drop_last() =~= shown.subrange(0, i as int));
                        assert(next.last() == part_model(*parts@[i as int]));
                    }
                    i += 1;
                }
                assert(shown.subrange(0, parts@.len() as int) =~= shown);
                text
            },
            Part::Percentage(value) => {
                proof {
                    reveal_strlit(" ");
                }
                let s = String::from_str(" ");
                assert(s@ =~= seq![' ']);
                s
            },
            Part::Icon(id) => icon_text(*id),
        }
    }
}

/// The one fragment that stands for a display region: its only fragment, or
/// all of them in a row, or the region itself where it decoded to nothing.
pub fn resolve_display(parts: Vec<Part>, region: &[u8]) -> (part: Part)
    ensures
        part@ == crate::messages::grammar::resolve_display(models(parts@), region@),
{
    let mut parts = parts;
    if parts.len() == 1 {
        parts.remove(0)
    } else if parts.len() > 1 {
        MultiPart::from_parts(parts)
    } else {
        crate::messages::text::text_or_bytes(region)
    }
}

} // verus!
