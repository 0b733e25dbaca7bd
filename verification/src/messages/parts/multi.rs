use vstd::prelude::*;
use crate::messages::parts::{models, Part, PartModel};

verus! {

/// Builder of fragments that hold several fragments in a row.
pub struct MultiPart;

impl MultiPart {
    /// The fragment that holds `parts` in their order.
    pub fn from_parts(parts: Vec<Part>) -> (part: Part)
        ensures
            part@ == PartModel::Multi(models(parts@)),
    {
        let ghost all = parts@;
        let mut rest = parts;
        let mut reversed: Vec<Box<Part>> = Vec::new();
        while rest.len() > 0
            invariant
                rest@.len() + reversed@.len() == all.len(),
                rest@ =~= all.subrange(0, rest@.len() as int),
                forall|j: int|
                    0 <= j < reversed@.len() ==> *#[trigger] reversed@[j] == all[all.len() - 1 - j],
            decreases rest@.len(),
        {
            let p = rest.pop().unwrap();
            reversed.push(Box::new(p));
        }
        let mut boxed: Vec<Box<Part>> = Vec::new();
        while reversed.len() > 0
            invariant
                boxed@.len() + reversed@.len() == all.len(),
                forall|j: int|
                    0 <= j < reversed@.len() ==> *#[trigger] reversed@[j] == all[all.len() - 1 - j],
                forall|j: int| 0 <= j < boxed@.len() ==> *#[trigger] boxed@[j] == all[j],
            decreases reversed@.len(),
        {
            let p = reversed.pop().unwrap();
            boxed.push(p);
        }
        let part = Part::Multi(boxed);
        proof {
            let got = part@;
            assert(got matches PartModel::Multi(s) && s =~= models(all));
        }
        part
    }
}

} // verus!
