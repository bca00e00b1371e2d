//! Per-agent statistics of a simulation, keyed by agent name.
use crate::model::{lemma_lookup, lemma_lookup_is_last, lookup};
use crate::simulation::name_views;
use vstd::prelude::*;

verus! {

/// One whole number for each agent name that has one. Where several agents
/// of a roster bear one name, the name stands for the last of them.
#[derive(Debug)]
pub struct Statistics {
    /// The name of each agent, by handle.
    pub names: Vec<String>,
    /// The number of each agent, by handle, where it has one.
    pub values: Vec<Option<u64>>,
}

/// The statistics that give, to each name that `names` resolves to a handle
/// with a number in `values`, that number.
pub open spec fn statistics_of(names: Seq<Seq<char>>, values: Seq<Option<u64>>) -> Map<
    Seq<char>,
    u64,
> {
    Map::new(
        |name: Seq<char>|
            match lookup(names, name) {
                Some(handle) => 0 <= handle < values.len() && values[handle] is Some,
                None => false,
            },
        |name: Seq<char>| values[lookup(names, name).unwrap()].unwrap(),
    )
}

impl View for Statistics {
    type V = Map<Seq<char>, u64>;

    open spec fn view(&self) -> Map<Seq<char>, u64> {
        statistics_of(name_views(self.names@), self.values@)
    }
}

impl Statistics {
    /// The number on record for the agent that `name` stands for.
    pub fn get(&self, name: &str) -> (value: Option<u64>)
        ensures
            value == if self@.contains_key(name@) {
                Some(self@[name@])
            } else {
                None
            },
    {
        let wanted = name.to_string();
        let ghost names = name_views(self.names@);
        let mut i: usize = self.names.len();
        while i > 0
            invariant
                i <= self.names@.len(),
                wanted@ == name@,
                names == name_views(self.names@),
                forall|j: int| i <= j < names.len() ==> names[j] != name@,
            decreases i,
        {
            i -= 1;
            if self.names[i] == wanted {
                proof {
                    lemma_lookup_is_last(names, name@, i as int);
                }
                if i < self.values.len() {
                    return self.values[i];
                } else {
                    return None;
                }
            }
        }
        proof {
            lemma_lookup(names, name@);
        }
        None
    }
}

} // verus!
