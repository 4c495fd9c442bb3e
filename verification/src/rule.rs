//! Routing rules: a target mailbox and the address predicates that select it.

use vstd::prelude::*;
use vstd::string::*;
use crate::header::{Message, ToVec};
use crate::text::{lemma_same_members, sort_strings, views};

verus! {

/// One predicate of a rule, over the sender or the recipient addresses.
#[derive(Clone, Debug)]
pub enum RuleFilter {
    /// Holds if the sender list contains exactly this address.
    ByFrom(String),
    /// Holds if the recipient list contains exactly this address.
    ByTo(String),
}

/// A target mailbox with the predicates that route a message to it.
#[derive(Clone, Debug)]
pub struct Rule {
    pub to_box: String,
    pub filter: Vec<RuleFilter>,
}

/// The predicate that a tag and an address write: the tag is `ByFrom` or
/// `ByTo`; any other tag writes none.
pub open spec fn tagged(kind: Seq<char>, params: String) -> Option<RuleFilter> {
    if kind == "ByFrom"@ {
        Some(RuleFilter::ByFrom(params))
    } else if kind == "ByTo"@ {
        Some(RuleFilter::ByTo(params))
    } else {
        None
    }
}

impl RuleFilter {
    /// The predicate holds of the message: its address is an element of the
    /// sender list (`ByFrom`) or of the recipient list (`ByTo`).
    pub open spec fn holds(&self, msg: &Message) -> bool {
        match self {
            RuleFilter::ByFrom(a) => msg.senders().contains(a@),
            RuleFilter::ByTo(a) => msg.recipients().contains(a@),
        }
    }

    /// Builds a predicate from its tag and its address, as rule files write
    /// them.
    pub fn from_tagged(kind: &str, params: String) -> (out: Option<RuleFilter>)
        ensures
            out == tagged(kind@, params),
    {
        let tag = String::from_str(kind);
        if tag == String::from_str("ByFrom") {
            Some(RuleFilter::ByFrom(params))
        } else if tag == String::from_str("ByTo") {
            Some(RuleFilter::ByTo(params))
        } else {
            None
        }
    }

    /// Tests the predicate on a message: the relevant header is flattened,
    /// sorted, and searched for the exact address.
    pub fn matches(&self, msg: &Message) -> (hit: bool)
        ensures
            hit == self.holds(msg),
    {
        let mut compare_item = match self {
            RuleFilter::ByFrom(_) => msg.from.to_vec(),
            RuleFilter::ByTo(_) => msg.to.to_vec(),
        };
        let base = match self {
            RuleFilter::ByFrom(x) => x,
            RuleFilter::ByTo(x) => x,
        };
        let ghost unsorted = views(compare_item@);
        sort_strings(&mut compare_item);
        proof {
            lemma_same_members(views(compare_item@), unsorted);
        }
        let mut i: usize = 0;
        while i < compare_item.len()
            invariant
                i <= compare_item.len(),
                self.holds(msg) == unsorted.contains(base@),
                forall|x: Seq<char>| views(compare_item@).contains(x) <==> unsorted.contains(x),
                forall|k: int| 0 <= k < i ==> views(compare_item@)[k] != base@,
            decreases compare_item.len() - i,
        {
            if compare_item[i] == *base {
                assert(views(compare_item@)[i as int] == base@);
                assert(views(compare_item@).contains(base@));
                return true;
            }
            i += 1;
        }
        assert(!views(compare_item@).contains(base@));
        false
    }
}

impl Rule {
    /// Builds a rule from its mailbox and its predicates as pairs of tag and
    /// address, in their order. One unknown tag refuses the whole rule.
    pub fn from_tagged(to_box: String, filters: &Vec<(String, String)>) -> (out: Option<Rule>)
        ensures
            out is Some <==> forall|i: int|
                0 <= i < filters@.len() ==> tagged(
                    (#[trigger] filters@[i]).0@,
                    filters@[i].1,
                ) is Some,
            out is Some ==> {
                let rule = out->0;
                &&& rule.to_box == to_box
                &&& rule.filter@.len() == filters@.len()
                &&& forall|i: int|
                    0 <= i < filters@.len() ==> Some(#[trigger] rule.filter@[i]) == tagged(
                        filters@[i].0@,
                        filters@[i].1,
                    )
            },
    {
        let mut filter: Vec<RuleFilter> = Vec::new();
        let mut i: usize = 0;
        while i < filters.len()
            invariant
                i <= filters.len(),
                filter@.len() == i,
                forall|k: int|
                    0 <= k < i ==> tagged((#[trigger] filters@[k]).0@, filters@[k].1) is Some,
                forall|k: int|
                    0 <= k < i ==> Some(#[trigger] filter@[k]) == tagged(
                        filters@[k].0@,
                        filters@[k].1,
                    ),
            decreases filters.len() - i,
        {
            match RuleFilter::from_tagged(filters[i].0.as_str(), filters[i].1.clone()) {
                Some(f) => {
                    filter.push(f);
                },
                None => {
                    return None;
                },
            }
            i += 1;
        }
        Some(Rule { to_box, filter })
    }

    /// The rule is satisfied by the message: at least one of its predicates
    /// holds.
    pub open spec fn satisfied_by(&self, msg: &Message) -> bool {
        exists|i: int| 0 <= i < self.filter@.len() && (#[trigger] self.filter@[i]).holds(msg)
    }

    /// Tests the rule on a message.
    pub fn satisfied(&self, msg: &Message) -> (hit: bool)
        ensures
            hit == self.satisfied_by(msg),
    {
        let mut i: usize = 0;
        while i < self.filter.len()
            invariant
                i <= self.filter.len(),
                forall|k: int| 0 <= k < i ==> !(#[trigger] self.filter@[k]).holds(msg),
            decreases self.filter.len() - i,
        {
            if self.filter[i].matches(msg) {
                return true;
            }
            i += 1;
        }
        false
    }
}

} // verus!
