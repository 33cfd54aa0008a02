//! From a snapshot of rules to the derived configuration.

use crate::resources::access_control_rule::{
    AccessControlRule, AccessControlRuleSpec, Rule, RuleEntry,
};
use crate::sorting::{
    lemma_sorted_ignores_arrival_order, names_identify, rules_of, sort_by_name, sorted_by_name,
};
use vstd::prelude::*;

verus! {

/// The entries of the derived configuration for a snapshot: one for each
/// rule, in the order of the rules' names.
pub open spec fn derived_entries(rules: Seq<Rule>) -> Seq<RuleEntry> {
    sorted_by_name(rules).map_values(|rule: Rule| rule.entry)
}

/// The entries that a vector of specs stands for.
pub open spec fn entries_of(specs: Seq<AccessControlRuleSpec>) -> Seq<RuleEntry> {
    specs.map_values(|spec: AccessControlRuleSpec| spec@)
}

/// The access-control section that is derived from the rules of a cluster.
#[derive(Debug, PartialEq, Eq)]
pub struct DerivedConfiguration {
    rules: Vec<AccessControlRuleSpec>,
}

impl View for DerivedConfiguration {
    type V = Seq<RuleEntry>;

    closed spec fn view(&self) -> Seq<RuleEntry> {
        entries_of(self.rules@)
    }
}

impl DerivedConfiguration {
    /// The entries, in the order in which the document lists them.
    pub fn rules(&self) -> (rules: &Vec<AccessControlRuleSpec>)
        ensures
            entries_of(rules@) == self@,
    {
        &self.rules
    }
}

/// Derives the configuration from a snapshot of rules, in whatever order the
/// snapshot lists them.
pub fn aggregate(rules: Vec<AccessControlRule>) -> (config: DerivedConfiguration)
    ensures
        config@ == derived_entries(rules_of(rules@)),
{
    let sorted = sort_by_name(rules);
    let mut specs: Vec<AccessControlRuleSpec> = Vec::new();
    let mut i: usize = 0;
    while i < sorted.len()
        invariant
            i <= sorted@.len(),
            specs@.len() == i,
            forall|k: int| 0 <= k < i ==> (#[trigger] specs@[k])@ == rules_of(sorted@)[k].entry,
        decreases sorted@.len() - i,
    {
        specs.push(sorted[i].spec().clone());
        i = i + 1;
    }
    DerivedConfiguration { rules: specs }
}

/// The derived configuration does not depend on the order in which the rules
/// arrive, as long as rules of one name are one rule.
pub proof fn lemma_aggregate_ignores_arrival_order(first: Seq<Rule>, second: Seq<Rule>)
    requires
        first.to_multiset() == second.to_multiset(),
        names_identify(first),
    ensures
        derived_entries(first) == derived_entries(second),
{
    lemma_sorted_ignores_arrival_order(first, second);
}

} // verus!
