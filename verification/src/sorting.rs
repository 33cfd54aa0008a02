//! Rules in the order of their names.
//!
//! The derived configuration lists its entries by the name of the rule they
//! come from. Rules that share a name keep the order in which they were given.

use crate::name_order::{
    lemma_name_le_antisymmetric, lemma_name_le_reflexive, lemma_name_le_total,
    lemma_name_le_transitive, name_le, name_precedes,
};
use crate::resources::access_control_rule::{AccessControlRule, Rule};
use vstd::prelude::*;

verus! {

/// The rules that a vector of objects stands for.
pub open spec fn rules_of(objects: Seq<AccessControlRule>) -> Seq<Rule> {
    objects.map_values(|object: AccessControlRule| object@)
}

/// No rule comes before one whose name is earlier.
pub open spec fn ordered_by_name(rules: Seq<Rule>) -> bool {
    forall|i: int, j: int|
        0 <= i <= j < rules.len() ==> name_le(#[trigger] rules[i].name, #[trigger] rules[j].name)
}

/// The rules of `rules` that are called `name`, in their order.
pub open spec fn named(rules: Seq<Rule>, name: Seq<char>) -> Seq<Rule> {
    rules.filter(|rule: Rule| rule.name == name)
}

/// `sorted` holds the rules in the order of their names, and under every
/// name the rules of `rules` in the order they have there.
pub open spec fn is_stable_sort_of(sorted: Seq<Rule>, rules: Seq<Rule>) -> bool {
    &&& ordered_by_name(sorted)
    &&& forall|name: Seq<char>| #[trigger] named(sorted, name) == named(rules, name)
}

/// Rules of one name are one rule.
pub open spec fn names_identify(rules: Seq<Rule>) -> bool {
    forall|i: int, j: int|
        0 <= i < rules.len() && 0 <= j < rules.len() && #[trigger] rules[i].name
            == #[trigger] rules[j].name ==> rules[i] == rules[j]
}

/// `rule` put into `rules` in front of the first rule whose name is not
/// earlier than its own.
pub open spec fn insert_by_name(rule: Rule, rules: Seq<Rule>) -> Seq<Rule>
    decreases rules.len(),
{
    if rules.len() == 0 {
        seq![rule]
    } else if name_le(rule.name, rules[0].name) {
        seq![rule] + rules
    } else {
        seq![rules[0]] + insert_by_name(rule, rules.drop_first())
    }
}

/// The rules in the order of their names, rules of one name in the order
/// they had.
pub open spec fn sorted_by_name(rules: Seq<Rule>) -> Seq<Rule>
    decreases rules.len(),
{
    if rules.len() == 0 {
        Seq::empty()
    } else {
        insert_by_name(rules[0], sorted_by_name(rules.drop_first()))
    }
}

/// Where `rule` goes among `sorted`: the index of the first object whose
/// name is not earlier than its own, or the length if there is none. The
/// objects are in order, so the place is found by halving.
fn insertion_point(sorted: &Vec<AccessControlRule>, rule: &AccessControlRule) -> (at: usize)
    requires
        ordered_by_name(rules_of(sorted@)),
    ensures
        at <= sorted@.len(),
        forall|k: int| 0 <= k < at ==> !name_le(rule@.name, #[trigger] rules_of(sorted@)[k].name),
        at < sorted@.len() ==> name_le(rule@.name, rules_of(sorted@)[at as int].name),
{
    let mut low: usize = 0;
    let mut high: usize = sorted.len();
    while low < high
        invariant
            low <= high <= sorted@.len(),
            ordered_by_name(rules_of(sorted@)),
            forall|k: int|
                0 <= k < low ==> !name_le(rule@.name, #[trigger] rules_of(sorted@)[k].name),
            high < sorted@.len() ==> name_le(rule@.name, rules_of(sorted@)[high as int].name),
        decreases high - low,
    {
        let middle: usize = low + (high - low) / 2;
        if name_precedes(rule.name(), sorted[middle].name()) {
            high = middle;
        } else {
            proof {
                // What comes before the middle is no later than it, and so is
                // earlier than the rule as well.
                let placed = rules_of(sorted@);
                assert forall|k: int| 0 <= k <= middle implies !name_le(
                    rule@.name,
                    #[trigger] placed[k].name,
                ) by {
                    if name_le(rule@.name, placed[k].name) {
                        lemma_name_le_transitive(
                            rule@.name,
                            placed[k].name,
                            placed[middle as int].name,
                        );
                    }
                }
            }
            low = middle + 1;
        }
    }
    low
}

/// Sorts the objects by name. Objects of one name keep the order in which
/// they were given.
pub fn sort_by_name(rules: Vec<AccessControlRule>) -> (sorted: Vec<AccessControlRule>)
    ensures
        rules_of(sorted@) == sorted_by_name(rules_of(rules@)),
        is_stable_sort_of(rules_of(sorted@), rules_of(rules@)),
        rules_of(sorted@).to_multiset() == rules_of(rules@).to_multiset(),
{
    let ghost given = rules_of(rules@);
    let mut waiting = rules;
    let mut sorted: Vec<AccessControlRule> = Vec::new();
    // The objects are taken from the back, so each goes in front of those of
    // its name that are already in place.
    while waiting.len() > 0
        invariant
            waiting@.len() <= given.len(),
            rules_of(waiting@) == given.take(waiting@.len() as int),
            rules_of(sorted@) == sorted_by_name(given.skip(waiting@.len() as int)),
        decreases waiting@.len(),
    {
        let ghost placed = rules_of(sorted@);
        let ghost left = waiting@.len() - 1;
        proof {
            assert(rules_of(waiting@)[left] == given[left]);
            lemma_sorted_is_ordered(given.skip(left + 1));
        }
        let rule = waiting.pop().unwrap();
        let at = insertion_point(&sorted, &rule);
        proof {
            lemma_insert_position(rule@, placed, at as int);
            assert(given.skip(left).drop_first() =~= given.skip(left + 1));
        }
        sorted.insert(at, rule);
    }
    proof {
        assert(given.skip(0) =~= given);
        lemma_sorted_is_stable_sort(given);
        lemma_sorted_is_permutation(given);
    }
    sorted
}

/// Sorting gives the rules in the order of their names, and under every
/// name the rules in the order they had.
pub proof fn lemma_sorted_is_stable_sort(rules: Seq<Rule>)
    ensures
        is_stable_sort_of(sorted_by_name(rules), rules),
{
    lemma_sorted_is_ordered(rules);
    assert forall|name: Seq<char>|
        #[trigger] named(sorted_by_name(rules), name) == named(rules, name) by {
        lemma_sorted_is_stable(rules, name);
    }
}

/// Nothing else does: whatever is in order and holds, under every name, the
/// rules in the order they had, is the sorted sequence.
pub proof fn lemma_stable_sort_is_unique(sorted: Seq<Rule>, rules: Seq<Rule>)
    requires
        is_stable_sort_of(sorted, rules),
    ensures
        sorted == sorted_by_name(rules),
{
    lemma_sorted_is_stable_sort(rules);
    lemma_ordered_and_named_alike(sorted, sorted_by_name(rules));
}

/// Sorting neither drops a rule nor makes one up.
pub proof fn lemma_sorted_is_permutation(rules: Seq<Rule>)
    ensures
        sorted_by_name(rules).to_multiset() == rules.to_multiset(),
        sorted_by_name(rules).len() == rules.len(),
    decreases rules.len(),
{
    broadcast use vstd::seq_lib::group_to_multiset_ensures;

    if rules.len() > 0 {
        let rest = rules.drop_first();
        lemma_sorted_is_permutation(rest);
        let at = lemma_position_exists(rules[0], sorted_by_name(rest));
        vstd::seq_lib::to_multiset_insert(sorted_by_name(rest), at, rules[0]);
        vstd::seq_lib::to_multiset_insert(rest, 0, rules[0]);
        assert(rest.insert(0, rules[0]) =~= rules);
    }
}

/// The order of sorted rules does not depend on the order in which the rules
/// were given, as long as rules of one name are one rule.
pub proof fn lemma_sorted_ignores_arrival_order(first: Seq<Rule>, second: Seq<Rule>)
    requires
        first.to_multiset() == second.to_multiset(),
        names_identify(first),
    ensures
        sorted_by_name(first) == sorted_by_name(second),
{
    lemma_sorted_is_ordered(first);
    lemma_sorted_is_ordered(second);
    lemma_sorted_is_permutation(first);
    lemma_sorted_is_permutation(second);
    lemma_names_identify_in_permutation(first, sorted_by_name(first));
    lemma_ordered_rules_are_unique(sorted_by_name(first), sorted_by_name(second));
}

/// Sorted rules are in the order of their names.
pub proof fn lemma_sorted_is_ordered(rules: Seq<Rule>)
    ensures
        ordered_by_name(sorted_by_name(rules)),
    decreases rules.len(),
{
    if rules.len() > 0 {
        lemma_sorted_is_ordered(rules.drop_first());
        lemma_insert_keeps_order(rules[0], sorted_by_name(rules.drop_first()));
    }
}

/// Sorting keeps the rules of each name in the order they had.
pub proof fn lemma_sorted_is_stable(rules: Seq<Rule>, name: Seq<char>)
    ensures
        named(sorted_by_name(rules), name) == named(rules, name),
    decreases rules.len(),
{
    if rules.len() > 0 {
        let first = rules[0];
        let rest = rules.drop_first();
        let placed = sorted_by_name(rest);
        lemma_sorted_is_stable(rest, name);
        lemma_named_unfolds(rules, name);

        // The first rule goes behind `front`, which holds no rule of its name.
        let at = lemma_position_exists(first, placed);
        let front = placed.take(at);
        let back = placed.skip(at);
        let of_name = |rule: Rule| rule.name == name;
        assert(placed =~= front + back);
        assert(placed.insert(at, first) =~= front + (seq![first] + back));
        Seq::filter_distributes_over_add(front, back, of_name);
        Seq::filter_distributes_over_add(front, seq![first] + back, of_name);
        lemma_named_unfolds(seq![first] + back, name);
        assert((seq![first] + back).drop_first() =~= back);
        if first.name == name && named(front, name).len() > 0 {
            let found = named(front, name)[0];
            front.lemma_filter_pred(of_name, 0);
            front.lemma_filter_contains_rev(of_name, found);
            lemma_name_le_reflexive(name);
        }
    }
}

/// Where `insert_by_name` puts a rule: behind the rules with an earlier
/// name, in front of the others.
pub proof fn lemma_insert_position(rule: Rule, rules: Seq<Rule>, at: int)
    requires
        0 <= at <= rules.len(),
        forall|k: int| 0 <= k < at ==> !name_le(rule.name, #[trigger] rules[k].name),
        at < rules.len() ==> name_le(rule.name, rules[at].name),
    ensures
        insert_by_name(rule, rules) == rules.insert(at, rule),
    decreases rules.len(),
{
    if rules.len() == 0 {
        assert(rules.insert(at, rule) =~= seq![rule]);
    } else if at == 0 {
        assert(rules.insert(0, rule) =~= seq![rule] + rules);
    } else {
        assert(!name_le(rule.name, rules[0].name));
        let rest = rules.drop_first();
        assert forall|k: int| 0 <= k < at - 1 implies !name_le(
            rule.name,
            #[trigger] rest[k].name,
        ) by {
            assert(rest[k] == rules[k + 1]);
        }
        lemma_insert_position(rule, rest, at - 1);
        assert(rules.insert(at, rule) =~= seq![rules[0]] + rest.insert(at - 1, rule));
    }
}

/// There is a place as `lemma_insert_position` asks for it.
proof fn lemma_position_exists(rule: Rule, rules: Seq<Rule>) -> (at: int)
    ensures
        0 <= at <= rules.len(),
        forall|k: int| 0 <= k < at ==> !name_le(rule.name, #[trigger] rules[k].name),
        at < rules.len() ==> name_le(rule.name, rules[at].name),
        insert_by_name(rule, rules) == rules.insert(at, rule),
    decreases rules.len(),
{
    if rules.len() == 0 || name_le(rule.name, rules[0].name) {
        lemma_insert_position(rule, rules, 0);
        0
    } else {
        let rest = rules.drop_first();
        let at = lemma_position_exists(rule, rest) + 1;
        assert forall|k: int| 0 <= k < at implies !name_le(rule.name, #[trigger] rules[k].name) by {
            if k > 0 {
                assert(rules[k] == rest[k - 1]);
            }
        }
        lemma_insert_position(rule, rules, at);
        at
    }
}

/// Putting a rule into ordered rules leaves them ordered.
pub proof fn lemma_insert_keeps_order(rule: Rule, rules: Seq<Rule>)
    requires
        ordered_by_name(rules),
    ensures
        ordered_by_name(insert_by_name(rule, rules)),
{
    let at = lemma_position_exists(rule, rules);
    let out = rules.insert(at, rule);
    assert forall|i: int, j: int| 0 <= i <= j < out.len() implies name_le(
        #[trigger] out[i].name,
        #[trigger] out[j].name,
    ) by {
        if i == j {
            lemma_name_le_reflexive(out[i].name);
        } else if j == at {
            lemma_name_le_total(rule.name, rules[i].name);
        } else if i == at {
            lemma_name_le_transitive(rule.name, rules[at].name, rules[j - 1].name);
        }
    }
}

/// Ordered rules without the first of them are ordered.
proof fn lemma_rest_is_ordered(rules: Seq<Rule>)
    requires
        rules.len() > 0,
        ordered_by_name(rules),
    ensures
        ordered_by_name(rules.drop_first()),
{
    let rest = rules.drop_first();
    assert forall|i: int, j: int| 0 <= i <= j < rest.len() implies name_le(
        #[trigger] rest[i].name,
        #[trigger] rest[j].name,
    ) by {
        assert(rest[i] == rules[i + 1]);
        assert(rest[j] == rules[j + 1]);
    }
}

/// The rules called `name` are the first rule, if it is called so, and
/// those among the rest.
proof fn lemma_named_unfolds(rules: Seq<Rule>, name: Seq<char>)
    requires
        rules.len() > 0,
    ensures
        named(rules, name) == if rules[0].name == name {
            seq![rules[0]] + named(rules.drop_first(), name)
        } else {
            named(rules.drop_first(), name)
        },
{
    let of_name = |rule: Rule| rule.name == name;
    assert(rules =~= seq![rules[0]] + rules.drop_first());
    Seq::filter_distributes_over_add(seq![rules[0]], rules.drop_first(), of_name);
    assert(seq![rules[0]].filter(of_name) =~= if rules[0].name == name {
        seq![rules[0]]
    } else {
        Seq::<Rule>::empty()
    }) by {
        reveal_with_fuel(Seq::filter, 2);
    }
}

/// Two sequences in order that hold the same rules under every name are one
/// sequence.
proof fn lemma_ordered_and_named_alike(first: Seq<Rule>, second: Seq<Rule>)
    requires
        ordered_by_name(first),
        ordered_by_name(second),
        forall|name: Seq<char>| #[trigger] named(first, name) == named(second, name),
    ensures
        first == second,
    decreases first.len() + second.len(),
{
    if first.len() == 0 || second.len() == 0 {
        // A sequence that holds a rule holds it under its name, where an
        // empty one holds nothing.
        let (full, bare) = if first.len() > 0 {
            (first, second)
        } else {
            (second, first)
        };
        if full.len() > 0 {
            let name = full[0].name;
            lemma_named_unfolds(full, name);
            bare.lemma_filter_len(|rule: Rule| rule.name == name);
            assert(named(full, name) == named(bare, name));
        }
        assert(first =~= second);
    } else {
        let a = first[0];
        let b = second[0];
        lemma_named_unfolds(first, a.name);
        lemma_named_unfolds(second, a.name);
        lemma_named_unfolds(first, b.name);
        lemma_named_unfolds(second, b.name);
        // Each head is in the other sequence, at or behind its head. So the
        // heads have one name, and each is the first rule of that name.
        first.lemma_filter_contains_rev(|rule: Rule| rule.name == b.name, b);
        second.lemma_filter_contains_rev(|rule: Rule| rule.name == a.name, a);
        let i = choose|i: int| 0 <= i < first.len() && first[i] == b;
        let j = choose|j: int| 0 <= j < second.len() && second[j] == a;
        assert(name_le(a.name, first[i].name));
        assert(name_le(b.name, second[j].name));
        lemma_name_le_antisymmetric(a.name, b.name);
        assert(a == named(first, a.name)[0]);
        assert(b == named(second, a.name)[0]);

        let first_rest = first.drop_first();
        let second_rest = second.drop_first();
        assert forall|name: Seq<char>| #[trigger]
            named(first_rest, name) == named(second_rest, name) by {
            lemma_named_unfolds(first, name);
            lemma_named_unfolds(second, name);
            if a.name == name {
                assert(named(first_rest, name) =~= named(first, name).drop_first());
                assert(named(second_rest, name) =~= named(second, name).drop_first());
            }
        }
        lemma_rest_is_ordered(first);
        lemma_rest_is_ordered(second);
        lemma_ordered_and_named_alike(first_rest, second_rest);
        assert(first =~= seq![a] + first_rest);
        assert(second =~= seq![b] + second_rest);
    }
}

/// `names_identify` speaks of the rules, not of their order.
pub proof fn lemma_names_identify_in_permutation(rules: Seq<Rule>, other: Seq<Rule>)
    requires
        rules.to_multiset() == other.to_multiset(),
        names_identify(rules),
    ensures
        names_identify(other),
{
    broadcast use vstd::seq_lib::group_to_multiset_ensures;

    assert forall|i: int, j: int|
        0 <= i < other.len() && 0 <= j < other.len() && #[trigger] other[i].name
            == #[trigger] other[j].name implies other[i] == other[j] by {
        // Both rules are among `rules` too.
        assert(rules.to_multiset().count(other[i]) > 0);
        assert(rules.to_multiset().count(other[j]) > 0);
        let a = choose|a: int| 0 <= a < rules.len() && rules[a] == other[i];
        let b = choose|b: int| 0 <= b < rules.len() && rules[b] == other[j];
        assert(rules[a].name == rules[b].name);
    }
}

/// Two ordered sequences of the same rules are one sequence, as long as
/// rules of one name are one rule.
pub proof fn lemma_ordered_rules_are_unique(first: Seq<Rule>, second: Seq<Rule>)
    requires
        ordered_by_name(first),
        ordered_by_name(second),
        first.to_multiset() == second.to_multiset(),
        names_identify(first),
    ensures
        first == second,
    decreases first.len(),
{
    broadcast use vstd::seq_lib::group_to_multiset_ensures;
    broadcast use vstd::multiset::group_multiset_axioms;

    vstd::seq_lib::to_multiset_len(first);
    vstd::seq_lib::to_multiset_len(second);
    if first.len() == 0 {
        assert(first =~= second);
    } else {
        // Each head is in the other sequence, at or behind its head. So the
        // heads have one name, and are one rule.
        assert(first.to_multiset().count(second[0]) > 0);
        assert(second.to_multiset().count(first[0]) > 0);
        let i = choose|i: int| 0 <= i < first.len() && first[i] == second[0];
        let j = choose|j: int| 0 <= j < second.len() && second[j] == first[0];
        assert(name_le(first[0].name, first[i].name));
        assert(name_le(second[0].name, second[j].name));
        lemma_name_le_antisymmetric(first[0].name, second[0].name);
        assert(first[0] == first[i]);

        let first_rest = first.drop_first();
        let second_rest = second.drop_first();
        assert(first_rest =~= first.remove(0));
        assert(second_rest =~= second.remove(0));
        lemma_rest_is_ordered(first);
        lemma_rest_is_ordered(second);
        assert(names_identify(first_rest)) by {
            assert forall|a: int, b: int|
                0 <= a < first_rest.len() && 0 <= b < first_rest.len()
                    && #[trigger] first_rest[a].name
                    == #[trigger] first_rest[b].name implies first_rest[a] == first_rest[b] by {
                assert(first_rest[a] == first[a + 1]);
                assert(first_rest[b] == first[b + 1]);
            }
        }
        lemma_ordered_rules_are_unique(first_rest, second_rest);
        assert(first =~= seq![first[0]] + first_rest);
        assert(second =~= seq![second[0]] + second_rest);
    }
}

} // verus!
