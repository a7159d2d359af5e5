//! What a rule table makes of a set of capabilities: the least set that
//! contains it and that no rule can extend.

use crate::feature::{ids_of, Feature};
use crate::rule::RuleView;
use vstd::prelude::*;

verus! {

/// Whether no rule of the table can add anything to `present`.
pub open spec fn closed(rules: Seq<RuleView>, present: Set<nat>) -> bool {
    forall|i: int| 0 <= i < rules.len() ==> (#[trigger] rules[i]).respected_by(present)
}

/// The set after one pass: every rule of the table applied once, in table
/// order, each to what the rules before it have left.
pub open spec fn pass(rules: Seq<RuleView>, present: Set<nat>) -> Set<nat>
    decreases rules.len(),
{
    if rules.len() == 0 {
        present
    } else {
        rules.last().apply(pass(rules.drop_last(), present))
    }
}

/// The closure of `initial` under the table: the identifiers that belong
/// to every closed set that contains `initial`.
pub open spec fn closure(rules: Seq<RuleView>, initial: Set<nat>) -> Set<nat> {
    Set::new(
        |id: nat|
            forall|other: Set<nat>|
                initial.subset_of(other) && #[trigger] closed(rules, other) ==> other.contains(id),
    )
}

/// The closure contains the set it was taken of.
pub proof fn lemma_closure_extends(rules: Seq<RuleView>, initial: Set<nat>)
    ensures
        initial.subset_of(closure(rules, initial)),
{
}

/// The closure is closed.
pub proof fn lemma_closure_closed(rules: Seq<RuleView>, initial: Set<nat>)
    ensures
        closed(rules, closure(rules, initial)),
{
    let least = closure(rules, initial);
    assert forall|i: int| 0 <= i < rules.len() implies (#[trigger] rules[i]).respected_by(
        least,
    ) by {
        if rules[i].fires(least) {
            assert forall|id: nat| rules[i].implied().contains(id) implies least.contains(id) by {
                assert forall|other: Set<nat>|
                    initial.subset_of(other) && #[trigger] closed(
                        rules,
                        other,
                    ) implies other.contains(id) by {
                    assert(least.subset_of(other));
                    rules[i].lemma_fires_monotone(least, other);
                    assert(rules[i].respected_by(other));
                }
            }
        }
    }
}

/// The closure lies within every closed set that contains the initial set.
pub proof fn lemma_closure_least(rules: Seq<RuleView>, initial: Set<nat>, other: Set<nat>)
    requires
        initial.subset_of(other),
        closed(rules, other),
    ensures
        closure(rules, initial).subset_of(other),
{
}

/// A pass removes nothing.
pub proof fn lemma_pass_extends(rules: Seq<RuleView>, present: Set<nat>)
    ensures
        present.subset_of(pass(rules, present)),
    decreases rules.len(),
{
    if rules.len() > 0 {
        lemma_pass_extends(rules.drop_last(), present);
    }
}

/// A pass over a subset of a closed set stays within the closed set.
pub proof fn lemma_pass_within_closed(rules: Seq<RuleView>, present: Set<nat>, other: Set<nat>)
    requires
        present.subset_of(other),
        closed(rules, other),
    ensures
        pass(rules, present).subset_of(other),
    decreases rules.len(),
{
    if rules.len() > 0 {
        let front = rules.drop_last();
        assert forall|i: int| 0 <= i < front.len() implies (#[trigger] front[i]).respected_by(
            other,
        ) by {
            assert(front[i] == rules[i]);
        }
        lemma_pass_within_closed(front, present, other);
        let before = pass(front, present);
        if rules.last().fires(before) {
            rules.last().lemma_fires_monotone(before, other);
            assert(rules[rules.len() - 1].respected_by(other));
        }
    }
}

/// A pass changes nothing exactly when the set is closed.
pub proof fn lemma_pass_fixes_closed(rules: Seq<RuleView>, present: Set<nat>)
    ensures
        pass(rules, present) == present <==> closed(rules, present),
    decreases rules.len(),
{
    if closed(rules, present) {
        lemma_pass_within_closed(rules, present, present);
        lemma_pass_extends(rules, present);
        assert(pass(rules, present) =~= present);
    }
    if pass(rules, present) == present && rules.len() > 0 {
        let front = rules.drop_last();
        let before = pass(front, present);
        lemma_pass_extends(front, present);
        assert(before =~= present);
        lemma_pass_fixes_closed(front, present);
        assert forall|i: int| 0 <= i < rules.len() implies (#[trigger] rules[i]).respected_by(
            present,
        ) by {
            if i < front.len() {
                assert(front[i] == rules[i]);
            } else {
                assert(rules[i] == rules.last());
                if rules.last().fires(present) {
                    assert(rules.last().implied().subset_of(
                        present.union(rules.last().implied()),
                    ));
                }
            }
        }
    }
}

/// Where a pass over a set between the initial set and its closure
/// changes nothing, that set is the closure.
pub proof fn lemma_fixed_point_is_closure(
    rules: Seq<RuleView>,
    initial: Set<nat>,
    present: Set<nat>,
)
    requires
        initial.subset_of(present),
        present.subset_of(closure(rules, initial)),
        pass(rules, present) == present,
    ensures
        present == closure(rules, initial),
{
    lemma_pass_fixes_closed(rules, present);
    lemma_closure_least(rules, initial, present);
    assert(present =~= closure(rules, initial));
}

/// Resolving a resolved set changes nothing: the closure of a closure is
/// that closure.
pub proof fn lemma_closure_idempotent(rules: Seq<RuleView>, initial: Set<nat>)
    ensures
        closure(rules, closure(rules, initial)) == closure(rules, initial),
{
    let once = closure(rules, initial);
    lemma_closure_closed(rules, initial);
    lemma_closure_least(rules, once, once);
    lemma_closure_extends(rules, once);
    assert(closure(rules, once) =~= once);
}

/// The closure is the least fixed point of a pass: it is closed, a pass
/// over it changes nothing, and no closed set that contains the initial
/// set is a proper part of it.
pub proof fn lemma_closure_least_fixed_point(rules: Seq<RuleView>, initial: Set<nat>)
    ensures
        closed(rules, closure(rules, initial)),
        pass(rules, closure(rules, initial)) == closure(rules, initial),
        forall|other: Set<nat>|
            initial.subset_of(other) && other.subset_of(closure(rules, initial)) && #[trigger] closed(
                rules,
                other,
            ) ==> other == closure(rules, initial),
{
    let least = closure(rules, initial);
    lemma_closure_closed(rules, initial);
    lemma_pass_fixes_closed(rules, least);
    assert forall|other: Set<nat>|
        initial.subset_of(other) && other.subset_of(least) && #[trigger] closed(
            rules,
            other,
        ) implies other == least by {
        lemma_closure_least(rules, initial, other);
        assert(other =~= least);
    }
}

/// Whether every rule of `some` occurs in `all`.
pub open spec fn rules_among(some: Seq<RuleView>, all: Seq<RuleView>) -> bool {
    forall|i: int| 0 <= i < some.len() ==> all.contains(#[trigger] some[i])
}

/// A set closed under a table is closed under every table made of rules
/// of that table.
pub proof fn lemma_closed_under_fewer(some: Seq<RuleView>, all: Seq<RuleView>, present: Set<nat>)
    requires
        rules_among(some, all),
        closed(all, present),
    ensures
        closed(some, present),
{
    assert forall|i: int| 0 <= i < some.len() implies (#[trigger] some[i]).respected_by(
        present,
    ) by {
        assert(all.contains(some[i]));
        let j = choose|j: int| 0 <= j < all.len() && all[j] == some[i];
        assert(all[j].respected_by(present));
    }
}

/// Tables that hold the same rules give the same closure, whatever the
/// order of their rows and however often a row is repeated.
pub proof fn lemma_closure_same_rules(a: Seq<RuleView>, b: Seq<RuleView>, initial: Set<nat>)
    requires
        rules_among(a, b),
        rules_among(b, a),
    ensures
        closure(a, initial) == closure(b, initial),
{
    assert forall|other: Set<nat>| closed(a, other) == closed(b, other) by {
        if closed(a, other) {
            lemma_closed_under_fewer(b, a, other);
        }
        if closed(b, other) {
            lemma_closed_under_fewer(a, b, other);
        }
    }
    assert(closure(a, initial) =~= closure(b, initial));
}

/// The order of the rows does not matter: a table and any permutation of
/// it give the same closure.
pub proof fn lemma_closure_order_independent(
    rules: Seq<RuleView>,
    permuted: Seq<RuleView>,
    initial: Set<nat>,
)
    requires
        rules.to_multiset() == permuted.to_multiset(),
    ensures
        closure(rules, initial) == closure(permuted, initial),
{
    rules.to_multiset_ensures();
    permuted.to_multiset_ensures();
    assert forall|i: int| 0 <= i < rules.len() implies permuted.contains(#[trigger] rules[i]) by {
        assert(rules.contains(rules[i]));
        assert(permuted.to_multiset().count(rules[i]) > 0);
    }
    assert forall|i: int| 0 <= i < permuted.len() implies rules.contains(
        #[trigger] permuted[i],
    ) by {
        assert(permuted.contains(permuted[i]));
        assert(rules.to_multiset().count(permuted[i]) > 0);
    }
    lemma_closure_same_rules(rules, permuted, initial);
}

/// Nothing comes of nothing: where every rule names an antecedent, the
/// closure of the empty set is empty.
pub proof fn lemma_closure_of_empty(rules: Seq<RuleView>)
    requires
        forall|i: int| 0 <= i < rules.len() ==> (#[trigger] rules[i]).antecedents.len() > 0,
    ensures
        closure(rules, Set::<nat>::empty()) == Set::<nat>::empty(),
{
    let nothing = Set::<nat>::empty();
    assert forall|i: int| 0 <= i < rules.len() implies (#[trigger] rules[i]).respected_by(
        nothing,
    ) by {
        assert(!nothing.contains(rules[i].antecedents[0].id()));
    }
    lemma_closure_least(rules, nothing, nothing);
    assert(closure(rules, nothing) =~= nothing);
}

/// The rule that gives a group's members when the group is present.
pub open spec fn group_forward(group: Feature, members: Seq<Feature>) -> RuleView {
    RuleView::any(seq![group], members)
}

/// The rule that gives a group when all of its members are present.
pub open spec fn group_reverse(group: Feature, members: Seq<Feature>) -> RuleView {
    RuleView::all(members, seq![group])
}

/// The two rules that a group relation stands for: the group implies its
/// members, and the members together imply the group.
pub open spec fn group(group: Feature, members: Seq<Feature>) -> Seq<RuleView> {
    seq![group_forward(group, members), group_reverse(group, members)]
}

/// Whether the table holds the two rules of the group.
pub open spec fn has_group(rules: Seq<RuleView>, group: Feature, members: Seq<Feature>) -> bool {
    rules.contains(group_forward(group, members)) && rules.contains(
        group_reverse(group, members),
    )
}

/// What a rule implies is in the closure of every set on which it fires.
pub proof fn lemma_fired_rule_in_closure(
    rules: Seq<RuleView>,
    rule: RuleView,
    initial: Set<nat>,
)
    requires
        rules.contains(rule),
        rule.fires(initial),
    ensures
        rule.implied().subset_of(closure(rules, initial)),
{
    let least = closure(rules, initial);
    lemma_closure_closed(rules, initial);
    lemma_closure_extends(rules, initial);
    rule.lemma_fires_monotone(initial, least);
    let i = choose|i: int| 0 <= i < rules.len() && rules[i] == rule;
    assert(rules[i].respected_by(least));
}

/// A group and its members stand for each other: under a table that holds
/// the two rules of a group, the closure of the group alone holds every
/// member, and the closure of the members alone holds the group.
pub proof fn lemma_group_symmetry(rules: Seq<RuleView>, group: Feature, members: Seq<Feature>)
    requires
        has_group(rules, group, members),
    ensures
        ids_of(members).subset_of(closure(rules, set![group.id()])),
        closure(rules, ids_of(members)).contains(group.id()),
{
    let forward = group_forward(group, members);
    assert(set![group.id()].contains(forward.antecedents[0].id()));
    lemma_fired_rule_in_closure(rules, forward, set![group.id()]);

    let reverse = group_reverse(group, members);
    lemma_fired_rule_in_closure(rules, reverse, ids_of(members));
    assert(reverse.consequents[0].id() == group.id());
    assert(reverse.implied().contains(group.id()));
}

} // verus!
