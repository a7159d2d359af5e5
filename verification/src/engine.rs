//! The implication engine: applies a rule table to a bit-set store, pass
//! after pass, until a pass changes nothing.

use crate::cache::{Initializer, CAPACITY};
use crate::closure::{
    closed, closure, lemma_closure_closed, lemma_closure_extends, lemma_closure_idempotent,
    lemma_closure_least, lemma_closure_order_independent, lemma_fixed_point_is_closure,
    lemma_pass_extends, lemma_pass_fixes_closed, lemma_pass_within_closed, pass,
};
use crate::rule::{Rule, RuleView};
use vstd::prelude::*;

verus! {

/// One pass: applies every rule of the table once, in table order, to the
/// same store, so that a rule sees what the rules before it have set.
pub fn apply_all(rules: &[Rule], value: &mut Initializer)
    ensures
        final(value)@ == pass(rules.deep_view(), old(value)@),
{
    let count = rules.len();
    let mut i: usize = 0;
    while i < count
        invariant
            i <= count,
            count == rules@.len(),
            value@ == pass(rules.deep_view().take(i as int), old(value)@),
        decreases count - i,
    {
        rules[i].apply(value);
        proof {
            let done = rules.deep_view().take(i + 1);
            assert(done.drop_last() =~= rules.deep_view().take(i as int));
            assert(done.last() == rules@[i as int]@);
        }
        i += 1;
    }
    proof {
        assert(rules.deep_view().take(count as int) =~= rules.deep_view());
    }
}

/// Resolves `initial` under the table: returns the least set of
/// capabilities that contains `initial` and to which no rule of the table
/// can add anything.
///
/// The store only grows from pass to pass and holds at most [`CAPACITY`]
/// flags, so the passes come to an end.
pub fn resolve(rules: &[Rule], initial: Initializer) -> (resolved: Initializer)
    ensures
        resolved@ == closure(rules.deep_view(), initial@),
        initial@.subset_of(resolved@),
        closed(rules.deep_view(), resolved@),
        pass(rules.deep_view(), resolved@) == resolved@,
        forall|other: Set<nat>|
            initial@.subset_of(other) && #[trigger] closed(rules.deep_view(), other)
                ==> resolved@.subset_of(other),
{
    let ghost table = rules.deep_view();
    let mut value = initial;
    loop
        invariant
            table == rules.deep_view(),
            initial@.subset_of(value@),
            value@.subset_of(closure(table, initial@)),
        decreases CAPACITY - value@.len(),
    {
        let prev = value;
        apply_all(rules, &mut value);
        proof {
            lemma_closure_closed(table, initial@);
            lemma_pass_within_closed(table, prev@, closure(table, initial@));
            lemma_pass_extends(table, prev@);
        }
        if prev == value {
            proof {
                lemma_fixed_point_is_closure(table, initial@, value@);
                lemma_pass_fixes_closed(table, value@);
                lemma_closure_extends(table, initial@);
                assert forall|other: Set<nat>|
                    initial@.subset_of(other) && #[trigger] closed(
                        table,
                        other,
                    ) implies value@.subset_of(other) by {
                    lemma_closure_least(table, initial@, other);
                }
            }
            return value;
        }
        proof {
            prev.lemma_equal_by_view(value);
            prev.lemma_bounded();
            value.lemma_bounded();
            assert(!(prev@ =~= value@));
            let added = choose|id: nat| value@.contains(id) && !prev@.contains(id);
            prev@.lemma_subset_not_in_lt(value@, added);
        }
    }
}

/// Resolving is idempotent: the store resolved from a resolved store is
/// that store.
pub proof fn lemma_resolve_idempotent(
    rules: Seq<RuleView>,
    initial: Initializer,
    once: Initializer,
    twice: Initializer,
)
    requires
        once@ == closure(rules, initial@),
        twice@ == closure(rules, once@),
    ensures
        twice == once,
{
    lemma_closure_idempotent(rules, initial@);
    twice.lemma_equal_by_view(once);
}

/// Resolving does not depend on the order of the rows: the stores
/// resolved from one store under a table and under a permutation of that
/// table are equal.
pub proof fn lemma_resolve_order_independent(
    rules: Seq<RuleView>,
    permuted: Seq<RuleView>,
    initial: Initializer,
    resolved: Initializer,
    other: Initializer,
)
    requires
        rules.to_multiset() == permuted.to_multiset(),
        resolved@ == closure(rules, initial@),
        other@ == closure(permuted, initial@),
    ensures
        resolved == other,
{
    lemma_closure_order_independent(rules, permuted, initial@);
    resolved.lemma_equal_by_view(other);
}

} // verus!
