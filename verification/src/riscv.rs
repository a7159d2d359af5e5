//! The relations between RISC-V extensions, and the resolution of a set of
//! detected extensions under them.
//!
//! Some extensions cannot be detected by themselves, and some are defined
//! in terms of others. The table here says which extensions follow from
//! which. It checks nothing: a set that holds conflicting extensions is
//! resolved like any other, and keeping such sets out is the business of
//! whoever detects the extensions.

use crate::cache::Initializer;
use crate::closure::{
    closed, closure, group, group_forward, group_reverse, has_group, lemma_closure_of_empty,
    lemma_group_symmetry,
};
use crate::engine::resolve;
use crate::feature::{ids_of, Feature};
use crate::rule::{Rule, RuleView};
use vstd::prelude::*;

verus! {

/// The group extensions, each with its members.
pub open spec fn riscv_groups() -> Seq<(Feature, Seq<Feature>)> {
    seq![
        (
            Feature::zkn,
            seq![
                Feature::zbkb,
                Feature::zbkc,
                Feature::zbkx,
                Feature::zkne,
                Feature::zknd,
                Feature::zknh,
            ],
        ),
        (
            Feature::zks,
            seq![Feature::zbkb, Feature::zbkc, Feature::zbkx, Feature::zksed, Feature::zksh],
        ),
        (Feature::zk, seq![Feature::zkn, Feature::zkr, Feature::zkt]),
        (Feature::a, seq![Feature::zalrsc, Feature::zaamo]),
        (Feature::b, seq![Feature::zba, Feature::zbb, Feature::zbs]),
    ]
}

/// The two rules of the `k`-th group.
pub open spec fn riscv_group_rules(k: int) -> Seq<RuleView> {
    group(riscv_groups()[k].0, riscv_groups()[k].1)
}

/// The implications that are no group relations.
pub open spec fn riscv_implications() -> Seq<RuleView> {
    seq![
        RuleView::any(seq![Feature::zhinx], seq![Feature::zhinxmin]),
        RuleView::any(seq![Feature::zdinx, Feature::zhinxmin], seq![Feature::zfinx]),
        RuleView::any(seq![Feature::zfh], seq![Feature::zfhmin]),
        RuleView::any(seq![Feature::q], seq![Feature::d]),
        RuleView::any(seq![Feature::d, Feature::zfhmin], seq![Feature::f]),
        RuleView::any(
            seq![Feature::zicntr, Feature::zihpm, Feature::zkr, Feature::f, Feature::zfinx],
            seq![Feature::zicsr],
        ),
        RuleView::any(seq![Feature::s, Feature::h], seq![Feature::zicsr]),
    ]
}

/// The implication rules between RISC-V extensions: the rules of the
/// groups, then the other implications.
///
/// A group extension gives its members, as the ISA manuals define it. The
/// members together also give the group: the manuals do not say so, but
/// it is convenient for detection and toolchains do the same.
pub open spec fn riscv_rules() -> Seq<RuleView> {
    riscv_group_rules(0) + riscv_group_rules(1) + riscv_group_rules(2) + riscv_group_rules(3)
        + riscv_group_rules(4) + riscv_implications()
}

/// Every rule of the table names an antecedent and a consequent.
pub proof fn lemma_riscv_rules_well_formed()
    ensures
        forall|i: int|
            0 <= i < riscv_rules().len() ==> (#[trigger] riscv_rules()[i]).well_formed(),
{
}

/// The table holds the two rules of each group.
pub proof fn lemma_riscv_rules_hold_groups()
    ensures
        forall|k: int|
            0 <= k < riscv_groups().len() ==> has_group(
                riscv_rules(),
                (#[trigger] riscv_groups()[k]).0,
                riscv_groups()[k].1,
            ),
{
    assert forall|k: int| 0 <= k < riscv_groups().len() implies has_group(
        riscv_rules(),
        (#[trigger] riscv_groups()[k]).0,
        riscv_groups()[k].1,
    ) by {
        let (group, members) = riscv_groups()[k];
        assert(riscv_rules()[2 * k] == group_forward(group, members));
        assert(riscv_rules()[2 * k + 1] == group_reverse(group, members));
    }
}

/// Each group extension and its members stand for each other: resolved
/// from the group alone, the set holds every member; resolved from the
/// members alone, it holds the group.
pub proof fn lemma_riscv_group_symmetry(k: int)
    requires
        0 <= k < riscv_groups().len(),
    ensures
        ids_of(riscv_groups()[k].1).subset_of(
            closure(riscv_rules(), set![riscv_groups()[k].0.id()]),
        ),
        closure(riscv_rules(), ids_of(riscv_groups()[k].1)).contains(riscv_groups()[k].0.id()),
{
    lemma_riscv_rules_hold_groups();
    lemma_group_symmetry(riscv_rules(), riscv_groups()[k].0, riscv_groups()[k].1);
}

/// The table of [`riscv_rules`], row by row.
pub fn implication_rules() -> (rules: [Rule<'static>; 17])
    ensures
        rules.deep_view() == riscv_rules(),
{
    let rules = [
        Rule::any(
            &[Feature::zkn],
            &[
                Feature::zbkb,
                Feature::zbkc,
                Feature::zbkx,
                Feature::zkne,
                Feature::zknd,
                Feature::zknh,
            ],
        ),
        Rule::all(
            &[
                Feature::zbkb,
                Feature::zbkc,
                Feature::zbkx,
                Feature::zkne,
                Feature::zknd,
                Feature::zknh,
            ],
            &[Feature::zkn],
        ),
        Rule::any(
            &[Feature::zks],
            &[Feature::zbkb, Feature::zbkc, Feature::zbkx, Feature::zksed, Feature::zksh],
        ),
        Rule::all(
            &[Feature::zbkb, Feature::zbkc, Feature::zbkx, Feature::zksed, Feature::zksh],
            &[Feature::zks],
        ),
        Rule::any(&[Feature::zk], &[Feature::zkn, Feature::zkr, Feature::zkt]),
        Rule::all(&[Feature::zkn, Feature::zkr, Feature::zkt], &[Feature::zk]),
        Rule::any(&[Feature::a], &[Feature::zalrsc, Feature::zaamo]),
        Rule::all(&[Feature::zalrsc, Feature::zaamo], &[Feature::a]),
        Rule::any(&[Feature::b], &[Feature::zba, Feature::zbb, Feature::zbs]),
        Rule::all(&[Feature::zba, Feature::zbb, Feature::zbs], &[Feature::b]),
        Rule::any(&[Feature::zhinx], &[Feature::zhinxmin]),
        Rule::any(&[Feature::zdinx, Feature::zhinxmin], &[Feature::zfinx]),
        Rule::any(&[Feature::zfh], &[Feature::zfhmin]),
        Rule::any(&[Feature::q], &[Feature::d]),
        Rule::any(&[Feature::d, Feature::zfhmin], &[Feature::f]),
        Rule::any(
            &[Feature::zicntr, Feature::zihpm, Feature::zkr, Feature::f, Feature::zfinx],
            &[Feature::zicsr],
        ),
        Rule::any(&[Feature::s, Feature::h], &[Feature::zicsr]),
    ];
    proof {
        assert(rules.deep_view() =~~= riscv_rules());
    }
    rules
}

/// Resolves `value` under the relations between RISC-V extensions:
/// returns the least set that contains `value` and that no rule of
/// [`riscv_rules`] can extend.
pub fn imply_features(value: Initializer) -> (resolved: Initializer)
    ensures
        resolved@ == closure(riscv_rules(), value@),
        value@.subset_of(resolved@),
        closed(riscv_rules(), resolved@),
        value@.is_empty() ==> resolved@.is_empty(),
{
    let rules = implication_rules();
    let resolved = resolve(&rules, value);
    proof {
        if value@.is_empty() {
            assert(value@ =~= Set::<nat>::empty());
            lemma_riscv_rules_well_formed();
            lemma_closure_of_empty(riscv_rules());
        }
    }
    resolved
}

} // verus!
