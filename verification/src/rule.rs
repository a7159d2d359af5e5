//! Implication rules: "if any (or all) of these capabilities are present,
//! then those are present too".

use crate::cache::Initializer;
use crate::feature::{ids_of, lemma_ids_of_one_more, Feature};
use vstd::prelude::*;

verus! {

/// How the antecedents of a rule combine.
#[derive(Clone, Copy, Debug, PartialEq, Eq, Structural)]
pub enum Mode {
    /// The rule fires when at least one antecedent is present.
    Any,
    /// The rule fires when every antecedent is present.
    All,
}

/// One row of a rule table.
#[derive(Clone, Copy, Debug)]
pub struct Rule<'a> {
    /// The capabilities that the rule looks for.
    pub antecedents: &'a [Feature],
    /// How the antecedents combine.
    pub mode: Mode,
    /// The capabilities that are present whenever the rule fires.
    pub consequents: &'a [Feature],
}

/// The mathematical content of a [`Rule`].
#[verifier::ext_equal]
pub struct RuleView {
    /// The capabilities that the rule looks for.
    pub antecedents: Seq<Feature>,
    /// How the antecedents combine.
    pub mode: Mode,
    /// The capabilities that are present whenever the rule fires.
    pub consequents: Seq<Feature>,
}

impl RuleView {
    /// The rule "if any of `antecedents` is present, so is each of
    /// `consequents`".
    pub open spec fn any(antecedents: Seq<Feature>, consequents: Seq<Feature>) -> RuleView {
        RuleView { antecedents, mode: Mode::Any, consequents }
    }

    /// The rule "if all of `antecedents` are present, so is each of
    /// `consequents`".
    pub open spec fn all(antecedents: Seq<Feature>, consequents: Seq<Feature>) -> RuleView {
        RuleView { antecedents, mode: Mode::All, consequents }
    }

    /// A rule names at least one antecedent and at least one consequent.
    pub open spec fn well_formed(self) -> bool {
        self.antecedents.len() > 0 && self.consequents.len() > 0
    }

    /// Whether the antecedent condition holds of the set `present`.
    pub open spec fn fires(self, present: Set<nat>) -> bool {
        match self.mode {
            Mode::Any => exists|i: int|
                0 <= i < self.antecedents.len() && present.contains(
                    (#[trigger] self.antecedents[i]).id(),
                ),
            Mode::All => forall|i: int|
                0 <= i < self.antecedents.len() ==> present.contains(
                    (#[trigger] self.antecedents[i]).id(),
                ),
        }
    }

    /// The identifiers that the rule adds when it fires.
    pub open spec fn implied(self) -> Set<nat> {
        ids_of(self.consequents)
    }

    /// The set after the rule has been applied to `present`.
    pub open spec fn apply(self, present: Set<nat>) -> Set<nat> {
        if self.fires(present) {
            present.union(self.implied())
        } else {
            present
        }
    }

    /// Whether applying the rule to `present` would add nothing.
    pub open spec fn respected_by(self, present: Set<nat>) -> bool {
        self.fires(present) ==> self.implied().subset_of(present)
    }

    /// A rule that fires on a set fires on every larger set.
    pub proof fn lemma_fires_monotone(self, small: Set<nat>, large: Set<nat>)
        requires
            small.subset_of(large),
            self.fires(small),
        ensures
            self.fires(large),
    {
        if self.mode == Mode::Any {
            let i = choose|i: int|
                0 <= i < self.antecedents.len() && small.contains(
                    (#[trigger] self.antecedents[i]).id(),
                );
            assert(large.contains(self.antecedents[i].id()));
        }
    }
}

impl<'a> View for Rule<'a> {
    type V = RuleView;

    open spec fn view(&self) -> RuleView {
        RuleView {
            antecedents: self.antecedents@,
            mode: self.mode,
            consequents: self.consequents@,
        }
    }
}

impl<'a> DeepView for Rule<'a> {
    type V = RuleView;

    open spec fn deep_view(&self) -> RuleView {
        self@
    }
}

impl<'a> Rule<'a> {
    /// The rule "if any of `antecedents` is present, so is each of
    /// `consequents`".
    pub fn any(antecedents: &'a [Feature], consequents: &'a [Feature]) -> (rule: Rule<'a>)
        ensures
            rule@ == RuleView::any(antecedents@, consequents@),
    {
        Rule { antecedents, mode: Mode::Any, consequents }
    }

    /// The rule "if all of `antecedents` are present, so is each of
    /// `consequents`".
    pub fn all(antecedents: &'a [Feature], consequents: &'a [Feature]) -> (rule: Rule<'a>)
        ensures
            rule@ == RuleView::all(antecedents@, consequents@),
    {
        Rule { antecedents, mode: Mode::All, consequents }
    }

    /// Whether the antecedent condition holds of `value`.
    pub fn fires(&self, value: Initializer) -> (fired: bool)
        ensures
            fired == self@.fires(value@),
    {
        let count = self.antecedents.len();
        let mut i: usize = 0;
        match self.mode {
            Mode::Any => {
                while i < count
                    invariant
                        i <= count,
                        count == self.antecedents@.len(),
                        self.mode == Mode::Any,
                        forall|j: int|
                            0 <= j < i ==> !value@.contains(
                                (#[trigger] self.antecedents@[j]).id(),
                            ),
                    decreases count - i,
                {
                    if value.test(self.antecedents[i].index()) {
                        assert(value@.contains(self@.antecedents[i as int].id()));
                        return true;
                    }
                    i += 1;
                }
                false
            },
            Mode::All => {
                while i < count
                    invariant
                        i <= count,
                        count == self.antecedents@.len(),
                        self.mode == Mode::All,
                        forall|j: int|
                            0 <= j < i ==> value@.contains((#[trigger] self.antecedents@[j]).id()),
                    decreases count - i,
                {
                    if !value.test(self.antecedents[i].index()) {
                        assert(!value@.contains(self@.antecedents[i as int].id()));
                        return false;
                    }
                    i += 1;
                }
                true
            },
        }
    }

    /// Applies the rule: where its antecedent condition holds of `value`,
    /// sets every consequent in it.
    pub fn apply(&self, value: &mut Initializer)
        ensures
            final(value)@ == self@.apply(old(value)@),
    {
        if self.fires(*value) {
            let count = self.consequents.len();
            let mut i: usize = 0;
            while i < count
                invariant
                    i <= count,
                    count == self.consequents@.len(),
                    value@ == old(value)@.union(ids_of(self.consequents@.take(i as int))),
                decreases count - i,
            {
                value.set(self.consequents[i].index());
                proof {
                    lemma_ids_of_one_more(self.consequents@, i as int);
                }
                i += 1;
            }
            proof {
                assert(self.consequents@.take(count as int) =~= self.consequents@);
            }
        }
    }
}

} // verus!
