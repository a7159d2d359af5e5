use riscv_detect::cache::Initializer;
use riscv_detect::engine::{apply_all, resolve};
use riscv_detect::feature::Feature;
use riscv_detect::rule::{Mode, Rule};

fn flags(features: &[Feature]) -> Initializer {
    let mut value = Initializer::default();
    for feature in features {
        value.set(feature.index());
    }
    value
}

#[test]
fn any_rule_fires_on_one_antecedent() {
    let rule = Rule::any(&[Feature::d, Feature::zfhmin], &[Feature::f]);
    assert!(!rule.fires(flags(&[])));
    assert!(!rule.fires(flags(&[Feature::q, Feature::f])));
    assert!(rule.fires(flags(&[Feature::d])));
    assert!(rule.fires(flags(&[Feature::zfhmin])));
    assert!(rule.fires(flags(&[Feature::zfhmin, Feature::d, Feature::m])));
}

#[test]
fn all_rule_fires_on_every_antecedent_only() {
    let rule = Rule::all(&[Feature::zba, Feature::zbb, Feature::zbs], &[Feature::b]);
    assert!(!rule.fires(flags(&[])));
    assert!(!rule.fires(flags(&[Feature::zba])));
    assert!(!rule.fires(flags(&[Feature::zba, Feature::zbb])));
    assert!(!rule.fires(flags(&[Feature::zbb, Feature::zbs, Feature::b])));
    assert!(rule.fires(flags(&[Feature::zba, Feature::zbb, Feature::zbs])));
    assert!(rule.fires(flags(&[Feature::zbs, Feature::m, Feature::zbb, Feature::zba])));
}

#[test]
fn the_two_modes_agree_on_a_single_antecedent() {
    let any = Rule::any(&[Feature::q], &[Feature::d]);
    let all = Rule::all(&[Feature::q], &[Feature::d]);
    for value in [flags(&[]), flags(&[Feature::q]), flags(&[Feature::d])] {
        assert_eq!(any.fires(value), all.fires(value));
    }
}

#[test]
fn constructors_fill_the_fields() {
    let any = Rule::any(&[Feature::s, Feature::h], &[Feature::zicsr]);
    assert_eq!(any.mode, Mode::Any);
    assert_eq!(any.antecedents, &[Feature::s, Feature::h]);
    assert_eq!(any.consequents, &[Feature::zicsr]);
    let all = Rule::all(&[Feature::zalrsc, Feature::zaamo], &[Feature::a]);
    assert_eq!(all.mode, Mode::All);
    assert_eq!(all.antecedents, &[Feature::zalrsc, Feature::zaamo]);
    assert_eq!(all.consequents, &[Feature::a]);
}

#[test]
fn apply_sets_every_consequent_when_the_rule_fires() {
    let rule = Rule::any(&[Feature::a], &[Feature::zalrsc, Feature::zaamo]);
    let mut value = flags(&[Feature::a, Feature::m]);
    rule.apply(&mut value);
    assert_eq!(value, flags(&[Feature::a, Feature::m, Feature::zalrsc, Feature::zaamo]));
}

#[test]
fn apply_changes_nothing_when_the_rule_does_not_fire() {
    let rule = Rule::all(&[Feature::zalrsc, Feature::zaamo], &[Feature::a]);
    let mut value = flags(&[Feature::zalrsc, Feature::m]);
    rule.apply(&mut value);
    assert_eq!(value, flags(&[Feature::zalrsc, Feature::m]));
}

#[test]
fn apply_keeps_consequents_that_are_set_already() {
    let rule = Rule::any(&[Feature::a], &[Feature::zalrsc, Feature::zaamo]);
    let mut value = flags(&[Feature::a, Feature::zaamo]);
    rule.apply(&mut value);
    assert_eq!(value, flags(&[Feature::a, Feature::zalrsc, Feature::zaamo]));
}

#[test]
fn a_pass_lets_later_rules_see_earlier_results() {
    let table = [
        Rule::any(&[Feature::q], &[Feature::d]),
        Rule::any(&[Feature::d], &[Feature::f]),
        Rule::any(&[Feature::f], &[Feature::zicsr]),
    ];
    let mut value = flags(&[Feature::q]);
    apply_all(&table, &mut value);
    assert_eq!(value, flags(&[Feature::q, Feature::d, Feature::f, Feature::zicsr]));
}

#[test]
fn a_pass_does_not_look_back() {
    let table = [
        Rule::any(&[Feature::f], &[Feature::zicsr]),
        Rule::any(&[Feature::d], &[Feature::f]),
        Rule::any(&[Feature::q], &[Feature::d]),
    ];
    let mut value = flags(&[Feature::q]);
    apply_all(&table, &mut value);
    assert_eq!(value, flags(&[Feature::q, Feature::d]));
    apply_all(&table, &mut value);
    assert_eq!(value, flags(&[Feature::q, Feature::d, Feature::f]));
    apply_all(&table, &mut value);
    assert_eq!(value, flags(&[Feature::q, Feature::d, Feature::f, Feature::zicsr]));
    apply_all(&table, &mut value);
    assert_eq!(value, flags(&[Feature::q, Feature::d, Feature::f, Feature::zicsr]));
}

#[test]
fn resolve_runs_passes_until_nothing_changes() {
    let table = [
        Rule::any(&[Feature::f], &[Feature::zicsr]),
        Rule::any(&[Feature::d], &[Feature::f]),
        Rule::any(&[Feature::q], &[Feature::d]),
    ];
    assert_eq!(
        resolve(&table, flags(&[Feature::q])),
        flags(&[Feature::q, Feature::d, Feature::f, Feature::zicsr])
    );
    assert_eq!(resolve(&table, flags(&[Feature::d])), flags(&[Feature::d, Feature::f, Feature::zicsr]));
    assert_eq!(resolve(&table, flags(&[Feature::zicsr])), flags(&[Feature::zicsr]));
}

#[test]
fn resolve_under_no_rules_returns_the_input() {
    let table: [Rule; 0] = [];
    let value = flags(&[Feature::q, Feature::zk, Feature::h]);
    assert_eq!(resolve(&table, value), value);
    assert_eq!(resolve(&table, Initializer::default()), Initializer::default());
}

#[test]
fn resolve_ends_on_rules_that_imply_each_other() {
    let table = [
        Rule::any(&[Feature::a], &[Feature::b]),
        Rule::any(&[Feature::b], &[Feature::c]),
        Rule::any(&[Feature::c], &[Feature::a]),
    ];
    let all = flags(&[Feature::a, Feature::b, Feature::c]);
    assert_eq!(resolve(&table, flags(&[Feature::a])), all);
    assert_eq!(resolve(&table, flags(&[Feature::b])), all);
    assert_eq!(resolve(&table, flags(&[Feature::c])), all);
    assert_eq!(resolve(&table, flags(&[Feature::d])), flags(&[Feature::d]));
}

#[test]
fn resolve_waits_for_every_antecedent_of_an_all_rule() {
    let table = [
        Rule::all(&[Feature::zba, Feature::zbb], &[Feature::b]),
        Rule::any(&[Feature::m], &[Feature::zbb]),
        Rule::any(&[Feature::c], &[Feature::zba]),
    ];
    assert_eq!(resolve(&table, flags(&[Feature::m])), flags(&[Feature::m, Feature::zbb]));
    assert_eq!(resolve(&table, flags(&[Feature::c])), flags(&[Feature::c, Feature::zba]));
    assert_eq!(
        resolve(&table, flags(&[Feature::m, Feature::c])),
        flags(&[Feature::m, Feature::c, Feature::zba, Feature::zbb, Feature::b])
    );
}

#[test]
fn resolve_keeps_every_flag_of_the_input() {
    let table = [
        Rule::any(&[Feature::q], &[Feature::d]),
        Rule::all(&[Feature::d, Feature::m], &[Feature::f]),
    ];
    let inputs = [
        flags(&[]),
        flags(&[Feature::q]),
        flags(&[Feature::m, Feature::v]),
        flags(&[Feature::q, Feature::m, Feature::h]),
    ];
    for input in inputs {
        let resolved = resolve(&table, input);
        for bit in 0..128 {
            assert!(!input.test(bit) || resolved.test(bit));
        }
    }
}

#[test]
fn resolve_of_a_resolved_set_changes_nothing() {
    let table = [
        Rule::any(&[Feature::f], &[Feature::zicsr]),
        Rule::all(&[Feature::d, Feature::m], &[Feature::f]),
        Rule::any(&[Feature::q], &[Feature::d]),
    ];
    let inputs = [
        flags(&[]),
        flags(&[Feature::q]),
        flags(&[Feature::q, Feature::m]),
        flags(&[Feature::f, Feature::h]),
    ];
    for input in inputs {
        let once = resolve(&table, input);
        assert_eq!(resolve(&table, once), once);
        let mut again = once;
        apply_all(&table, &mut again);
        assert_eq!(again, once);
    }
}

#[test]
fn resolve_does_not_depend_on_the_order_of_the_rows() {
    let first = Rule::any(&[Feature::f], &[Feature::zicsr]);
    let second = Rule::all(&[Feature::d, Feature::m], &[Feature::f]);
    let third = Rule::any(&[Feature::q], &[Feature::d, Feature::c]);
    let orders = [
        [first, second, third],
        [first, third, second],
        [second, first, third],
        [second, third, first],
        [third, first, second],
        [third, second, first],
    ];
    let inputs = [
        flags(&[]),
        flags(&[Feature::q]),
        flags(&[Feature::m]),
        flags(&[Feature::q, Feature::m]),
        flags(&[Feature::d, Feature::m]),
        flags(&[Feature::f]),
    ];
    for input in inputs {
        let expected = resolve(&orders[0], input);
        for order in &orders {
            assert_eq!(resolve(order, input), expected);
        }
    }
    assert_eq!(
        resolve(&orders[0], flags(&[Feature::q, Feature::m])),
        flags(&[Feature::q, Feature::m, Feature::d, Feature::c, Feature::f, Feature::zicsr])
    );
}

#[test]
fn resolve_adds_nothing_to_the_empty_set() {
    let table = [
        Rule::any(&[Feature::q], &[Feature::d]),
        Rule::all(&[Feature::d, Feature::m], &[Feature::f]),
    ];
    assert_eq!(resolve(&table, Initializer::default()), Initializer::default());
}

#[test]
fn resolve_gives_the_smallest_closed_set() {
    let table = [
        Rule::any(&[Feature::q], &[Feature::d]),
        Rule::any(&[Feature::zfh], &[Feature::zfhmin]),
        Rule::any(&[Feature::d, Feature::zfhmin], &[Feature::f]),
    ];
    let resolved = resolve(&table, flags(&[Feature::zfh]));
    assert_eq!(resolved, flags(&[Feature::zfh, Feature::zfhmin, Feature::f]));
    assert!(!resolved.test(Feature::q.index()));
    assert!(!resolved.test(Feature::d.index()));
}
