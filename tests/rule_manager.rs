use chapchap::program_monitor;
use chapchap::rule_manager::{Error, Notification, State};
use chapchap::types::{Module, Rule};

fn rule(name: &str, is_active: bool, inode: u64) -> Rule {
    Rule {
        name: name.to_string(),
        is_active,
        module: Module::ProgramMonitor(program_monitor::Rule {
            filter: program_monitor::Filter::Basic,
            action: program_monitor::Action::BlockProgramExecution(inode),
        }),
    }
}

#[test]
fn ids_start_at_zero_and_rise() {
    let mut s = State::new();
    assert_eq!(s.add_rule(rule("a", true, 1)).unwrap(), 0);
    assert_eq!(s.add_rule(rule("b", true, 2)).unwrap(), 1);
    assert_eq!(s.add_rule(rule("c", false, 3)).unwrap(), 2);
}

#[test]
fn ids_not_reused_after_remove() {
    let mut s = State::new();
    let a = s.add_rule(rule("a", true, 1)).unwrap();
    let b = s.add_rule(rule("b", true, 2)).unwrap();
    s.remove_rule(b);
    s.remove_rule(a);
    let c = s.add_rule(rule("b", true, 2)).unwrap();
    assert!(c > b && c > a);
    assert_eq!(c, 2);
    let ids: Vec<u64> = s.get_rules().iter().map(|r| r.id).collect();
    assert_eq!(ids, vec![2]);
}

#[test]
fn duplicate_content_rejected() {
    let mut s = State::new();
    s.add_rule(rule("a", true, 1)).unwrap();
    let b = s.add_rule(rule("b", true, 1)).unwrap();
    s.take_notifications();
    match s.add_rule(rule("b", true, 1)) {
        Err(Error::RuleAlreadyExist(id)) => assert_eq!(id, b),
        other => panic!("expected a duplicate, got {other:?}"),
    }
    assert_eq!(s.get_rules().len(), 2);
    assert!(s.take_notifications().is_empty());
    // Same name and module but another activity is different content.
    assert_eq!(s.add_rule(rule("b", false, 1)).unwrap(), 2);
}

#[test]
fn unknown_id_is_not_found() {
    let mut s = State::new();
    s.add_rule(rule("a", true, 1)).unwrap();
    s.take_notifications();
    assert!(matches!(s.enable_rule(7), Err(Error::RuleNotFound)));
    assert!(matches!(s.disable_rule(7), Err(Error::RuleNotFound)));
    assert!(matches!(s.update_rule(7, rule("x", true, 9)), Err(Error::RuleNotFound)));
    s.remove_rule(7);
    assert!(s.take_notifications().is_empty());
    assert_eq!(s.get_rules().len(), 1);
}

#[test]
fn one_notification_per_change_in_order() {
    let mut s = State::new();
    s.add_rule(rule("a", true, 1)).unwrap();
    s.disable_rule(0).unwrap();
    s.update_rule(0, rule("a2", false, 5)).unwrap();
    s.enable_rule(0).unwrap();
    s.remove_rule(0);
    let n = s.take_notifications();
    assert_eq!(n.len(), 5);
    match &n[0] {
        Notification::RuleAdded { rule_id, rule: r } => {
            assert_eq!(*rule_id, 0);
            assert_eq!(*r, rule("a", true, 1));
        }
        other => panic!("unexpected {other:?}"),
    }
    match &n[1] {
        Notification::RuleUpdated { rule_id, old_rule, new_rule } => {
            assert_eq!(*rule_id, 0);
            assert!(old_rule.is_active);
            assert!(!new_rule.is_active);
        }
        other => panic!("unexpected {other:?}"),
    }
    match &n[2] {
        Notification::RuleUpdated { old_rule, new_rule, .. } => {
            assert_eq!(*old_rule, rule("a", false, 1));
            assert_eq!(*new_rule, rule("a2", false, 5));
        }
        other => panic!("unexpected {other:?}"),
    }
    match &n[3] {
        Notification::RuleUpdated { old_rule, new_rule, .. } => {
            assert!(!old_rule.is_active);
            assert_eq!(*new_rule, rule("a2", true, 5));
        }
        other => panic!("unexpected {other:?}"),
    }
    match &n[4] {
        Notification::RuleRemoved { rule_id, rule: r } => {
            assert_eq!(*rule_id, 0);
            assert_eq!(*r, rule("a2", true, 5));
        }
        other => panic!("unexpected {other:?}"),
    }
    assert!(s.get_rules().is_empty());
    assert!(s.take_notifications().is_empty());
}

#[test]
fn enable_already_active_still_notifies() {
    let mut s = State::new();
    s.add_rule(rule("a", true, 1)).unwrap();
    s.take_notifications();
    s.enable_rule(0).unwrap();
    assert_eq!(s.take_notifications().len(), 1);
}

#[test]
fn get_rules_in_id_order() {
    let mut s = State::new();
    for i in 0..4u64 {
        s.add_rule(rule(&format!("r{i}"), i % 2 == 0, i)).unwrap();
    }
    s.remove_rule(1);
    let rules = s.get_rules();
    let ids: Vec<u64> = rules.iter().map(|r| r.id).collect();
    assert_eq!(ids, vec![0, 2, 3]);
    assert_eq!(rules[1].rule, rule("r2", true, 2));
}

#[test]
fn next_rule_id_and_notify() {
    let mut s = State::new();
    assert_eq!(s.next_rule_id(), 0);
    assert_eq!(s.next_rule_id(), 1);
    s.notify(Notification::RuleRemoved {
        rule_id: 9,
        rule: rule("z", false, 1),
    });
    assert_eq!(s.take_notifications().len(), 1);
    assert_eq!(s.add_rule(rule("a", true, 1)).unwrap(), 2);
}

#[test]
fn update_to_other_rules_content_rejected() {
    let mut s = State::new();
    s.add_rule(rule("a", true, 1)).unwrap();
    s.add_rule(rule("b", true, 2)).unwrap();
    s.take_notifications();
    match s.update_rule(1, rule("a", true, 1)) {
        Err(Error::RuleAlreadyExist(id)) => assert_eq!(id, 0),
        other => panic!("expected a duplicate, got {other:?}"),
    }
    assert!(s.take_notifications().is_empty());
    assert_eq!(s.get_rules()[1].rule, rule("b", true, 2));
    // A rule may be set to its own content.
    s.update_rule(1, rule("b", true, 2)).unwrap();
    assert_eq!(s.take_notifications().len(), 1);
}

#[test]
fn enable_or_disable_into_duplicate_rejected() {
    let mut s = State::new();
    s.add_rule(rule("a", true, 1)).unwrap();
    s.add_rule(rule("a", false, 1)).unwrap();
    s.take_notifications();
    assert!(matches!(s.enable_rule(1), Err(Error::RuleAlreadyExist(0))));
    assert!(matches!(s.disable_rule(0), Err(Error::RuleAlreadyExist(1))));
    assert!(s.take_notifications().is_empty());
    assert_eq!(s.get_rules()[0].rule, rule("a", true, 1));
    assert_eq!(s.get_rules()[1].rule, rule("a", false, 1));
    // Flipping to the state it already has is no clash.
    s.enable_rule(0).unwrap();
    s.disable_rule(1).unwrap();
    assert_eq!(s.take_notifications().len(), 2);
}
