use chapchap::dbus_types::Rule as DBUSRule;
use chapchap::ebpf_manager::{EBPFManager, Request, Step};
use chapchap::program_monitor;
use chapchap::program_monitor::{TimeLimit, TimeOfDay, TimeSlice};
use chapchap::rule_manager::{Error, Notification, State};
use chapchap::service::{
    add_program_monitor_rule, reconcile, remove_program_monitor_rule, shutdown_order, Component,
    Reaction,
};
use chapchap::types::{Module, Rule};
use chapchap::watchlist::{default_delay, should_kill};

fn r1() -> Rule {
    Rule {
        name: "R1".to_string(),
        is_active: true,
        module: Module::ProgramMonitor(program_monitor::Rule {
            filter: program_monitor::Filter::Basic,
            action: program_monitor::Action::BlockProgramExecution(12345),
        }),
    }
}

/// Delivers notifications to the enforcement manager, with every kernel
/// operation succeeding; returns the requests that were made.
fn deliver(notifications: &[Notification], manager: &mut EBPFManager) -> Vec<Request> {
    let mut made = Vec::new();
    for n in notifications {
        if let Reaction::Enforce(req) = reconcile(n) {
            made.push(req);
            match manager.begin(req) {
                Step::Reply(r) => r.unwrap(),
                Step::Perform(op) => manager.complete(op, Ok(())).unwrap(),
            }
        }
    }
    made
}

fn loaded_manager() -> EBPFManager {
    let mut m = EBPFManager::new();
    match m.begin(Request::Load) {
        Step::Perform(op) => m.complete(op, Ok(())).unwrap(),
        Step::Reply(r) => r.unwrap(),
    }
    m
}

/// Goes through the wire, as a remote caller's rule does.
fn add_over_wire(store: &mut State, rule: Rule) -> Result<u64, Error> {
    let wire = DBUSRule::from(rule);
    store.add_rule(Rule::try_from(wire).unwrap())
}

#[test]
fn scenario_add_rule_blocks_program() {
    let mut store = State::new();
    let mut manager = loaded_manager();
    assert_eq!(add_over_wire(&mut store, r1()).unwrap(), 0);
    let pending = store.take_notifications();
    assert_eq!(pending.len(), 1);
    assert!(matches!(&pending[0], Notification::RuleAdded { rule_id: 0, .. }));
    assert_eq!(deliver(&pending, &mut manager), vec![Request::Block(12345)]);
    assert_eq!(manager.blocklist(), vec![12345]);
}

#[test]
fn scenario_disable_rule_allows_program() {
    let mut store = State::new();
    let mut manager = loaded_manager();
    add_over_wire(&mut store, r1()).unwrap();
    deliver(&store.take_notifications(), &mut manager);
    store.disable_rule(0).unwrap();
    let pending = store.take_notifications();
    assert_eq!(pending.len(), 1);
    match &pending[0] {
        Notification::RuleUpdated { old_rule, new_rule, .. } => {
            assert!(old_rule.is_active);
            assert!(!new_rule.is_active);
        }
        other => panic!("unexpected {other:?}"),
    }
    assert_eq!(deliver(&pending, &mut manager), vec![Request::Allow(12345)]);
    assert!(manager.blocklist().is_empty());
}

#[test]
fn scenario_repeated_add_is_duplicate() {
    let mut store = State::new();
    let mut manager = loaded_manager();
    add_over_wire(&mut store, r1()).unwrap();
    deliver(&store.take_notifications(), &mut manager);
    match add_over_wire(&mut store, r1()) {
        Err(Error::RuleAlreadyExist(id)) => assert_eq!(id, 0),
        other => panic!("unexpected {other:?}"),
    }
    assert_eq!(store.get_rules().len(), 1);
    assert!(deliver(&store.take_notifications(), &mut manager).is_empty());
    assert_eq!(manager.blocklist(), vec![12345]);
}

#[test]
fn inactive_added_rule_not_enforced() {
    let mut r = r1();
    r.is_active = false;
    let n = Notification::RuleAdded { rule_id: 0, rule: r };
    assert_eq!(reconcile(&n), Reaction::Nothing);
}

#[test]
fn removed_active_rule_reverted() {
    let n = Notification::RuleRemoved { rule_id: 0, rule: r1() };
    assert_eq!(reconcile(&n), Reaction::Enforce(Request::Allow(12345)));
    let mut r = r1();
    r.is_active = false;
    let n = Notification::RuleRemoved { rule_id: 0, rule: r };
    assert_eq!(reconcile(&n), Reaction::Nothing);
}

#[test]
fn update_without_activity_change_does_nothing() {
    let mut new_rule = r1();
    new_rule.module = Module::ProgramMonitor(program_monitor::Rule {
        filter: program_monitor::Filter::Basic,
        action: program_monitor::Action::BlockProgramExecution(777),
    });
    let n = Notification::RuleUpdated { rule_id: 0, old_rule: r1(), new_rule };
    assert_eq!(reconcile(&n), Reaction::Nothing);
}

#[test]
fn update_enabling_applies() {
    let mut old_rule = r1();
    old_rule.is_active = false;
    let n = Notification::RuleUpdated { rule_id: 0, old_rule, new_rule: r1() };
    assert_eq!(reconcile(&n), Reaction::Enforce(Request::Block(12345)));
}

#[test]
fn non_basic_filters_unsupported() {
    let scheduled = program_monitor::Rule {
        filter: program_monitor::Filter::Scheduled(vec![]),
        action: program_monitor::Action::BlockProgramExecution(1),
    };
    assert_eq!(add_program_monitor_rule(&scheduled), Reaction::Unsupported);
    assert_eq!(remove_program_monitor_rule(&scheduled), Reaction::Unsupported);
    let limited = program_monitor::Rule {
        filter: program_monitor::Filter::TimeLimited(TimeLimit { secs: 1, nanos: 0 }),
        action: program_monitor::Action::BlockProgramExecution(1),
    };
    assert_eq!(add_program_monitor_rule(&limited), Reaction::Unsupported);
    let basic = program_monitor::Rule {
        filter: program_monitor::Filter::Basic,
        action: program_monitor::Action::BlockProgramExecution(1),
    };
    assert_eq!(remove_program_monitor_rule(&basic), Reaction::Enforce(Request::Allow(1)));
}

#[test]
fn shutdown_enforcement_first() {
    assert_eq!(
        shutdown_order(),
        vec![Component::EnforcementModule, Component::PolicyStore, Component::IpcFacade]
    );
}

fn t(h: u8, m: u8, s: u8) -> TimeOfDay {
    TimeOfDay::new(h, m, s).unwrap()
}

#[test]
fn watchlist_delay_default() {
    assert_eq!(default_delay(), 500);
}

#[test]
fn watchlist_should_kill() {
    let slices = vec![TimeSlice { start: t(9, 0, 0), end: t(17, 0, 0) }];
    // Blocklisted: stopped inside its window, both ends included.
    assert!(should_kill(&slices, true, &t(9, 0, 0)));
    assert!(should_kill(&slices, true, &t(17, 0, 0)));
    assert!(!should_kill(&slices, true, &t(17, 0, 1)));
    // Allowlisted: stopped outside its window.
    assert!(should_kill(&slices, false, &t(8, 59, 59)));
    assert!(!should_kill(&slices, false, &t(12, 0, 0)));
    // No windows at all.
    assert!(!should_kill(&vec![], true, &t(12, 0, 0)));
    assert!(should_kill(&vec![], false, &t(12, 0, 0)));
}
