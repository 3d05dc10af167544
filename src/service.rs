use vstd::prelude::*;

use crate::ebpf_manager::{ManagerView, Request};
use crate::program_monitor::{Action, Filter, FilterView, INodeNumber, Rule, RuleView};
use crate::rule_manager::{Notification, NotificationView};
use crate::types::{Module, ModuleView, RuleID};

verus! {

/// What the enforcement side does about one store notification.
#[derive(Clone, Copy, Debug, PartialEq, Eq, Structural)]
pub enum Reaction {
    /// Nothing to enforce.
    Nothing,
    /// Send this request to the enforcement manager.
    Enforce(Request),
    /// The rule's filter has no enforcement yet.
    Unsupported,
}

/// The reaction that puts a program-monitor rule in force.
pub open spec fn apply_spec(r: RuleView) -> Reaction {
    match (r.filter, r.action) {
        (FilterView::Basic, Action::BlockProgramExecution(inode)) => Reaction::Enforce(
            Request::Block(inode),
        ),
        _ => Reaction::Unsupported,
    }
}

/// The reaction that takes a program-monitor rule out of force.
pub open spec fn revert_spec(r: RuleView) -> Reaction {
    match (r.filter, r.action) {
        (FilterView::Basic, Action::BlockProgramExecution(inode)) => Reaction::Enforce(
            Request::Allow(inode),
        ),
        _ => Reaction::Unsupported,
    }
}

pub open spec fn apply_module(m: ModuleView) -> Reaction {
    match m {
        ModuleView::ProgramMonitor(r) => apply_spec(r),
    }
}

pub open spec fn revert_module(m: ModuleView) -> Reaction {
    match m {
        ModuleView::ProgramMonitor(r) => revert_spec(r),
    }
}

/// The reaction to a notification: an added or removed rule counts only when
/// active; an update counts only when it switches the rule on or off.
pub open spec fn reaction(n: NotificationView) -> Reaction {
    match n {
        NotificationView::RuleAdded { rule, .. } => if rule.is_active {
            apply_module(rule.module)
        } else {
            Reaction::Nothing
        },
        NotificationView::RuleRemoved { rule, .. } => if rule.is_active {
            revert_module(rule.module)
        } else {
            Reaction::Nothing
        },
        NotificationView::RuleUpdated { old_rule, new_rule, .. } => if !old_rule.is_active
            && new_rule.is_active {
            apply_module(new_rule.module)
        } else if old_rule.is_active && !new_rule.is_active {
            revert_module(new_rule.module)
        } else {
            Reaction::Nothing
        },
    }
}

/// The enforcement request that puts `rule` in force, if its filter has one.
pub fn add_program_monitor_rule(rule: &Rule) -> (r: Reaction)
    ensures
        r == apply_spec(rule@),
{
    match (&rule.filter, rule.action) {
        (Filter::Basic, Action::BlockProgramExecution(inode)) => Reaction::Enforce(
            Request::Block(inode),
        ),
        _ => Reaction::Unsupported,
    }
}

/// The enforcement request that takes `rule` out of force, if its filter has
/// one.
pub fn remove_program_monitor_rule(rule: &Rule) -> (r: Reaction)
    ensures
        r == revert_spec(rule@),
{
    match (&rule.filter, rule.action) {
        (Filter::Basic, Action::BlockProgramExecution(inode)) => Reaction::Enforce(
            Request::Allow(inode),
        ),
        _ => Reaction::Unsupported,
    }
}

fn apply(module: &Module) -> (r: Reaction)
    ensures
        r == apply_module(module@),
{
    match module {
        Module::ProgramMonitor(rule) => add_program_monitor_rule(rule),
    }
}

fn revert(module: &Module) -> (r: Reaction)
    ensures
        r == revert_module(module@),
{
    match module {
        Module::ProgramMonitor(rule) => remove_program_monitor_rule(rule),
    }
}

/// What to enforce after the store reported `notification`.
pub fn reconcile(notification: &Notification) -> (r: Reaction)
    ensures
        r == reaction(notification@),
{
    match notification {
        Notification::RuleAdded { rule, .. } => if rule.is_active {
            apply(&rule.module)
        } else {
            Reaction::Nothing
        },
        Notification::RuleRemoved { rule, .. } => if rule.is_active {
            revert(&rule.module)
        } else {
            Reaction::Nothing
        },
        Notification::RuleUpdated { old_rule, new_rule, .. } => if !old_rule.is_active
            && new_rule.is_active {
            apply(&new_rule.module)
        } else if old_rule.is_active && !new_rule.is_active {
            revert(&new_rule.module)
        } else {
            Reaction::Nothing
        },
    }
}

/// Reacting to the addition of an active basic rule and then to its removal
/// leaves a loaded blocklist as it was, where the rule's program was not
/// blocked before.
pub proof fn law_add_then_remove_restores(
    s: ManagerView,
    rule_id: RuleID,
    rule: crate::types::RuleView,
    inode: INodeNumber,
)
    requires
        s.program_monitor is Some,
        !s.program_monitor.unwrap().contains(inode),
        rule.is_active,
        rule.module == ModuleView::ProgramMonitor(
            RuleView { filter: FilterView::Basic, action: Action::BlockProgramExecution(inode) },
        ),
    ensures
        reaction(NotificationView::RuleAdded { rule_id, rule }) == Reaction::Enforce(
            Request::Block(inode),
        ),
        reaction(NotificationView::RuleRemoved { rule_id, rule }) == Reaction::Enforce(
            Request::Allow(inode),
        ),
        s.handle(Request::Block(inode), true).handle(Request::Allow(inode), true) == s,
{
    let b = s.program_monitor.unwrap();
    assert(b.insert(inode).remove(inode) =~= b);
}

/// The components of the daemon, in the order in which they are stopped.
#[derive(Clone, Copy, Debug, PartialEq, Eq, Structural)]
pub enum Component {
    EnforcementModule,
    PolicyStore,
    IpcFacade,
}

/// The order of shutdown: enforcement first, then the store, then the facade.
pub fn shutdown_order() -> (r: Vec<Component>)
    ensures
        r@ == seq![Component::EnforcementModule, Component::PolicyStore, Component::IpcFacade],
{
    let r = vec![Component::EnforcementModule, Component::PolicyStore, Component::IpcFacade];
    assert(r@ =~= seq![Component::EnforcementModule, Component::PolicyStore, Component::IpcFacade]);
    r
}

} // verus!
