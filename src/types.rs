use vstd::prelude::*;

use crate::program_monitor;

verus! {

/// Identity of a rule in the store; never reused.
pub type RuleID = u64;

/// The surface that a rule is enforced on.
#[derive(Debug)]
pub enum Module {
    ProgramMonitor(program_monitor::Rule),
}

pub ghost enum ModuleView {
    ProgramMonitor(program_monitor::RuleView),
}

impl ModuleView {
    pub open spec fn wf(self) -> bool {
        match self {
            ModuleView::ProgramMonitor(r) => r.wf(),
        }
    }
}

impl View for Module {
    type V = ModuleView;

    open spec fn view(&self) -> ModuleView {
        match self {
            Module::ProgramMonitor(r) => ModuleView::ProgramMonitor(r@),
        }
    }
}

impl Module {
    /// Whether every time value in the module's rule is a real one.
    pub fn is_valid(&self) -> (r: bool)
        ensures
            r == self@.wf(),
    {
        match self {
            Module::ProgramMonitor(r) => r.filter.is_valid(),
        }
    }
}

impl Clone for Module {
    fn clone(&self) -> (r: Module)
        ensures
            r@ == self@,
    {
        match self {
            Module::ProgramMonitor(r) => Module::ProgramMonitor(r.clone()),
        }
    }
}

impl PartialEq for Module {
    fn eq(&self, o: &Module) -> (r: bool) {
        match (self, o) {
            (Module::ProgramMonitor(a), Module::ProgramMonitor(b)) => *a == *b,
        }
    }
}

impl vstd::std_specs::cmp::PartialEqSpecImpl for Module {
    open spec fn obeys_eq_spec() -> bool {
        true
    }

    open spec fn eq_spec(&self, o: &Module) -> bool {
        self@ == o@
    }
}

/// A policy rule: a name, whether it is enforced, and what it enforces.
#[derive(Debug)]
pub struct Rule {
    pub name: String,
    pub is_active: bool,
    pub module: Module,
}

pub ghost struct RuleView {
    pub name: Seq<char>,
    pub is_active: bool,
    pub module: ModuleView,
}

impl RuleView {
    pub open spec fn wf(self) -> bool {
        self.module.wf()
    }
}

impl View for Rule {
    type V = RuleView;

    open spec fn view(&self) -> RuleView {
        RuleView { name: self.name@, is_active: self.is_active, module: self.module@ }
    }
}

impl Rule {
    /// Whether every time value in the rule is a real one.
    pub fn is_valid(&self) -> (r: bool)
        ensures
            r == self@.wf(),
    {
        self.module.is_valid()
    }
}

impl Clone for Rule {
    fn clone(&self) -> (r: Rule)
        ensures
            r@ == self@,
    {
        Rule { name: self.name.clone(), is_active: self.is_active, module: self.module.clone() }
    }
}

impl PartialEq for Rule {
    fn eq(&self, o: &Rule) -> (r: bool) {
        self.name == o.name && self.is_active == o.is_active && self.module == o.module
    }
}

impl vstd::std_specs::cmp::PartialEqSpecImpl for Rule {
    open spec fn obeys_eq_spec() -> bool {
        true
    }

    open spec fn eq_spec(&self, o: &Rule) -> bool {
        self@ == o@
    }
}

/// A rule together with its identity.
#[derive(Debug)]
pub struct RuleWithID {
    pub id: RuleID,
    pub rule: Rule,
}

impl View for RuleWithID {
    type V = (RuleID, RuleView);

    open spec fn view(&self) -> (RuleID, RuleView) {
        (self.id, self.rule@)
    }
}

impl Clone for RuleWithID {
    fn clone(&self) -> (r: RuleWithID)
        ensures
            r@ == self@,
    {
        RuleWithID { id: self.id, rule: self.rule.clone() }
    }
}

impl PartialEq for RuleWithID {
    fn eq(&self, o: &RuleWithID) -> (r: bool) {
        self.id == o.id && self.rule == o.rule
    }
}

impl vstd::std_specs::cmp::PartialEqSpecImpl for RuleWithID {
    open spec fn obeys_eq_spec() -> bool {
        true
    }

    open spec fn eq_spec(&self, o: &RuleWithID) -> bool {
        self@ == o@
    }
}

} // verus!
