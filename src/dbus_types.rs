use vstd::prelude::*;

use crate::types;
use crate::types::{ModuleView, RuleID, RuleView};

pub mod program_monitor;
pub mod time_text;

use self::program_monitor::{decode_rule, encode_rule, RuleWire};

verus! {

/// Why a value read from the wire was refused.
#[derive(Debug)]
pub enum Error {
    InvalidZVariant(String),
    Internal,
}

/// The case tag of the program monitor.
pub const MODULE_PROGRAM_MONITOR: u8 = 0;

/// A module on the wire: a case tag and its rule.
#[derive(Debug)]
pub struct Module {
    pub case: u8,
    pub inner: program_monitor::Rule,
}

pub ghost struct ModuleWire {
    pub case: u8,
    pub inner: RuleWire,
}

impl View for Module {
    type V = ModuleWire;

    open spec fn view(&self) -> ModuleWire {
        ModuleWire { case: self.case, inner: self.inner@ }
    }
}

pub open spec fn encode_module(m: ModuleView) -> ModuleWire {
    match m {
        ModuleView::ProgramMonitor(r) => ModuleWire {
            case: MODULE_PROGRAM_MONITOR,
            inner: encode_rule(r),
        },
    }
}

pub open spec fn decode_module(w: ModuleWire) -> Option<ModuleView> {
    if w.case == MODULE_PROGRAM_MONITOR {
        match decode_rule(w.inner) {
            Some(r) => Some(ModuleView::ProgramMonitor(r)),
            None => None,
        }
    } else {
        None
    }
}

impl Module {
    pub fn from(value: types::Module) -> (r: Module)
        requires
            value@.wf(),
        ensures
            r@ == encode_module(value@),
    {
        match value {
            types::Module::ProgramMonitor(i) => Module {
                case: MODULE_PROGRAM_MONITOR,
                inner: program_monitor::Rule::from(i),
            },
        }
    }
}

impl types::Module {
    /// Reads a module from the wire.
    pub fn try_from(value: Module) -> (r: Result<types::Module, Error>)
        ensures
            match r {
                Ok(m) => decode_module(value@) == Some(m@),
                Err(_) => decode_module(value@) is None,
            },
    {
        if value.case == MODULE_PROGRAM_MONITOR {
            let inner = crate::program_monitor::Rule::try_from(value.inner)?;
            Ok(types::Module::ProgramMonitor(inner))
        } else {
            Err(Error::InvalidZVariant(String::from_str("invalid module case")))
        }
    }
}

/// A rule on the wire.
#[derive(Debug)]
pub struct Rule {
    pub name: String,
    pub is_active: bool,
    pub module: Module,
}

pub ghost struct WireRule {
    pub name: Seq<char>,
    pub is_active: bool,
    pub module: ModuleWire,
}

impl View for Rule {
    type V = WireRule;

    open spec fn view(&self) -> WireRule {
        WireRule { name: self.name@, is_active: self.is_active, module: self.module@ }
    }
}

pub open spec fn encode(r: RuleView) -> WireRule {
    WireRule { name: r.name, is_active: r.is_active, module: encode_module(r.module) }
}

pub open spec fn decode(w: WireRule) -> Option<RuleView> {
    match decode_module(w.module) {
        Some(module) => Some(RuleView { name: w.name, is_active: w.is_active, module }),
        None => None,
    }
}

impl Rule {
    pub fn from(value: types::Rule) -> (r: Rule)
        requires
            value@.wf(),
        ensures
            r@ == encode(value@),
    {
        Rule { name: value.name, is_active: value.is_active, module: Module::from(value.module) }
    }
}

impl types::Rule {
    /// Reads a rule from the wire.
    pub fn try_from(value: Rule) -> (r: Result<types::Rule, Error>)
        ensures
            match r {
                Ok(v) => decode(value@) == Some(v@),
                Err(_) => decode(value@) is None,
            },
    {
        Ok(
            types::Rule {
                name: value.name,
                is_active: value.is_active,
                module: types::Module::try_from(value.module)?,
            },
        )
    }
}

/// A rule with its identity on the wire.
#[derive(Debug)]
pub struct RuleWithID {
    pub id: RuleID,
    pub rule: Rule,
}

impl RuleWithID {
    pub fn from(value: types::RuleWithID) -> (r: RuleWithID)
        requires
            value.rule@.wf(),
        ensures
            r.id == value.id,
            r.rule@ == encode(value.rule@),
    {
        RuleWithID { id: value.id, rule: Rule::from(value.rule) }
    }
}

impl types::RuleWithID {
    /// Reads a rule with its identity from the wire.
    pub fn try_from(value: RuleWithID) -> (r: Result<types::RuleWithID, Error>)
        ensures
            match r {
                Ok(v) => v.id == value.id && decode(value.rule@) == Some(v.rule@),
                Err(_) => decode(value.rule@) is None,
            },
    {
        Ok(types::RuleWithID { id: value.id, rule: types::Rule::try_from(value.rule)? })
    }
}

/// A valid rule read back from the wire is the rule that was written.
pub proof fn law_round_trip(r: RuleView)
    requires
        r.wf(),
    ensures
        decode(encode(r)) == Some(r),
{
    match r.module {
        ModuleView::ProgramMonitor(m) => program_monitor::law_rule_round_trip(m),
    }
}

} // verus!
