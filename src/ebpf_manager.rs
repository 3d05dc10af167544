use vstd::prelude::*;

use crate::program_monitor::INodeNumber;

pub mod program_monitor;

use self::program_monitor::{KernelOp, ProgramMonitor};

verus! {

/// Why a request to the enforcement manager failed.
#[derive(Debug)]
pub enum Error {
    Btf(String),
    /// The kernel refused an operation of the program monitor.
    ProgramMonitor(program_monitor::Error),
    ModuleNotLoaded(&'static str),
    ModuleAlreadyLoaded(&'static str),
    Internal(String),
}

/// The name under which the program monitor reports its state errors.
pub const PROGRAM_MONITOR: &'static str = "program_monitor";

/// What to do next with a request: answer it, or first carry out a kernel
/// operation and hand its outcome to [`EBPFManager::complete`].
#[derive(Debug)]
pub enum Step {
    Reply(Result<(), Error>),
    Perform(KernelOp),
}

/// A request to the enforcement manager.
#[derive(Clone, Copy, Debug, PartialEq, Eq, Structural)]
pub enum Request {
    Load,
    Unload,
    Allow(INodeNumber),
    Block(INodeNumber),
}

/// The enforcement manager as the logic sees it: unloaded, or loaded with the
/// entries of the blocklist table.
pub ghost struct ManagerView {
    pub program_monitor: Option<Set<INodeNumber>>,
}

/// How a request is answered, where it is answered without the kernel.
pub ghost enum Answer {
    Done,
    NotLoaded,
    AlreadyLoaded,
    Kernel(KernelOp),
}

impl ManagerView {
    /// The first move on `req`.
    pub open spec fn plan(self, req: Request) -> Answer {
        match (req, self.program_monitor) {
            (Request::Load, Some(_)) => Answer::AlreadyLoaded,
            (Request::Load, None) => Answer::Kernel(KernelOp::LoadAndAttach),
            (Request::Unload, Some(_)) => Answer::Kernel(KernelOp::Detach),
            (_, None) => Answer::NotLoaded,
            (Request::Block(k), Some(b)) => if b.contains(k) {
                Answer::Done
            } else {
                Answer::Kernel(KernelOp::Insert(k))
            },
            (Request::Allow(k), Some(b)) => if b.contains(k) {
                Answer::Kernel(KernelOp::Remove(k))
            } else {
                Answer::Done
            },
        }
    }

    /// The manager after the kernel carried out `op`, successfully or not.
    pub open spec fn after(self, op: KernelOp, succeeded: bool) -> ManagerView {
        match op {
            KernelOp::LoadAndAttach => if succeeded {
                ManagerView { program_monitor: Some(Set::empty()) }
            } else {
                self
            },
            KernelOp::Detach => ManagerView { program_monitor: None },
            KernelOp::Insert(k) => if succeeded {
                ManagerView { program_monitor: Some(self.program_monitor.unwrap().insert(k)) }
            } else {
                self
            },
            KernelOp::Remove(k) => if succeeded {
                ManagerView { program_monitor: Some(self.program_monitor.unwrap().remove(k)) }
            } else {
                self
            },
        }
    }

    /// The manager after `req`, where any kernel operation it needs succeeds or
    /// fails as `succeeded` says.
    pub open spec fn handle(self, req: Request, succeeded: bool) -> ManagerView {
        match self.plan(req) {
            Answer::Kernel(op) => self.after(op, succeeded),
            _ => self,
        }
    }
}

/// Loading a loaded monitor is refused and leaves it as it was, whatever the
/// kernel would say; unloading an unloaded one is refused; once a load went
/// through, a second load is refused.
pub proof fn law_module_lifecycle(s: ManagerView, succeeded: bool)
    ensures
        s.program_monitor is Some ==> s.plan(Request::Load) == Answer::AlreadyLoaded && s.handle(
            Request::Load,
            succeeded,
        ) == s,
        s.program_monitor is None ==> s.plan(Request::Unload) == Answer::NotLoaded && s.handle(
            Request::Unload,
            succeeded,
        ) == s,
        s.program_monitor is None ==> s.handle(Request::Load, true).plan(Request::Load)
            == Answer::AlreadyLoaded,
{
}

/// Blocking twice is blocking once: the second block needs no kernel
/// operation, succeeds and changes nothing.
pub proof fn law_block_idempotent(s: ManagerView, k: INodeNumber)
    requires
        s.program_monitor is Some,
    ensures
        s.handle(Request::Block(k), true).program_monitor == Some(
            s.program_monitor.unwrap().insert(k),
        ),
        s.handle(Request::Block(k), true).plan(Request::Block(k)) == Answer::Done,
        s.handle(Request::Block(k), true).handle(Request::Block(k), true) == s.handle(
            Request::Block(k),
            true,
        ),
{
}

/// After a block and an allow of `k`, the table lacks `k`, and a second allow
/// needs no kernel operation, succeeds and changes nothing.
pub proof fn law_allow_idempotent(s: ManagerView, k: INodeNumber)
    requires
        s.program_monitor is Some,
    ensures
        s.handle(Request::Block(k), true).handle(Request::Allow(k), true).program_monitor == Some(
            s.program_monitor.unwrap().remove(k),
        ),
        s.handle(Request::Block(k), true).handle(Request::Allow(k), true).plan(Request::Allow(k))
            == Answer::Done,
        s.handle(Request::Block(k), true).handle(Request::Allow(k), true).handle(
            Request::Allow(k),
            true,
        ) == s.handle(Request::Block(k), true).handle(Request::Allow(k), true),
{
    let b = s.program_monitor.unwrap();
    assert(b.insert(k).remove(k) =~= b.remove(k));
}

/// The enforcement manager: the state machine of the program monitor.
///
/// It decides; the caller carries out the kernel operations that it asks for
/// and reports how they went.
#[derive(Debug)]
pub struct EBPFManager {
    program_monitor: Option<ProgramMonitor>,
}

impl View for EBPFManager {
    type V = ManagerView;

    closed spec fn view(&self) -> ManagerView {
        ManagerView {
            program_monitor: match &self.program_monitor {
                Some(p) => Some(p@),
                None => None,
            },
        }
    }
}

impl EBPFManager {
    pub closed spec fn wf(&self) -> bool {
        match &self.program_monitor {
            Some(p) => p.wf(),
            None => true,
        }
    }

    /// A manager with the program monitor unloaded.
    pub fn new() -> (r: EBPFManager)
        ensures
            r.wf(),
            r@.program_monitor is None,
    {
        EBPFManager { program_monitor: None }
    }

    /// Whether the program monitor is loaded.
    pub fn is_loaded(&self) -> (r: bool)
        ensures
            r == self@.program_monitor is Some,
    {
        self.program_monitor.is_some()
    }

    /// The entries of the blocklist table, each once; empty when unloaded.
    pub fn blocklist(&self) -> (r: Vec<INodeNumber>)
        requires
            self.wf(),
        ensures
            r@.no_duplicates(),
            self@.program_monitor matches Some(b) ==> r@.to_set() == b,
            self@.program_monitor is None ==> r@.len() == 0,
    {
        match &self.program_monitor {
            Some(p) => p.blocklist(),
            None => Vec::new(),
        }
    }

    /// The first move on `req`: an answer, or the kernel operation to carry out.
    pub fn begin(&self, req: Request) -> (r: Step)
        ensures
            match self@.plan(req) {
                Answer::Done => r matches Step::Reply(Ok(())),
                Answer::NotLoaded => r matches Step::Reply(Err(Error::ModuleNotLoaded(m)))
                    && m@ == PROGRAM_MONITOR@,
                Answer::AlreadyLoaded => r matches Step::Reply(Err(Error::ModuleAlreadyLoaded(m)))
                    && m@ == PROGRAM_MONITOR@,
                Answer::Kernel(op) => r == Step::Perform(op),
            },
    {
        match (req, &self.program_monitor) {
            (Request::Load, Some(_)) => Step::Reply(Err(Error::ModuleAlreadyLoaded(PROGRAM_MONITOR))),
            (Request::Load, None) => Step::Perform(KernelOp::LoadAndAttach),
            (Request::Unload, Some(_)) => Step::Perform(KernelOp::Detach),
            (Request::Unload, None) => Step::Reply(Err(Error::ModuleNotLoaded(PROGRAM_MONITOR))),
            (Request::Block(_), None) => Step::Reply(Err(Error::ModuleNotLoaded(PROGRAM_MONITOR))),
            (Request::Allow(_), None) => Step::Reply(Err(Error::ModuleNotLoaded(PROGRAM_MONITOR))),
            (Request::Block(k), Some(p)) => if p.is_blocked(k) {
                Step::Reply(Ok(()))
            } else {
                Step::Perform(KernelOp::Insert(k))
            },
            (Request::Allow(k), Some(p)) => if p.is_blocked(k) {
                Step::Perform(KernelOp::Remove(k))
            } else {
                Step::Reply(Ok(()))
            },
        }
    }

    /// Takes in the outcome of the kernel operation that [`EBPFManager::begin`]
    /// asked for, and answers the request.
    pub fn complete(&mut self, op: KernelOp, outcome: Result<(), program_monitor::Error>) -> (r:
        Result<(), Error>)
        requires
            old(self).wf(),
            exists|req: Request| old(self)@.plan(req) == Answer::Kernel(op),
        ensures
            final(self).wf(),
            final(self)@ == old(self)@.after(op, outcome is Ok),
            r is Ok <==> outcome is Ok,
            outcome matches Err(e) ==> r == Err::<(), Error>(Error::ProgramMonitor(e)),
    {
        let succeeded = outcome.is_ok();
        match op {
            KernelOp::LoadAndAttach => {
                if succeeded {
                    self.program_monitor = Some(ProgramMonitor::load());
                }
            },
            KernelOp::Detach => {
                self.program_monitor = None;
            },
            KernelOp::Insert(k) => {
                if succeeded {
                    match &mut self.program_monitor {
                        Some(p) => p.block_program(k),
                        None => {},
                    }
                }
            },
            KernelOp::Remove(k) => {
                if succeeded {
                    match &mut self.program_monitor {
                        Some(p) => p.allow_program(k),
                        None => {},
                    }
                }
            },
        }
        match outcome {
            Ok(()) => Ok(()),
            Err(e) => Err(Error::ProgramMonitor(e)),
        }
    }
}

} // verus!
