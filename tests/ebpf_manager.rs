use chapchap::ebpf_manager::program_monitor::{Error as KernelError, KernelOp};
use chapchap::ebpf_manager::{EBPFManager, Error, Request, Step};

/// Runs one request, with every kernel operation answering `outcome`.
fn run(m: &mut EBPFManager, req: Request, outcome: Result<(), KernelError>) -> Result<(), Error> {
    match m.begin(req) {
        Step::Reply(r) => r,
        Step::Perform(op) => m.complete(op, outcome),
    }
}

fn loaded() -> EBPFManager {
    let mut m = EBPFManager::new();
    run(&mut m, Request::Load, Ok(())).unwrap();
    m
}

#[test]
fn load_asks_for_kernel_then_loads() {
    let mut m = EBPFManager::new();
    assert!(!m.is_loaded());
    match m.begin(Request::Load) {
        Step::Perform(op) => {
            assert_eq!(op, KernelOp::LoadAndAttach);
            m.complete(op, Ok(())).unwrap();
        }
        other => panic!("unexpected {other:?}"),
    }
    assert!(m.is_loaded());
    assert!(m.blocklist().is_empty());
}

#[test]
fn load_twice_already_loaded() {
    let mut m = loaded();
    run(&mut m, Request::Block(3), Ok(())).unwrap();
    match run(&mut m, Request::Load, Ok(())) {
        Err(Error::ModuleAlreadyLoaded(name)) => assert_eq!(name, "program_monitor"),
        other => panic!("unexpected {other:?}"),
    }
    assert!(m.is_loaded());
    assert_eq!(m.blocklist(), vec![3]);
}

#[test]
fn unload_unloaded_not_loaded() {
    let mut m = EBPFManager::new();
    assert!(matches!(run(&mut m, Request::Unload, Ok(())), Err(Error::ModuleNotLoaded(_))));
    assert!(matches!(run(&mut m, Request::Block(1), Ok(())), Err(Error::ModuleNotLoaded(_))));
    assert!(matches!(run(&mut m, Request::Allow(1), Ok(())), Err(Error::ModuleNotLoaded(_))));
}

#[test]
fn failed_load_stays_unloaded() {
    let mut m = EBPFManager::new();
    let r = run(&mut m, Request::Load, Err(KernelError::Btf("no btf".to_string())));
    assert!(matches!(r, Err(Error::ProgramMonitor(KernelError::Btf(_)))));
    assert!(!m.is_loaded());
}

#[test]
fn unload_then_reload_starts_empty() {
    let mut m = loaded();
    run(&mut m, Request::Block(3), Ok(())).unwrap();
    run(&mut m, Request::Unload, Ok(())).unwrap();
    assert!(!m.is_loaded());
    run(&mut m, Request::Load, Ok(())).unwrap();
    assert!(m.blocklist().is_empty());
}

#[test]
fn failed_detach_still_unloads() {
    let mut m = loaded();
    let r = run(&mut m, Request::Unload, Err(KernelError::ProgramNotFound));
    assert!(r.is_err());
    assert!(!m.is_loaded());
}

#[test]
fn block_twice_one_entry() {
    let mut m = loaded();
    assert!(matches!(m.begin(Request::Block(42)), Step::Perform(KernelOp::Insert(42))));
    run(&mut m, Request::Block(42), Ok(())).unwrap();
    assert!(matches!(m.begin(Request::Block(42)), Step::Reply(Ok(()))));
    run(&mut m, Request::Block(42), Ok(())).unwrap();
    assert_eq!(m.blocklist(), vec![42]);
}

#[test]
fn block_allow_allow_empty() {
    let mut m = loaded();
    run(&mut m, Request::Block(42), Ok(())).unwrap();
    assert!(matches!(m.begin(Request::Allow(42)), Step::Perform(KernelOp::Remove(42))));
    run(&mut m, Request::Allow(42), Ok(())).unwrap();
    assert!(m.blocklist().is_empty());
    assert!(matches!(m.begin(Request::Allow(42)), Step::Reply(Ok(()))));
    run(&mut m, Request::Allow(42), Ok(())).unwrap();
    assert!(m.blocklist().is_empty());
}

#[test]
fn failed_insert_keeps_table() {
    let mut m = loaded();
    let r = run(&mut m, Request::Block(5), Err(KernelError::MapAccess("full".to_string())));
    assert!(matches!(r, Err(Error::ProgramMonitor(KernelError::MapAccess(_)))));
    assert!(m.blocklist().is_empty());
}
