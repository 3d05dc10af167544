use vstd::prelude::*;

use crate::program_monitor::INodeNumber;

verus! {

/// What the kernel reported when an operation of the program monitor failed.
#[derive(Debug)]
pub enum Error {
    Btf(String),
    ProgramNotFound,
    Program(String),
    MapNotFound(String),
    MapAccess(String),
}

/// An operation on the kernel side of the program monitor.
#[derive(Clone, Copy, Debug, PartialEq, Eq, Structural)]
pub enum KernelOp {
    /// Load and attach the execution hook, and take its blocklist table.
    LoadAndAttach,
    /// Detach the hook and release its blocklist table.
    Detach,
    /// Put an inode number in the blocklist table.
    Insert(INodeNumber),
    /// Take an inode number out of the blocklist table.
    Remove(INodeNumber),
}

/// The loaded program monitor, as far as the logic sees it: the entries of its
/// blocklist table, each once.
#[derive(Debug)]
pub struct ProgramMonitor {
    files_blacklist: Vec<INodeNumber>,
}

impl View for ProgramMonitor {
    type V = Set<INodeNumber>;

    closed spec fn view(&self) -> Set<INodeNumber> {
        self.files_blacklist@.to_set()
    }
}

impl ProgramMonitor {
    pub closed spec fn wf(&self) -> bool {
        self.files_blacklist@.no_duplicates()
    }

    /// A freshly loaded monitor: its blocklist table is empty.
    pub fn load() -> (r: ProgramMonitor)
        ensures
            r.wf(),
            r@ == Set::<INodeNumber>::empty(),
    {
        let r = ProgramMonitor { files_blacklist: Vec::new() };
        assert(r@ =~= Set::<INodeNumber>::empty());
        r
    }

    /// Whether `inode` is in the blocklist table.
    pub fn is_blocked(&self, inode: INodeNumber) -> (r: bool)
        ensures
            r == self@.contains(inode),
    {
        let mut i: usize = 0;
        while i < self.files_blacklist.len()
            invariant
                i <= self.files_blacklist@.len(),
                forall|j: int| 0 <= j < i ==> self.files_blacklist@[j] != inode,
            decreases self.files_blacklist.len() - i,
        {
            if self.files_blacklist[i] == inode {
                assert(self.files_blacklist@.contains(inode));
                return true;
            }
            i += 1;
        }
        assert(!self.files_blacklist@.contains(inode));
        false
    }

    /// Records that the kernel table now holds `inode`.
    pub fn block_program(&mut self, inode: INodeNumber)
        requires
            old(self).wf(),
        ensures
            final(self).wf(),
            final(self)@ == old(self)@.insert(inode),
    {
        if !self.is_blocked(inode) {
            self.files_blacklist.push(inode);
            proof {
                let s = old(self).files_blacklist@;
                let t = self.files_blacklist@;
                assert(t == s.push(inode));
                assert(!s.contains(inode));
                assert forall|a: int, b: int|
                    0 <= a < t.len() && 0 <= b < t.len() && a != b implies t[a] != t[b] by {
                    if a == s.len() as int {
                        assert(t[b] == s[b]);
                        if s[b] == inode {
                            assert(s.contains(inode));
                        }
                    } else if b == s.len() as int {
                        assert(t[a] == s[a]);
                        if s[a] == inode {
                            assert(s.contains(inode));
                        }
                    } else {
                        assert(t[a] == s[a] && t[b] == s[b]);
                    }
                }
                s.lemma_push_to_set_commute(inode);
            }
        } else {
            assert(old(self)@.insert(inode) =~= old(self)@);
        }
    }

    /// Records that the kernel table no longer holds `inode`.
    pub fn allow_program(&mut self, inode: INodeNumber)
        requires
            old(self).wf(),
        ensures
            final(self).wf(),
            final(self)@ == old(self)@.remove(inode),
    {
        let mut i: usize = 0;
        while i < self.files_blacklist.len()
            invariant
                i <= self.files_blacklist@.len(),
                self.files_blacklist == old(self).files_blacklist,
                old(self).wf(),
                forall|j: int| 0 <= j < i ==> self.files_blacklist@[j] != inode,
            decreases self.files_blacklist.len() - i,
        {
            if self.files_blacklist[i] == inode {
                let ghost s = self.files_blacklist@;
                self.files_blacklist.remove(i);
                proof {
                    let t = self.files_blacklist@;
                    assert(t =~= s.remove(i as int));
                    assert(s.no_duplicates());
                    assert forall|a: int, b: int|
                        0 <= a < t.len() && 0 <= b < t.len() && a != b implies t[a] != t[b] by {
                        let a0 = if a < i { a } else { a + 1 };
                        let b0 = if b < i { b } else { b + 1 };
                        assert(t[a] == s[a0] && t[b] == s[b0]);
                        assert(a0 != b0);
                    }
                    assert forall|x: INodeNumber| #[trigger] t.contains(x) <==> s.to_set().remove(
                        inode,
                    ).contains(x) by {
                        if t.contains(x) {
                            let a = choose|a: int| 0 <= a < t.len() && t[a] == x;
                            let a0 = if a < i { a } else { a + 1 };
                            assert(s[a0] == x);
                            assert(a0 != i);
                            assert(s[i as int] == inode);
                            assert(s.contains(x));
                            assert(x != inode);
                        }
                        if s.to_set().remove(inode).contains(x) {
                            assert(s.contains(x));
                            assert(x != inode);
                            let a0 = choose|a: int| 0 <= a < s.len() && s[a] == x;
                            assert(s[i as int] == inode);
                            assert(a0 != i);
                            let a = if a0 < i { a0 } else { a0 - 1 };
                            assert(t[a] == x);
                        }
                    }
                    assert(t.to_set() =~= s.to_set().remove(inode));
                }
                return;
            }
            i += 1;
        }
        assert(!self.files_blacklist@.contains(inode));
        assert(old(self)@.remove(inode) =~= old(self)@);
    }

    /// The entries of the blocklist table, each once.
    pub fn blocklist(&self) -> (r: Vec<INodeNumber>)
        requires
            self.wf(),
        ensures
            r@.no_duplicates(),
            r@.to_set() == self@,
    {
        self.files_blacklist.clone()
    }
}

} // verus!
