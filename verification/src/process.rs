//! A small registry of running child processes, keyed by an identifier:
//! what each operation does to the table is stated and verified here; the
//! locking that shares it between tasks is the host's.

use vstd::prelude::*;

use crate::strutil::str_eq;

verus! {

/// What a tracked process is doing.
#[derive(Clone, Copy, Debug, PartialEq, Eq, Structural)]
pub enum ProcessStatus {
    Running,
    Stopped,
    Completed,
    Error,
}

/// One tracked process.
#[derive(Debug)]
pub struct ProcessInfo {
    pub id: String,
    pub pid: u32,
    pub status: ProcessStatus,
}

/// The records whose identifier differs from `id`, in order.
pub open spec fn without_proc_id(s: Seq<ProcessInfo>, id: Seq<char>) -> Seq<ProcessInfo>
    decreases s.len(),
{
    if s.len() == 0 {
        Seq::empty()
    } else if s.first().id@ == id {
        without_proc_id(s.drop_first(), id)
    } else {
        seq![s.first()] + without_proc_id(s.drop_first(), id)
    }
}

/// The status of the first record carrying `id`, if any.
pub open spec fn proc_status_of(s: Seq<ProcessInfo>, id: Seq<char>) -> Option<ProcessStatus>
    decreases s.len(),
{
    if s.len() == 0 {
        None
    } else if s.first().id@ == id {
        Some(s.first().status)
    } else {
        proc_status_of(s.drop_first(), id)
    }
}

/// The records with the first one carrying `id` moved to `status`; without
/// such a record, the records unchanged.
pub open spec fn with_proc_status(
    s: Seq<ProcessInfo>,
    id: Seq<char>,
    status: ProcessStatus,
) -> Seq<ProcessInfo>
    decreases s.len(),
{
    if s.len() == 0 {
        Seq::empty()
    } else if s.first().id@ == id {
        seq![ProcessInfo { status, ..s.first() }] + s.drop_first()
    } else {
        seq![s.first()] + with_proc_status(s.drop_first(), id, status)
    }
}

/// The process table.
pub struct ProcessManager {
    processes: Vec<ProcessInfo>,
}

impl ProcessManager {
    pub closed spec fn records(self) -> Seq<ProcessInfo> {
        self.processes@
    }

    /// An empty table.
    pub fn new() -> (r: ProcessManager)
        ensures
            r.records() == Seq::<ProcessInfo>::empty(),
    {
        ProcessManager { processes: Vec::new() }
    }

    /// Tracks a process as running, replacing any record under the same
    /// identifier.
    pub fn register(&mut self, id: String, pid: u32)
        ensures
            final(self).records() == without_proc_id(old(self).records(), id@).push(
                (ProcessInfo { id, pid, status: ProcessStatus::Running }),
            ),
    {
        let mut rest = Vec::new();
        core::mem::swap(&mut rest, &mut self.processes);
        let ghost all = rest@;
        let mut kept: Vec<ProcessInfo> = Vec::new();
        proof {
            assert(kept@ + without_proc_id(all, id@) =~= without_proc_id(all, id@));
        }
        while rest.len() > 0
            invariant
                without_proc_id(all, id@) == kept@ + without_proc_id(rest@, id@),
            decreases rest.len(),
        {
            let ghost prev = rest@;
            let e = rest.remove(0);
            proof {
                assert(prev.first() == e);
                assert(prev.drop_first() =~= rest@);
            }
            if !str_eq(e.id.as_str(), id.as_str()) {
                proof {
                    assert(kept@.push(e) + without_proc_id(rest@, id@) =~= kept@ + (seq![e]
                        + without_proc_id(rest@, id@)));
                }
                kept.push(e);
            }
        }
        proof {
            assert(kept@ + without_proc_id(Seq::<ProcessInfo>::empty(), id@) =~= kept@);
        }
        kept.push(ProcessInfo { id, pid, status: ProcessStatus::Running });
        self.processes = kept;
    }

    /// The status of the process under `id`, or `None` when none is
    /// tracked.
    pub fn get_status(&self, id: &str) -> (r: Option<ProcessStatus>)
        ensures
            r == proc_status_of(self.records(), id@),
    {
        let n = self.processes.len();
        let mut i: usize = 0;
        proof {
            assert(self.records().skip(0) =~= self.records());
        }
        while i < n
            invariant
                n == self.records().len(),
                i <= n,
                proc_status_of(self.records(), id@) == proc_status_of(
                    self.records().skip(i as int),
                    id@,
                ),
            decreases n - i,
        {
            proof {
                assert(self.records().skip(i as int).first() == self.records()[i as int]);
                assert(self.records().skip(i as int).drop_first() =~= self.records().skip(
                    i as int + 1,
                ));
            }
            if str_eq(self.processes[i].id.as_str(), id) {
                return Some(self.processes[i].status);
            }
            i = i + 1;
        }
        proof {
            assert(self.records().skip(n as int) =~= Seq::<ProcessInfo>::empty());
        }
        None
    }

    /// Moves the process under `id` to the given status; a table without it
    /// is left as it stands.
    pub fn set_status(&mut self, id: &str, status: ProcessStatus)
        ensures
            final(self).records() == with_proc_status(old(self).records(), id@, status),
    {
        let mut rest = Vec::new();
        core::mem::swap(&mut rest, &mut self.processes);
        let ghost all = rest@;
        let mut kept: Vec<ProcessInfo> = Vec::new();
        let mut done = false;
        proof {
            assert(kept@ + with_proc_status(all, id@, status) =~= with_proc_status(
                all,
                id@,
                status,
            ));
        }
        while rest.len() > 0
            invariant
                with_proc_status(all, id@, status) == kept@ + if done {
                    rest@
                } else {
                    with_proc_status(rest@, id@, status)
                },
            decreases rest.len(),
        {
            let ghost prev = rest@;
            let e = rest.remove(0);
            proof {
                assert(prev.first() == e);
                assert(prev.drop_first() =~= rest@);
            }
            if !done && str_eq(e.id.as_str(), id) {
                let updated = ProcessInfo { id: e.id, pid: e.pid, status };
                proof {
                    assert(updated == (ProcessInfo { status, ..prev.first() }));
                    assert(kept@.push(updated) + rest@ =~= kept@ + (seq![updated] + rest@));
                }
                kept.push(updated);
                done = true;
            } else {
                proof {
                    if done {
                        assert(kept@.push(e) + rest@ =~= kept@ + (seq![e] + rest@));
                        assert(seq![e] + rest@ =~= prev);
                    } else {
                        assert(kept@.push(e) + with_proc_status(rest@, id@, status) =~= kept@ + (
                        seq![e] + with_proc_status(rest@, id@, status)));
                    }
                }
                kept.push(e);
            }
        }
        proof {
            if done {
                assert(kept@ + Seq::<ProcessInfo>::empty() =~= kept@);
            } else {
                assert(kept@ + with_proc_status(Seq::<ProcessInfo>::empty(), id@, status)
                    =~= kept@);
            }
        }
        self.processes = kept;
    }

    /// Forgets every record under `id`.
    pub fn remove(&mut self, id: &str)
        ensures
            final(self).records() == without_proc_id(old(self).records(), id@),
    {
        let mut rest = Vec::new();
        core::mem::swap(&mut rest, &mut self.processes);
        let ghost all = rest@;
        let mut kept: Vec<ProcessInfo> = Vec::new();
        proof {
            assert(kept@ + without_proc_id(all, id@) =~= without_proc_id(all, id@));
        }
        while rest.len() > 0
            invariant
                without_proc_id(all, id@) == kept@ + without_proc_id(rest@, id@),
            decreases rest.len(),
        {
            let ghost prev = rest@;
            let e = rest.remove(0);
            proof {
                assert(prev.first() == e);
                assert(prev.drop_first() =~= rest@);
            }
            if !str_eq(e.id.as_str(), id) {
                proof {
                    assert(kept@.push(e) + without_proc_id(rest@, id@) =~= kept@ + (seq![e]
                        + without_proc_id(rest@, id@)));
                }
                kept.push(e);
            }
        }
        proof {
            assert(kept@ + without_proc_id(Seq::<ProcessInfo>::empty(), id@) =~= kept@);
        }
        self.processes = kept;
    }
}

impl Default for ProcessManager {
    /// An empty table, as [`ProcessManager::new`] builds it.
    fn default() -> (r: ProcessManager)
        ensures
            r.records() == Seq::<ProcessInfo>::empty(),
    {
        ProcessManager::new()
    }
}

} // verus!
