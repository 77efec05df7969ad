//! The command pump's effect on a session's terminal, stated over a model of
//! the pseudo-terminal's controlling side. The pump consumes a session's
//! queued commands strictly in arrival order: a write appends its bytes to
//! the stream unchanged, a resize sets the terminal's dimensions, and a close
//! shuts the transport, after which nothing further is applied.

use vstd::prelude::*;

use crate::engine::{queue_model, CommandModel, PtyCommand};

verus! {

/// The controlling side of a pseudo-terminal as the command pump sees it:
/// the bytes written to it so far (oldest first), its current size, and
/// whether the pump has shut it.
#[derive(Debug)]
pub struct Transport {
    pub written: Vec<u8>,
    pub cols: u16,
    pub rows: u16,
    pub shut: bool,
}

/// The mathematical view of a transport.
pub ghost struct TransportModel {
    pub written: Seq<u8>,
    pub cols: u16,
    pub rows: u16,
    pub shut: bool,
}

/// What one command does to the transport. A shut transport is never touched
/// again.
pub open spec fn apply_model(m: TransportModel, c: CommandModel) -> TransportModel {
    if m.shut {
        m
    } else {
        match c {
            CommandModel::Write(data) => TransportModel { written: m.written + data, ..m },
            CommandModel::Resize(cols, rows) => TransportModel { cols, rows, ..m },
            CommandModel::Close => TransportModel { shut: true, ..m },
        }
    }
}

/// What a batch of commands does to the transport, applied oldest first.
pub open spec fn apply_all(m: TransportModel, cmds: Seq<CommandModel>) -> TransportModel
    decreases cmds.len(),
{
    if cmds.len() == 0 {
        m
    } else {
        apply_all(apply_model(m, cmds[0]), cmds.drop_first())
    }
}

impl Transport {
    pub open spec fn model(self) -> TransportModel {
        TransportModel { written: self.written@, cols: self.cols, rows: self.rows, shut: self.shut }
    }

    /// A fresh transport of the given size, with nothing written yet.
    pub fn new(cols: u16, rows: u16) -> (r: Transport)
        ensures
            r.model() == (TransportModel { written: Seq::empty(), cols, rows, shut: false }),
    {
        let r = Transport { written: Vec::new(), cols, rows, shut: false };
        proof {
            assert(r.written@ =~= Seq::<u8>::empty());
        }
        r
    }

    /// Applies one command, exactly as [`apply_model`] says, and reports
    /// whether the pump must stop: it stops at a close, and applies nothing
    /// to a transport that is already shut.
    pub fn apply_command(&mut self, cmd: &PtyCommand) -> (stop: bool)
        ensures
            final(self).model() == apply_model(old(self).model(), cmd.model()),
            stop == (old(self).shut || cmd is Close),
    {
        if self.shut {
            return true;
        }
        match cmd {
            PtyCommand::Write(data) => {
                let n = data.len();
                let mut k: usize = 0;
                while k < n
                    invariant
                        n == data@.len(),
                        k <= n,
                        self.written@ == old(self).written@ + data@.take(k as int),
                        self.cols == old(self).cols,
                        self.rows == old(self).rows,
                        self.shut == old(self).shut,
                    decreases n - k,
                {
                    self.written.push(data[k]);
                    proof {
                        assert(old(self).written@ + data@.take(k as int) + seq![data@[k as int]]
                            =~= old(self).written@ + data@.take(k as int + 1));
                    }
                    k = k + 1;
                }
                proof {
                    assert(data@.take(n as int) =~= data@);
                }
                false
            },
            PtyCommand::Resize(cols, rows) => {
                self.cols = *cols;
                self.rows = *rows;
                false
            },
            PtyCommand::Close => {
                self.shut = true;
                true
            },
        }
    }

    /// Runs a batch of commands through the transport, oldest first. The
    /// effect is exactly [`apply_all`]: everything up to the first close is
    /// applied in order, nothing after it.
    pub fn run_queue(&mut self, cmds: &Vec<PtyCommand>)
        ensures
            final(self).model() == apply_all(old(self).model(), queue_model(cmds@)),
    {
        let n = cmds.len();
        let mut i: usize = 0;
        proof {
            assert(cmds@.skip(0) =~= cmds@);
        }
        while i < n
            invariant
                i <= n,
                n == cmds@.len(),
                apply_all(old(self).model(), queue_model(cmds@)) == apply_all(
                    self.model(),
                    queue_model(cmds@.skip(i as int)),
                ),
            decreases n - i,
        {
            let ghost pre = self.model();
            let _ = self.apply_command(&cmds[i]);
            proof {
                let rest = queue_model(cmds@.skip(i as int));
                assert(rest[0] == cmds@[i as int].model());
                assert(rest.drop_first() =~= queue_model(cmds@.skip(i as int + 1)));
                assert(apply_all(pre, rest) == apply_all(
                    self.model(),
                    queue_model(cmds@.skip(i as int + 1)),
                ));
            }
            i = i + 1;
        }
        proof {
            assert(queue_model(cmds@.skip(n as int)) =~= Seq::<CommandModel>::empty());
        }
    }
}

/// The bytes each of a batch of write commands carries.
pub open spec fn write_payloads(cmds: Seq<CommandModel>) -> Seq<Seq<u8>> {
    cmds.map_values(
        |c: CommandModel|
            match c {
                CommandModel::Write(data) => data,
                CommandModel::Resize(_, _) => Seq::empty(),
                CommandModel::Close => Seq::empty(),
            },
    )
}

/// Writes are applied to the transport in exactly the order they were
/// queued: a batch of write commands appends the concatenation of their
/// payloads, oldest first, with no byte inserted, dropped or reordered, and
/// leaves the terminal's size and openness untouched.
pub proof fn lemma_writes_applied_in_order(m: TransportModel, cmds: Seq<CommandModel>)
    requires
        !m.shut,
        forall|i: int| 0 <= i < cmds.len() ==> (#[trigger] cmds[i]) is Write,
    ensures
        apply_all(m, cmds).written == m.written + write_payloads(cmds).flatten(),
        !apply_all(m, cmds).shut,
        apply_all(m, cmds).cols == m.cols,
        apply_all(m, cmds).rows == m.rows,
    decreases cmds.len(),
{
    if cmds.len() == 0 {
        assert(write_payloads(cmds).flatten() =~= Seq::<u8>::empty());
        assert(m.written + write_payloads(cmds).flatten() =~= m.written);
    } else {
        let first = cmds[0];
        let data = match first {
            CommandModel::Write(d) => d,
            CommandModel::Resize(_, _) => Seq::empty(),
            CommandModel::Close => Seq::empty(),
        };
        let m1 = apply_model(m, first);
        assert(m1.written == m.written + data);
        assert forall|i: int| 0 <= i < cmds.drop_first().len() implies (#[trigger] cmds.drop_first()[i]) is Write by {
            assert(cmds.drop_first()[i] == cmds[i + 1]);
        }
        lemma_writes_applied_in_order(m1, cmds.drop_first());
        assert(write_payloads(cmds).drop_first() =~= write_payloads(cmds.drop_first()));
        assert(write_payloads(cmds).flatten() == write_payloads(cmds)[0] + write_payloads(
            cmds,
        ).drop_first().flatten());
        assert(m.written + data + write_payloads(cmds.drop_first()).flatten() =~= m.written + (data
            + write_payloads(cmds.drop_first()).flatten()));
    }
}

} // verus!
