//! The cancellation signal: two flags that the keyboard sets and the
//! read-eval loop clears before each request.

use vstd::prelude::*;

verus! {

/// The state of the cancellation signal.
#[derive(Clone, Copy, PartialEq, Eq, Debug, Structural)]
pub struct AbortSignal {
    /// The user interrupted the current reply.
    pub ctrlc: bool,
    /// The user asked to leave.
    pub ctrld: bool,
}

/// What can happen to the signal.
#[derive(Clone, Copy, PartialEq, Eq, Debug, Structural)]
pub enum AbortOp {
    SetCtrlC,
    SetCtrlD,
    Reset,
    /// A reader looks at the signal.
    Observe,
}

impl AbortOp {
    /// Whether the operation raises a flag.
    pub open spec fn is_setter(self) -> bool {
        self == AbortOp::SetCtrlC || self == AbortOp::SetCtrlD
    }
}

/// A signal with no flag raised.
pub fn create_abort_signal() -> (s: AbortSignal)
    ensures
        s == AbortSignal::cleared(),
        !s.is_aborted(),
{
    AbortSignal { ctrlc: false, ctrld: false }
}

impl AbortSignal {
    /// The signal with no flag raised.
    pub open spec fn cleared() -> AbortSignal {
        AbortSignal { ctrlc: false, ctrld: false }
    }

    /// Whether either flag is raised.
    pub open spec fn is_aborted(self) -> bool {
        self.ctrlc || self.ctrld
    }

    /// The signal after one operation.
    pub open spec fn after(self, op: AbortOp) -> AbortSignal {
        match op {
            AbortOp::SetCtrlC => AbortSignal { ctrlc: true, ctrld: self.ctrld },
            AbortOp::SetCtrlD => AbortSignal { ctrlc: self.ctrlc, ctrld: true },
            AbortOp::Reset => AbortSignal::cleared(),
            AbortOp::Observe => self,
        }
    }

    /// The signal after a run of operations, first to last.
    pub open spec fn after_all(self, ops: Seq<AbortOp>) -> AbortSignal
        decreases ops.len(),
    {
        if ops.len() == 0 {
            self
        } else {
            self.after_all(ops.drop_last()).after(ops.last())
        }
    }

    pub fn aborted(&self) -> (b: bool)
        ensures
            b == self.is_aborted(),
    {
        self.ctrlc || self.ctrld
    }

    pub fn aborted_ctrlc(&self) -> (b: bool)
        ensures
            b == self.ctrlc,
    {
        self.ctrlc
    }

    pub fn aborted_ctrld(&self) -> (b: bool)
        ensures
            b == self.ctrld,
    {
        self.ctrld
    }

    /// Clears both flags.
    pub fn reset(&mut self)
        ensures
            *final(self) == old(self).after(AbortOp::Reset),
            !final(self).is_aborted(),
    {
        self.ctrlc = false;
        self.ctrld = false;
    }

    /// Raises the interrupt flag; the other flag stays as it is.
    pub fn set_ctrlc(&mut self)
        ensures
            *final(self) == old(self).after(AbortOp::SetCtrlC),
            final(self).is_aborted(),
    {
        self.ctrlc = true;
    }

    /// Raises the exit flag; the other flag stays as it is.
    pub fn set_ctrld(&mut self)
        ensures
            *final(self) == old(self).after(AbortOp::SetCtrlD),
            final(self).is_aborted(),
    {
        self.ctrld = true;
    }
}

/// After a reset the signal reads as not aborted for as long as no setter
/// fires, whatever happened before the reset.
pub proof fn lemma_quiet_after_reset(start: AbortSignal, ops: Seq<AbortOp>, reset_at: int)
    requires
        0 <= reset_at < ops.len(),
        ops[reset_at] == AbortOp::Reset,
        forall|j: int| reset_at < j < ops.len() ==> !(#[trigger] ops[j]).is_setter(),
    ensures
        !start.after_all(ops).is_aborted(),
        start.after_all(ops) == AbortSignal::cleared(),
    decreases ops.len(),
{
    if reset_at < ops.len() - 1 {
        assert(!ops[ops.len() - 1].is_setter());
        lemma_quiet_after_reset(start, ops.drop_last(), reset_at);
    }
}

/// A raised flag stays raised until the signal is reset.
pub proof fn lemma_raised_until_reset(start: AbortSignal, ops: Seq<AbortOp>)
    requires
        forall|j: int| 0 <= j < ops.len() ==> #[trigger] ops[j] != AbortOp::Reset,
    ensures
        start.ctrlc ==> start.after_all(ops).ctrlc,
        start.ctrld ==> start.after_all(ops).ctrld,
    decreases ops.len(),
{
    if ops.len() > 0 {
        assert(ops[ops.len() - 1] != AbortOp::Reset);
        lemma_raised_until_reset(start, ops.drop_last());
    }
}

/// Setting a flag that is raised changes nothing.
pub proof fn lemma_setters_idempotent(s: AbortSignal, op: AbortOp)
    requires
        op.is_setter(),
    ensures
        s.after(op).after(op) == s.after(op),
{
}

} // verus!
