//! At most one outstanding remote fetch per listing.
use vstd::prelude::*;

verus! {

/// The two states of a fetch gate.
#[derive(Clone, Copy, Debug, PartialEq, Eq, Structural)]
pub enum GateState {
    /// No fetch is running: one may be started.
    Idle,
    /// A fetch is in flight.
    Fetching,
}

/// One operation on a gate, used to state what a sequence of them does.
#[derive(Clone, Copy, Debug, PartialEq, Eq, Structural)]
pub enum GateOp {
    Acquire,
    Release,
}

/// Single-writer gate that lets one fetch start at a time.
#[derive(Debug)]
pub struct FetchGate {
    state: GateState,
}

/// The state a gate is in after one operation, starting from `open`.
pub open spec fn gate_step(open: bool, op: GateOp) -> bool {
    match op {
        GateOp::Acquire => false,
        GateOp::Release => true,
    }
}

/// Whether an operation succeeds: an acquire wins only on an open gate.
pub open spec fn gate_outcome(open: bool, op: GateOp) -> bool {
    match op {
        GateOp::Acquire => open,
        GateOp::Release => true,
    }
}

/// Whether the fetch gate is open after running `ops` from `open`.
pub open spec fn gate_after(open: bool, ops: Seq<GateOp>) -> bool
    decreases ops.len(),
{
    if ops.len() == 0 {
        open
    } else {
        gate_step(gate_after(open, ops.drop_last()), ops.last())
    }
}

/// Whether the `i`-th operation of `ops`, run from `open`, is an acquire that wins.
pub open spec fn wins_at(open: bool, ops: Seq<GateOp>, i: int) -> bool {
    ops[i] == GateOp::Acquire && gate_outcome(gate_after(open, ops.take(i)), ops[i])
}

impl FetchGate {
    /// The fetch gate as a boolean: `true` while a fetch may be started.
    pub closed spec fn is_open(&self) -> bool {
        self.state == GateState::Idle
    }

    /// A new gate is open.
    pub fn new() -> (r: FetchGate)
        ensures
            r.is_open(),
    {
        FetchGate { state: GateState::Idle }
    }

    pub fn state(&self) -> (r: GateState)
        ensures
            (r == GateState::Idle) == self.is_open(),
    {
        self.state
    }

    /// Closes the fetch gate and reports whether this call was the one that closed it.
    pub fn try_acquire(&mut self) -> (won: bool)
        ensures
            won == gate_outcome(old(self).is_open(), GateOp::Acquire),
            final(self).is_open() == gate_step(old(self).is_open(), GateOp::Acquire),
    {
        match self.state {
            GateState::Idle => {
                self.state = GateState::Fetching;
                true
            },
            GateState::Fetching => false,
        }
    }

    /// Opens the fetch gate, whatever its state.
    pub fn release(&mut self)
        ensures
            final(self).is_open() == gate_step(old(self).is_open(), GateOp::Release),
    {
        self.state = GateState::Idle;
    }
}

/// Of any run of operations on one gate, two acquires that both win have a
/// release between them: at most one fetch holds the fetch gate at a time.
pub proof fn lemma_gate_exclusive(open: bool, ops: Seq<GateOp>, i: int, j: int)
    requires
        0 <= i < j < ops.len(),
        wins_at(open, ops, i),
        wins_at(open, ops, j),
    ensures
        exists|k: int| i < k < j && ops[k] == GateOp::Release,
    decreases j - i,
{
    if forall|k: int| i < k < j ==> ops[k] != GateOp::Release {
        lemma_closed_after_acquire(open, ops, i, j);
    }
}

/// After a winning acquire at `i` with no release up to `j`, the fetch gate is closed at `j`.
proof fn lemma_closed_after_acquire(open: bool, ops: Seq<GateOp>, i: int, j: int)
    requires
        0 <= i < j <= ops.len(),
        ops[i] == GateOp::Acquire,
        forall|k: int| i < k < j ==> ops[k] != GateOp::Release,
    ensures
        !gate_after(open, ops.take(j)),
    decreases j - i,
{
    let t = ops.take(j);
    assert(t.drop_last() =~= ops.take(j - 1));
    if j - 1 > i {
        lemma_closed_after_acquire(open, ops, i, j - 1);
    }
}

} // verus!
