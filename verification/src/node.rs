//! The kinds of node that sit on the grid.

pub mod exec;
pub mod stack;
pub mod test;

pub use self::exec::{BasicExecutionNode, CorruptedNode, DamagedExecutionNode, Mode};
pub use self::stack::StackMemoryNode;
pub use self::test::{TestImageNode, TestInputNode, TestOutputNode};

use crate::io::IoBusView;
use vstd::prelude::*;

verus! {

/// What every node on the grid can do.
pub trait Node {
    /// What holds of the node whenever it is not in the middle of a call.
    spec fn inv(&self) -> bool;

    /// Does this cycle's work: at most one instruction.
    fn step(&mut self, io: &mut IoBusView)
        requires
            old(self).inv(),
            old(io).fabric().wf(),
        ensures
            final(self).inv(),
            final(io).fabric().wf(),
            final(io).fabric().nodes == old(io).fabric().nodes,
            final(io).node == old(io).node,
            *final(final(io).bus) == *final(old(io).bus),
    ;

    /// Finishes the cycle, after the neighbours had their chance to read what
    /// this node wrote.
    fn sync(&mut self, io: &mut IoBusView)
        requires
            old(self).inv(),
            old(io).fabric().wf(),
        ensures
            final(self).inv(),
            final(io).fabric().wf(),
            final(io).fabric().nodes == old(io).fabric().nodes,
            final(io).node == old(io).node,
            *final(final(io).bus) == *final(old(io).bus),
    ;

    /// Tells whether the node makes no progress. A node that runs no program
    /// always says yes.
    fn is_stalled(&self) -> bool;
}

/// How far a test has come.
#[derive(Debug, PartialEq, Eq, Clone, Copy, Structural)]
pub enum TestState {
    Testing,
    Passed,
    Failed,
}

/// A node that checks what reaches it against what was expected.
pub trait TestNode: Node {
    /// The state of the test so far.
    fn state(&self) -> TestState;
}

} // verus!
