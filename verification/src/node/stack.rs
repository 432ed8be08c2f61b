//! The node that keeps a stack of values.

use super::Node;
use crate::io::{Fabric, IoBusView, NodeId};
use crate::types::Port;
use vstd::prelude::*;

verus! {

/// The state of a stack node as a mathematical value.
#[verifier::ext_equal]
pub ghost struct StackState {
    /// The values, the oldest first.
    pub stack: Seq<isize>,
    /// Where the value stands that the node has on offer, if it has one.
    pub read_index: Option<usize>,
}

/// A stack node and the bus, taken together.
#[verifier::ext_equal]
pub ghost struct StackScene {
    pub node: StackState,
    pub bus: Fabric,
}

/// The bus after node `id` offered `value` in all four directions.
pub open spec fn offer_all(f: Fabric, id: NodeId, value: isize) -> Fabric {
    f.write(id, Port::LEFT, value).write(id, Port::RIGHT, value).write(id, Port::UP, value).write(
        id,
        Port::DOWN,
        value,
    )
}

/// The node and the bus after node `id` read in direction `port` and pushed
/// what it found, if anything.
pub open spec fn take_in(sc: StackScene, id: NodeId, port: Port) -> StackScene {
    match sc.bus.read_value(id, port) {
        Some(v) => StackScene {
            node: StackState { stack: sc.node.stack.push(v), ..sc.node },
            bus: sc.bus.read(id, port),
        },
        None => sc,
    }
}

/// The node and the bus after one step of node `id`: the node offers its top
/// value, if it has one, in all four directions and remembers where that
/// value stands; then it reads left, right, up and down and pushes each value
/// it finds.
pub open spec fn spec_stack_step(s: StackState, f: Fabric, id: NodeId) -> StackScene {
    let offered = if s.stack.len() > 0 {
        StackScene {
            node: StackState { read_index: Some((s.stack.len() - 1) as usize), ..s },
            bus: offer_all(f, id, s.stack.last()),
        }
    } else {
        StackScene { node: s, bus: f }
    };
    take_in(take_in(take_in(take_in(offered, id, Port::LEFT), id, Port::RIGHT), id, Port::UP), id,
        Port::DOWN)
}

/// The node after the end of a cycle: if nobody waits for a reader of its
/// offer any more, the value it offered leaves the stack.
pub open spec fn spec_stack_sync(s: StackState, f: Fabric, id: NodeId) -> StackState {
    if !f.is_blocked(id) && s.read_index is Some {
        StackState { stack: s.stack.remove(s.read_index->0 as int), read_index: None }
    } else {
        s
    }
}

/// Keeps what is written to it on a stack, and offers the value on top to
/// whoever reads from it.
#[derive(Debug)]
pub struct StackMemoryNode {
    stack: Vec<isize>,
    read_index: Option<usize>,
}

impl View for StackMemoryNode {
    type V = StackState;

    closed spec fn view(&self) -> StackState {
        StackState { stack: self.stack@, read_index: self.read_index }
    }
}

impl StackMemoryNode {
    /// Makes a node with an empty stack.
    pub fn new() -> (node: StackMemoryNode)
        ensures
            node@ == (StackState { stack: Seq::empty(), read_index: None }),
            node.inv(),
    {
        StackMemoryNode { stack: Vec::new(), read_index: None }
    }

    /// The values on the stack, the oldest first.
    pub fn values(&self) -> (r: &Vec<isize>)
        ensures
            r@ == self@.stack,
    {
        &self.stack
    }

    /// Reads in direction `port` and pushes what it finds.
    fn take_in(&mut self, io: &mut IoBusView, port: Port)
        requires
            old(self).inv(),
            old(io).fabric().wf(),
        ensures
            final(self)@ == take_in(
                StackScene { node: old(self)@, bus: old(io).fabric() },
                old(io).node,
                port,
            ).node,
            final(io).fabric() == take_in(
                StackScene { node: old(self)@, bus: old(io).fabric() },
                old(io).node,
                port,
            ).bus,
            final(self).inv(),
            final(io).fabric().wf(),
            final(io).node == old(io).node,
            *final(final(io).bus) == *final(old(io).bus),
    {
        if let Some(val) = io.read(port) {
            self.stack.push(val);
        }
    }
}

impl Node for StackMemoryNode {
    /// The value on offer, if there is one, is on the stack.
    open spec fn inv(&self) -> bool {
        self@.read_index is Some ==> self@.read_index->0 < self@.stack.len()
    }

    /// Offers the top value all round, then takes in what the neighbours
    /// have written.
    fn step(&mut self, io: &mut IoBusView)
        ensures
            final(self)@ == spec_stack_step(old(self)@, old(io).fabric(), old(io).node).node,
            final(io).fabric() == spec_stack_step(old(self)@, old(io).fabric(), old(io).node).bus,
    {
        let len = self.stack.len();
        if len > 0 {
            let val = self.stack[len - 1];
            self.read_index = Some(len - 1);
            io.write(Port::LEFT, val);
            io.write(Port::RIGHT, val);
            io.write(Port::UP, val);
            io.write(Port::DOWN, val);
        }
        self.take_in(io, Port::LEFT);
        self.take_in(io, Port::RIGHT);
        self.take_in(io, Port::UP);
        self.take_in(io, Port::DOWN);
    }

    /// Drops the value that was on offer, once a neighbour has read it.
    fn sync(&mut self, io: &mut IoBusView)
        ensures
            final(self)@ == spec_stack_sync(old(self)@, old(io).fabric(), old(io).node),
            final(io).fabric() == old(io).fabric(),
    {
        if !io.is_blocked() {
            if let Some(index) = self.read_index {
                let _ = self.stack.remove(index);
                self.read_index = None;
            }
        }
    }

    /// Always stalled: a stack node runs no program.
    fn is_stalled(&self) -> (r: bool)
        ensures
            r,
    {
        true
    }
}

} // verus!
