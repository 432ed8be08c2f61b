//! What stays true of the bus whatever the nodes do: the bus stays well
//! formed, and a node that waits for a reader always has a value on offer.

use crate::io::{
    lemma_commit_shows_blocks_backed, lemma_commit_wf, lemma_connect_half_wf, lemma_empty_wf,
    lemma_read_keeps_blocks_backed, lemma_read_wf, lemma_write_keeps_blocks_backed,
    lemma_write_wf, Fabric, NodeId,
};
use crate::machine::{
    wired, Machine, NodeModel, PuzzleModel, INPUT_0, INPUT_1, INPUT_2, INPUT_3, NUM_PLACES,
    OUTPUT_0, OUTPUT_1, OUTPUT_2, OUTPUT_3,
};
use crate::node::exec::{spec_clamp_value, spec_read, spec_step, spec_write, ExecState, Mode};
use crate::node::stack::{offer_all, spec_stack_step, take_in, StackScene, StackState};
use crate::types::{Instruction, IoRegister, Port, Register, Source};
use vstd::prelude::*;

verus! {

/// A bus in good order: well formed, and with a value on offer for every
/// node that waits for a reader.
pub open spec fn sound(f: Fabric) -> bool {
    f.wf() && f.blocks_backed()
}

/// A write leaves the bus in good order.
pub proof fn lemma_write_sound(f: Fabric, id: NodeId, port: Port, value: isize)
    requires
        sound(f),
    ensures
        sound(f.write(id, port, value)),
{
    lemma_write_wf(f, id, port, value);
    lemma_write_keeps_blocks_backed(f, id, port, value);
}

/// A read leaves the bus in good order.
pub proof fn lemma_read_sound(f: Fabric, id: NodeId, port: Port)
    requires
        sound(f),
    ensures
        sound(f.read(id, port)),
{
    lemma_read_wf(f, id, port);
    lemma_read_keeps_blocks_backed(f, id, port);
}

/// A commit leaves the bus in good order.
pub proof fn lemma_commit_sound(f: Fabric)
    requires
        sound(f),
    ensures
        sound(f.commit()),
{
    lemma_commit_wf(f);
    lemma_commit_shows_blocks_backed(f);
}

/// Reading an operand leaves the bus in good order.
pub proof fn lemma_operand_read_sound(s: ExecState, f: Fabric, id: NodeId, src: Source)
    requires
        sound(f),
    ensures
        sound(spec_read(s, f, id, src).1.bus),
{
    lemma_read_sound(f, id, Port::LEFT);
    lemma_read_sound(f, id, Port::RIGHT);
    lemma_read_sound(f, id, Port::UP);
    lemma_read_sound(f, id, Port::DOWN);
}

/// Writing to a register leaves the bus in good order.
pub proof fn lemma_register_write_sound(
    s: ExecState,
    f: Fabric,
    id: NodeId,
    dst: Register,
    value: isize,
)
    requires
        sound(f),
    ensures
        sound(spec_write(s, f, id, dst, value).bus),
{
    match dst {
        Register::IO(IoRegister::DIR(port)) => {
            lemma_write_sound(f, id, port, value);
        },
        Register::IO(IoRegister::ANY) => {
            let up = f.write(id, Port::UP, value);
            lemma_write_sound(f, id, Port::UP, value);
            let down = up.write(id, Port::DOWN, value);
            lemma_write_sound(up, id, Port::DOWN, value);
            let left = down.write(id, Port::LEFT, value);
            lemma_write_sound(down, id, Port::LEFT, value);
            lemma_write_sound(left, id, Port::RIGHT, value);
        },
        Register::IO(IoRegister::LAST) => {
            if let Some(port) = s.last {
                lemma_write_sound(f, id, port, value);
            }
        },
        _ => {},
    }
}

/// A step of an execution node leaves the bus in good order.
pub proof fn lemma_exec_step_sound(s: ExecState, f: Fabric, id: NodeId)
    requires
        sound(f),
    ensures
        sound(spec_step(s, f, id).bus),
{
    if s.mode != Mode::Wrte && s.pc < s.program.len() {
        let start = ExecState { mode: Mode::Run, ..s };
        match s.program[s.pc as int] {
            Instruction::Mov(src, dst) => {
                lemma_operand_read_sound(start, f, id, src);
                let (val, after) = spec_read(start, f, id, src);
                if let Some(v) = val {
                    lemma_register_write_sound(
                        after.node,
                        after.bus,
                        id,
                        dst,
                        spec_clamp_value(v),
                    );
                }
            },
            Instruction::Add(src) => {
                lemma_operand_read_sound(start, f, id, src);
            },
            Instruction::Sub(src) => {
                lemma_operand_read_sound(start, f, id, src);
            },
            Instruction::Jro(src) => {
                lemma_operand_read_sound(start, f, id, src);
            },
            _ => {},
        }
    }
}

/// A stack node that takes in a value leaves the bus in good order.
pub proof fn lemma_take_in_sound(sc: StackScene, id: NodeId, port: Port)
    requires
        sound(sc.bus),
    ensures
        sound(take_in(sc, id, port).bus),
{
    lemma_read_sound(sc.bus, id, port);
}

/// A step of a stack node leaves the bus in good order.
pub proof fn lemma_stack_step_sound(s: StackState, f: Fabric, id: NodeId)
    requires
        sound(f),
    ensures
        sound(spec_stack_step(s, f, id).bus),
{
    let offered = if s.stack.len() > 0 {
        let value = s.stack.last();
        let left = f.write(id, Port::LEFT, value);
        lemma_write_sound(f, id, Port::LEFT, value);
        let right = left.write(id, Port::RIGHT, value);
        lemma_write_sound(left, id, Port::RIGHT, value);
        let up = right.write(id, Port::UP, value);
        lemma_write_sound(right, id, Port::UP, value);
        lemma_write_sound(up, id, Port::DOWN, value);
        StackScene {
            node: StackState { read_index: Some((s.stack.len() - 1) as usize), ..s },
            bus: offer_all(f, id, value),
        }
    } else {
        StackScene { node: s, bus: f }
    };
    let a = take_in(offered, id, Port::LEFT);
    lemma_take_in_sound(offered, id, Port::LEFT);
    let b = take_in(a, id, Port::RIGHT);
    lemma_take_in_sound(a, id, Port::RIGHT);
    let c = take_in(b, id, Port::UP);
    lemma_take_in_sound(b, id, Port::UP);
    lemma_take_in_sound(c, id, Port::DOWN);
}

/// A step of any node leaves the bus in good order.
pub proof fn lemma_node_step_sound(node: NodeModel, f: Fabric, id: NodeId)
    requires
        sound(f),
    ensures
        sound(node.step(f, id).bus),
{
    match node {
        NodeModel::Exec(s) => {
            lemma_exec_step_sound(s, f, id);
        },
        NodeModel::Stack(s) => {
            lemma_stack_step_sound(s, f, id);
        },
        NodeModel::Damaged => {},
        NodeModel::Input(s) => {
            if s.data.len() > 0 {
                lemma_write_sound(f, id, Port::DOWN, s.data[0]);
            }
        },
        NodeModel::Output(s) => {
            lemma_read_sound(f, id, Port::UP);
        },
        NodeModel::Image(s) => {
            lemma_read_sound(f, id, Port::UP);
        },
    }
}

/// The steps of the nodes at a range of places leave the bus in good order.
pub proof fn lemma_step_range_sound(m: Machine, from: usize, to: usize)
    requires
        sound(m.bus),
    ensures
        sound(m.step_range(from, to).bus),
    decreases to - from,
{
    if from < to {
        if m.nodes.contains_key(from) {
            lemma_node_step_sound(m.nodes[from], m.bus, from);
        }
        lemma_step_range_sound(m.step_node(from), (from + 1) as usize, to);
    }
}

/// Finishing the cycle does not touch the bus.
pub proof fn lemma_sync_range_keeps_bus(m: Machine, from: usize, to: usize)
    ensures
        m.sync_range(from, to).bus == m.bus,
    decreases to - from,
{
    if from < to {
        lemma_sync_range_keeps_bus(m.sync_node(from), (from + 1) as usize, to);
    }
}

/// In every cycle of a machine the bus stays in good order, and at the end
/// of the cycle every node that waits for a reader has a committed value on
/// one of the edges it writes.
pub proof fn lemma_cycle_sound(m: Machine)
    requires
        sound(m.bus),
    ensures
        sound(m.step().bus),
        sound(m.step().sync().bus),
        sound(m.cycle().bus),
        forall|n: NodeId| #[trigger]
            m.cycle().bus.is_blocked(n) ==> exists|e: usize|
                m.cycle().bus.is_outbound(n, e) && m.cycle().bus.committed.contains_key(e),
{
    let inputs = m.step_range(crate::machine::NUM_NODES, NUM_PLACES);
    lemma_step_range_sound(m, crate::machine::NUM_NODES, NUM_PLACES);
    lemma_step_range_sound(inputs, 0, crate::machine::NUM_NODES);
    let stepped = m.step();
    lemma_sync_range_keeps_bus(stepped, 0, NUM_PLACES);
    lemma_commit_sound(stepped.sync().bus);
    lemma_commit_shows_blocks_backed(stepped.sync().bus);
}

/// In every cycle of a puzzle the bus stays in good order.
pub proof fn lemma_puzzle_step_sound(p: PuzzleModel)
    requires
        sound(p.machine.bus),
    ensures
        sound(p.step().machine.bus),
{
    lemma_cycle_sound(p.machine);
    let stepped = PuzzleModel { machine: p.machine.step(), ..p };
    let t0 = stepped.step_test(0);
    if stepped.tests.contains_key(0) {
        lemma_node_step_sound(stepped.tests[0], stepped.machine.bus, OUTPUT_0);
    }
    let t1 = t0.step_test(1);
    if t0.tests.contains_key(1) {
        lemma_node_step_sound(t0.tests[1], t0.machine.bus, OUTPUT_1);
    }
    let t2 = t1.step_test(2);
    if t1.tests.contains_key(2) {
        lemma_node_step_sound(t1.tests[2], t1.machine.bus, OUTPUT_2);
    }
    let t3 = t2.step_test(3);
    if t2.tests.contains_key(3) {
        lemma_node_step_sound(t2.tests[3], t2.machine.bus, OUTPUT_3);
    }
    let synced = t3.sync_test(0).sync_test(1).sync_test(2).sync_test(3);
    assert(synced.machine.bus == t3.machine.bus);
    lemma_sync_range_keeps_bus(synced.machine, 0, NUM_PLACES);
    lemma_commit_sound(synced.machine.sync().bus);
}

/// A bus on which nothing has been written yet, with `edges` edges.
pub open spec fn untouched(f: Fabric, edges: int) -> bool {
    &&& f.wf()
    &&& f.next_edge == edges
    &&& f.committed == Map::<usize, isize>::empty()
    &&& f.pending == Map::<usize, isize>::empty()
    &&& f.blocks == Map::<usize, isize>::empty()
}

/// A new edge on a bus on which nothing has been written yet.
proof fn lemma_connect_half_untouched(f: Fabric, edges: int, from: NodeId, to: NodeId, port: Port)
    requires
        untouched(f, edges),
        edges < 100,
        from < NUM_PLACES,
        to < NUM_PLACES,
    ensures
        untouched(f.connect_half(from, to, port), edges + 1),
{
    lemma_connect_half_wf(f, from, to, port);
}

/// Two new edges, there and back, on a bus on which nothing has been
/// written yet.
proof fn lemma_connect_full_untouched(f: Fabric, edges: int, from: NodeId, to: NodeId, port: Port)
    requires
        untouched(f, edges),
        edges < 99,
        from < NUM_PLACES,
        to < NUM_PLACES,
    ensures
        untouched(f.connect_full(from, to, port), edges + 2),
{
    lemma_connect_half_untouched(f, edges, from, to, port);
    lemma_connect_half_untouched(
        f.connect_half(from, to, port),
        edges + 1,
        to,
        from,
        crate::types::spec_opposite_port(port),
    );
}

/// The bus of a new machine is in good order: it is well formed and nothing
/// has been written on it.
pub proof fn lemma_wired_sound()
    ensures
        sound(wired()),
        untouched(wired(), 42),
{
    lemma_empty_wf();
    let f0 = Fabric::empty();
    let f1 = f0.connect_full(0, 1, Port::RIGHT);
    lemma_connect_full_untouched(f0, 0, 0, 1, Port::RIGHT);
    let f2 = f1.connect_full(1, 2, Port::RIGHT);
    lemma_connect_full_untouched(f1, 2, 1, 2, Port::RIGHT);
    let f3 = f2.connect_full(2, 3, Port::RIGHT);
    lemma_connect_full_untouched(f2, 4, 2, 3, Port::RIGHT);
    let f4 = f3.connect_full(4, 5, Port::RIGHT);
    lemma_connect_full_untouched(f3, 6, 4, 5, Port::RIGHT);
    let f5 = f4.connect_full(5, 6, Port::RIGHT);
    lemma_connect_full_untouched(f4, 8, 5, 6, Port::RIGHT);
    let f6 = f5.connect_full(6, 7, Port::RIGHT);
    lemma_connect_full_untouched(f5, 10, 6, 7, Port::RIGHT);
    let f7 = f6.connect_full(8, 9, Port::RIGHT);
    lemma_connect_full_untouched(f6, 12, 8, 9, Port::RIGHT);
    let f8 = f7.connect_full(9, 10, Port::RIGHT);
    lemma_connect_full_untouched(f7, 14, 9, 10, Port::RIGHT);
    let f9 = f8.connect_full(10, 11, Port::RIGHT);
    lemma_connect_full_untouched(f8, 16, 10, 11, Port::RIGHT);
    let g1 = f9.connect_full(0, 4, Port::DOWN);
    lemma_connect_full_untouched(f9, 18, 0, 4, Port::DOWN);
    let g2 = g1.connect_full(1, 5, Port::DOWN);
    lemma_connect_full_untouched(g1, 20, 1, 5, Port::DOWN);
    let g3 = g2.connect_full(2, 6, Port::DOWN);
    lemma_connect_full_untouched(g2, 22, 2, 6, Port::DOWN);
    let g4 = g3.connect_full(3, 7, Port::DOWN);
    lemma_connect_full_untouched(g3, 24, 3, 7, Port::DOWN);
    let g5 = g4.connect_full(4, 8, Port::DOWN);
    lemma_connect_full_untouched(g4, 26, 4, 8, Port::DOWN);
    let g6 = g5.connect_full(5, 9, Port::DOWN);
    lemma_connect_full_untouched(g5, 28, 5, 9, Port::DOWN);
    let g7 = g6.connect_full(6, 10, Port::DOWN);
    lemma_connect_full_untouched(g6, 30, 6, 10, Port::DOWN);
    let g8 = g7.connect_full(7, 11, Port::DOWN);
    lemma_connect_full_untouched(g7, 32, 7, 11, Port::DOWN);
    let h1 = g8.connect_half(INPUT_0, 0, Port::DOWN);
    lemma_connect_half_untouched(g8, 34, INPUT_0, 0, Port::DOWN);
    let h2 = h1.connect_half(INPUT_1, 1, Port::DOWN);
    lemma_connect_half_untouched(h1, 35, INPUT_1, 1, Port::DOWN);
    let h3 = h2.connect_half(INPUT_2, 2, Port::DOWN);
    lemma_connect_half_untouched(h2, 36, INPUT_2, 2, Port::DOWN);
    let h4 = h3.connect_half(INPUT_3, 3, Port::DOWN);
    lemma_connect_half_untouched(h3, 37, INPUT_3, 3, Port::DOWN);
    let k1 = h4.connect_half(8, OUTPUT_0, Port::DOWN);
    lemma_connect_half_untouched(h4, 38, 8, OUTPUT_0, Port::DOWN);
    let k2 = k1.connect_half(9, OUTPUT_1, Port::DOWN);
    lemma_connect_half_untouched(k1, 39, 9, OUTPUT_1, Port::DOWN);
    let k3 = k2.connect_half(10, OUTPUT_2, Port::DOWN);
    lemma_connect_half_untouched(k2, 40, 10, OUTPUT_2, Port::DOWN);
    let k4 = k3.connect_half(11, OUTPUT_3, Port::DOWN);
    lemma_connect_half_untouched(k3, 41, 11, OUTPUT_3, Port::DOWN);
    assert(k4 == wired());
}

} // verus!
