use tis_100::io::IoBus;
use tis_100::node::exec::clamp_value;
use tis_100::node::{BasicExecutionNode, CorruptedNode, DamagedExecutionNode, Mode, Node};
use tis_100::parse::parse_program;
use tis_100::types::Instruction::{Add, Jez, Jgz, Jlz, Jmp, Jnz, Jro, Mov, Neg, Nop, Sav, Sub, Swp};
use tis_100::types::IoRegister::{ANY, DIR, LAST};
use tis_100::types::Port::{DOWN, LEFT, RIGHT, UP};
use tis_100::types::Register::{ACC, IO, NIL};
use tis_100::types::Source::{REG, VAL};
use tis_100::types::{Instruction, Port};

#[test]
fn node_test_clamp_value() {
    assert_eq!(clamp_value(1000), 999);
    assert_eq!(clamp_value(999), 999);
    assert_eq!(clamp_value(998), 998);

    assert_eq!(clamp_value(-1000), -999);
    assert_eq!(clamp_value(-999), -999);
    assert_eq!(clamp_value(-998), -998);
}

#[test]
fn exec_test_clamp_value() {
    assert_eq!(clamp_value(1000), 999);
    assert_eq!(clamp_value(999), 999);
    assert_eq!(clamp_value(998), 998);

    assert_eq!(clamp_value(-1000), -999);
    assert_eq!(clamp_value(-999), -999);
    assert_eq!(clamp_value(-998), -998);
}

#[test]
fn clamp_value_at_the_limits_of_the_machine() {
    assert_eq!(clamp_value(isize::MAX), 999);
    assert_eq!(clamp_value(isize::MIN), -999);
    assert_eq!(clamp_value(0), 0);
}

/// A bus on which node 1 has a neighbour on every side: 10 above, 11 below,
/// 12 to the left and 13 to the right, each wired both ways.
fn cross() -> IoBus {
    let mut bus = IoBus::new();
    bus.connect_full(10, 1, DOWN);
    bus.connect_full(1, 11, DOWN);
    bus.connect_full(12, 1, RIGHT);
    bus.connect_full(1, 13, RIGHT);
    bus
}

fn cycle(node: &mut BasicExecutionNode, bus: &mut IoBus) {
    {
        let mut view = bus.view(1);
        node.step(&mut view);
        node.sync(&mut view);
    }
    bus.commit();
}

fn offer(bus: &mut IoBus, from: usize, port: Port, value: isize) {
    bus.view(from).write(port, value);
    bus.commit();
}

fn node_with(program: Vec<Instruction>) -> BasicExecutionNode {
    BasicExecutionNode::with_program(program)
}

#[test]
fn new_node_is_idle_and_zeroed() {
    let node = BasicExecutionNode::new();
    assert_eq!(*node.get_mode(), Mode::Idle);
    assert_eq!(node.acc(), 0);
    assert_eq!(node.bak(), 0);
    assert_eq!(node.pc(), 0);
    assert_eq!(node.last(), None);
    assert!(node.is_stalled());
}

#[test]
fn accumulate_program_of_documentation() {
    let src = "MOV UP ACC\nADD 1\nMOV ACC DOWN\n";
    let prog = parse_program(src).unwrap();
    let mut bus = IoBus::new();
    let mut node = BasicExecutionNode::with_program(prog);

    bus.connect_half(0, 1, DOWN).connect_half(1, 2, DOWN).view(0).write(DOWN, 1);
    bus.commit();

    for _ in 0..3 {
        {
            let mut view = bus.view(1);
            node.step(&mut view);
            node.sync(&mut view);
        }

        bus.commit();
    }

    assert_eq!(bus.view(2).read(UP), Some(2));
}

#[test]
fn clamp_on_mov_to_a_port() {
    let mut bus = cross();
    let mut node = node_with(vec![Mov(VAL(1000), IO(DIR(DOWN)))]);
    cycle(&mut node, &mut bus);
    assert_eq!(bus.view(11).read(UP), Some(999));
}

#[test]
fn clamp_on_mov_to_acc() {
    let mut bus = cross();
    let mut node = node_with(vec![Mov(VAL(-5000), ACC), Nop]);
    cycle(&mut node, &mut bus);
    assert_eq!(node.acc(), -999);
}

#[test]
fn clamp_on_mov_from_a_port() {
    let mut bus = cross();
    offer(&mut bus, 10, DOWN, 123456);
    let mut node = node_with(vec![Mov(REG(IO(DIR(UP))), ACC), Nop]);
    cycle(&mut node, &mut bus);
    assert_eq!(node.acc(), 999);
}

#[test]
fn add_does_not_clamp() {
    let mut bus = cross();
    let mut node = node_with(vec![Add(VAL(999)), Add(VAL(999))]);
    cycle(&mut node, &mut bus);
    assert_eq!(node.acc(), 999);
    cycle(&mut node, &mut bus);
    assert_eq!(node.acc(), 1998);
}

#[test]
fn sub_and_neg() {
    let mut bus = cross();
    let mut node = node_with(vec![Sub(VAL(999)), Sub(VAL(2)), Neg]);
    cycle(&mut node, &mut bus);
    cycle(&mut node, &mut bus);
    assert_eq!(node.acc(), -1001);
    cycle(&mut node, &mut bus);
    assert_eq!(node.acc(), 1001);
}

#[test]
fn arithmetic_stops_at_the_limits_of_the_machine() {
    let mut bus = cross();
    let mut node = node_with(vec![
        Add(VAL(isize::MAX)),
        Add(VAL(1)),
        Sub(VAL(isize::MAX)),
        Sub(VAL(isize::MAX)),
        Sub(VAL(isize::MAX)),
        Neg,
        Neg,
    ]);
    cycle(&mut node, &mut bus);
    assert_eq!(node.acc(), isize::MAX);
    cycle(&mut node, &mut bus);
    assert_eq!(node.acc(), isize::MAX);
    cycle(&mut node, &mut bus);
    assert_eq!(node.acc(), 0);
    cycle(&mut node, &mut bus);
    cycle(&mut node, &mut bus);
    assert_eq!(node.acc(), isize::MIN);
    cycle(&mut node, &mut bus);
    assert_eq!(node.acc(), isize::MAX);
    cycle(&mut node, &mut bus);
    assert_eq!(node.acc(), -isize::MAX);
}

#[test]
fn swp_and_sav() {
    let mut bus = cross();
    let mut node = node_with(vec![Add(VAL(3)), Sav, Add(VAL(4)), Swp]);
    for _ in 0..3 {
        cycle(&mut node, &mut bus);
    }
    assert_eq!((node.acc(), node.bak()), (7, 3));
    cycle(&mut node, &mut bus);
    assert_eq!((node.acc(), node.bak()), (3, 7));
    assert_eq!(node.pc(), 0);
}

#[test]
fn mov_nil_nil_only_passes_the_turn() {
    let mut bus = cross();
    let mut node = node_with(vec![Add(VAL(4)), Sav, Mov(REG(NIL), NIL), Nop]);
    cycle(&mut node, &mut bus);
    cycle(&mut node, &mut bus);
    assert_eq!(node.pc(), 2);
    cycle(&mut node, &mut bus);
    assert_eq!(node.pc(), 3);
    assert_eq!((node.acc(), node.bak()), (4, 4));
    assert_eq!(*node.get_mode(), Mode::Run);
    assert!(!bus.view(1).is_blocked());
}

#[test]
fn nil_reads_as_zero() {
    let mut bus = cross();
    let mut node = node_with(vec![Add(VAL(9)), Mov(REG(NIL), ACC)]);
    cycle(&mut node, &mut bus);
    cycle(&mut node, &mut bus);
    assert_eq!(node.acc(), 0);
}

#[test]
fn empty_program_stays_idle() {
    let mut bus = cross();
    let mut node = BasicExecutionNode::new();
    for _ in 0..4 {
        cycle(&mut node, &mut bus);
        assert_eq!(*node.get_mode(), Mode::Idle);
        assert_eq!(node.pc(), 0);
        assert!(node.is_stalled());
    }
}

#[test]
fn stalled_unless_running() {
    let mut bus = cross();
    let mut node = node_with(vec![Nop, Mov(REG(IO(DIR(UP))), ACC), Mov(VAL(1), IO(DIR(DOWN)))]);
    assert!(node.is_stalled());
    cycle(&mut node, &mut bus);
    assert_eq!(*node.get_mode(), Mode::Run);
    assert!(!node.is_stalled());
    cycle(&mut node, &mut bus);
    assert_eq!(*node.get_mode(), Mode::Read);
    assert!(node.is_stalled());
    assert_eq!(node.pc(), 1);
    offer(&mut bus, 10, DOWN, 5);
    cycle(&mut node, &mut bus);
    assert_eq!(*node.get_mode(), Mode::Run);
    assert_eq!(node.acc(), 5);
    cycle(&mut node, &mut bus);
    assert_eq!(*node.get_mode(), Mode::Wrte);
    assert!(node.is_stalled());
    assert_eq!(node.pc(), 2);
    cycle(&mut node, &mut bus);
    assert_eq!(*node.get_mode(), Mode::Wrte);
    assert_eq!(bus.view(11).read(UP), Some(1));
    cycle(&mut node, &mut bus);
    assert_eq!(*node.get_mode(), Mode::Run);
    assert_eq!(node.pc(), 0);
}

#[test]
fn pc_wraps_after_the_last_instruction() {
    let mut bus = cross();
    let mut node = node_with(vec![Nop, Nop, Nop]);
    let mut seen = vec![];
    for _ in 0..7 {
        cycle(&mut node, &mut bus);
        seen.push(node.pc());
    }
    assert_eq!(seen, vec![1, 2, 0, 1, 2, 0, 1]);
}

#[test]
fn jump_targets_are_brought_into_the_program() {
    let mut bus = cross();
    for (target, after) in [(-5, 1), (0, 1), (1, 2), (2, 0), (3, 0), (isize::MAX, 0), (isize::MIN, 1)] {
        let mut node = node_with(vec![Jmp(target), Nop, Nop]);
        cycle(&mut node, &mut bus);
        assert_eq!(node.pc(), after, "target {}", target);
        assert!(node.pc() < 3);
    }
}

#[test]
fn same_jump_twice_is_the_same_as_once() {
    let mut bus = cross();
    let mut node = node_with(vec![Jmp(0), Jmp(0), Nop]);
    cycle(&mut node, &mut bus);
    let once = (node.pc(), node.acc(), node.bak());
    cycle(&mut node, &mut bus);
    assert_eq!((node.pc(), node.acc(), node.bak()), once);
    assert_eq!(*node.get_mode(), Mode::Run);
}

#[test]
fn conditional_jumps_look_at_acc() {
    let mut bus = cross();
    // After the jump the node moves on by one: 4 where the jump to 3 is
    // taken, 2 where it is not.
    for (jump, acc, after) in [
        (Jez(3), -1, 2),
        (Jez(3), 0, 4),
        (Jez(3), 1, 2),
        (Jnz(3), -1, 4),
        (Jnz(3), 0, 2),
        (Jnz(3), 1, 4),
        (Jgz(3), -1, 2),
        (Jgz(3), 0, 2),
        (Jgz(3), 1, 4),
        (Jlz(3), -1, 4),
        (Jlz(3), 0, 2),
        (Jlz(3), 1, 2),
    ] {
        let mut node = node_with(vec![Add(VAL(acc)), jump, Nop, Nop, Nop]);
        cycle(&mut node, &mut bus);
        cycle(&mut node, &mut bus);
        assert_eq!(node.pc(), after, "{:?} with {}", jump, acc);
        assert_eq!(node.acc(), acc);
    }
}

#[test]
fn jump_to_a_label_runs_the_instruction_after_it() {
    let mut bus = cross();
    let program = parse_program("A: JEZ C\nNOP\nNOP\nC: ADD 1\nJEZ A\nJNZ E\nNOP\nE: NOP\nNOP").unwrap();
    let mut node = node_with(program);
    let mut seen = vec![];
    for _ in 0..8 {
        cycle(&mut node, &mut bus);
        seen.push(node.pc());
    }
    assert_eq!(seen, vec![4, 1, 2, 3, 4, 5, 8, 0]);
    assert_eq!(node.acc(), 1);
}

#[test]
fn jro_with_a_number() {
    let mut bus = cross();
    let mut node = node_with(vec![Mov(VAL(3), ACC), Jro(VAL(-1))]);
    cycle(&mut node, &mut bus);
    assert_eq!((node.acc(), node.pc()), (3, 1));
    cycle(&mut node, &mut bus);
    // The jump lands on 1 - 1 = 0; the node then moves on to 1.
    assert_eq!(node.pc(), 1);
}

#[test]
fn jro_with_acc_stops_at_the_end_of_the_program() {
    let mut bus = cross();
    let mut node = node_with(vec![Mov(VAL(3), ACC), Jro(REG(ACC))]);
    cycle(&mut node, &mut bus);
    cycle(&mut node, &mut bus);
    // The jump lands on the last instruction, 1; the node then moves on to 0.
    assert_eq!(node.pc(), 0);
}

#[test]
fn jro_far_away_stays_inside() {
    let mut bus = cross();
    for (offset, after) in [(isize::MAX, 0), (isize::MIN, 1), (2, 0), (1, 0), (0, 2), (-1, 1), (-7, 1)] {
        let mut node = node_with(vec![Nop, Jro(VAL(offset)), Nop]);
        cycle(&mut node, &mut bus);
        cycle(&mut node, &mut bus);
        assert_eq!(node.pc(), after, "offset {}", offset);
    }
}

#[test]
fn last_reads_zero_before_any_read() {
    let mut bus = cross();
    offer(&mut bus, 10, DOWN, 55);
    let mut node = node_with(vec![Add(VAL(8)), Mov(REG(IO(LAST)), ACC), Nop]);
    cycle(&mut node, &mut bus);
    cycle(&mut node, &mut bus);
    assert_eq!(node.acc(), 0);
    assert_eq!(*node.get_mode(), Mode::Run);
    assert_eq!(node.pc(), 2);
    assert_eq!(node.last(), None);
    // The value on offer was not touched.
    assert!(bus.view(10).is_blocked());
}

#[test]
fn last_follows_the_port_that_was_read() {
    let mut bus = cross();
    offer(&mut bus, 13, LEFT, 21);
    let mut node = node_with(vec![
        Mov(REG(IO(DIR(RIGHT))), ACC),
        Mov(REG(IO(LAST)), ACC),
        Mov(VAL(6), IO(LAST)),
    ]);
    cycle(&mut node, &mut bus);
    assert_eq!(node.acc(), 21);
    assert_eq!(node.last(), Some(RIGHT));
    cycle(&mut node, &mut bus);
    assert_eq!(*node.get_mode(), Mode::Read);
    offer(&mut bus, 13, LEFT, 22);
    cycle(&mut node, &mut bus);
    assert_eq!(node.acc(), 22);
    cycle(&mut node, &mut bus);
    assert_eq!(bus.view(13).read(LEFT), Some(6));
    assert_eq!(bus.view(12).read(RIGHT), None);
}

#[test]
fn write_to_last_before_any_read_is_dropped() {
    let mut bus = cross();
    let mut node = node_with(vec![Mov(VAL(6), IO(LAST)), Nop]);
    cycle(&mut node, &mut bus);
    assert_eq!(*node.get_mode(), Mode::Run);
    assert_eq!(node.pc(), 1);
    assert!(!bus.view(1).is_blocked());
    for reader in [10, 11, 12, 13] {
        for port in [UP, DOWN, LEFT, RIGHT] {
            assert_eq!(bus.view(reader).read(port), None);
        }
    }
}

#[test]
fn any_reads_left_first_then_right_up_down() {
    for (writers, expected, port) in [
        (vec![(12, RIGHT, 1), (13, LEFT, 2), (10, DOWN, 3), (11, UP, 4)], 1, LEFT),
        (vec![(13, LEFT, 2), (10, DOWN, 3), (11, UP, 4)], 2, RIGHT),
        (vec![(10, DOWN, 3), (11, UP, 4)], 3, UP),
        (vec![(11, UP, 4)], 4, DOWN),
    ] {
        let mut bus = cross();
        for (from, dir, value) in writers {
            bus.view(from).write(dir, value);
        }
        bus.commit();
        let mut node = node_with(vec![Mov(REG(IO(ANY)), ACC), Nop]);
        cycle(&mut node, &mut bus);
        assert_eq!(node.acc(), expected);
        assert_eq!(node.last(), Some(port));
    }
}

#[test]
fn any_without_a_value_waits() {
    let mut bus = cross();
    let mut node = node_with(vec![Mov(REG(IO(ANY)), ACC), Nop]);
    cycle(&mut node, &mut bus);
    assert_eq!(*node.get_mode(), Mode::Read);
    assert_eq!(node.pc(), 0);
    assert_eq!(node.last(), None);
}

#[test]
fn write_to_any_offers_on_every_side_and_one_reader_takes_it() {
    let mut bus = cross();
    let mut node = node_with(vec![Mov(VAL(7), IO(ANY)), Nop]);
    cycle(&mut node, &mut bus);
    assert_eq!(*node.get_mode(), Mode::Wrte);
    assert_eq!(bus.view(12).read(RIGHT), Some(7));
    assert_eq!(bus.view(10).read(DOWN), None);
    assert_eq!(bus.view(11).read(UP), None);
    assert_eq!(bus.view(13).read(LEFT), None);
    cycle(&mut node, &mut bus);
    assert_eq!(*node.get_mode(), Mode::Run);
    assert_eq!(node.pc(), 1);
}

#[test]
fn set_program_keeps_the_registers() {
    let mut bus = cross();
    let mut node = node_with(vec![Add(VAL(2)), Sav]);
    cycle(&mut node, &mut bus);
    node.set_program(vec![Nop, Add(VAL(10)), Nop]);
    assert_eq!((node.acc(), node.pc()), (2, 1));
    cycle(&mut node, &mut bus);
    assert_eq!((node.acc(), node.pc()), (12, 2));
}

#[test]
fn pc_off_the_program_does_nothing() {
    let mut bus = cross();
    let mut node = node_with(vec![Nop, Nop, Nop]);
    cycle(&mut node, &mut bus);
    cycle(&mut node, &mut bus);
    node.set_program(vec![Add(VAL(1))]);
    assert_eq!(node.pc(), 2);
    cycle(&mut node, &mut bus);
    assert_eq!((node.acc(), node.pc()), (0, 2));
}

#[test]
fn damaged_node_does_nothing() {
    let mut bus = cross();
    offer(&mut bus, 10, DOWN, 5);
    let mut node = DamagedExecutionNode;
    {
        let mut view = bus.view(1);
        node.step(&mut view);
        node.sync(&mut view);
    }
    bus.commit();
    assert!(node.is_stalled());
    assert!(bus.view(10).is_blocked());
    assert!(!bus.view(1).is_blocked());
}

#[test]
fn corrupted_node_is_a_damaged_node() {
    let node: CorruptedNode = DamagedExecutionNode;
    assert!(node.is_stalled());
}
