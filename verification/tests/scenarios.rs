use tis_100::io::IoBus;
use tis_100::machine::{AnyNode, Sandbox, Tis100};
use tis_100::node::{BasicExecutionNode, Mode, Node};
use tis_100::parse::parse_program;
use tis_100::save::parse_save;
use tis_100::types::Port::{DOWN, UP};

fn acc_of(cpu: &Tis100, place: usize) -> isize {
    match cpu.node(place) {
        Some(AnyNode::Exec(node)) => node.acc(),
        _ => panic!("no execution node at {}", place),
    }
}

fn mode_of(cpu: &Tis100, place: usize) -> Mode {
    match cpu.node(place) {
        Some(AnyNode::Exec(node)) => *node.get_mode(),
        _ => panic!("no execution node at {}", place),
    }
}

#[test]
fn passthrough() {
    let save = parse_save("@1\nMOV UP DOWN\n@5\nMOV UP DOWN\n@9\nMOV UP RIGHT\n@10\nMOV LEFT DOWN\n").unwrap();
    let mut sandbox = Sandbox::from_save(&save);
    sandbox.write_console(42);
    let mut got = None;
    let mut cycles = 0;
    while got.is_none() && cycles < 8 {
        sandbox.step();
        cycles += 1;
        got = sandbox.read_console();
    }
    assert_eq!(got, Some(42));
    assert!(cycles <= 8);
    // The value came once.
    sandbox.step();
    assert_eq!(sandbox.read_console(), None);
}

#[test]
fn accumulate() {
    let mut bus = IoBus::new();
    bus.connect_half(0, 1, DOWN).connect_half(1, 2, DOWN);
    let mut node =
        BasicExecutionNode::with_program(parse_program("MOV UP ACC\nADD 1\nMOV ACC DOWN").unwrap());
    bus.view(0).write(DOWN, 1);
    bus.commit();
    for _ in 0..3 {
        {
            let mut view = bus.view(1);
            node.step(&mut view);
            node.sync(&mut view);
        }
        bus.commit();
    }
    assert_eq!(bus.view(2).read(UP), Some(2));
}

#[test]
fn clamp() {
    let mut bus = IoBus::new();
    bus.connect_half(0, 1, DOWN).connect_half(1, 2, DOWN);
    let mut node = BasicExecutionNode::with_program(parse_program("MOV 1000 DOWN").unwrap());
    {
        let mut view = bus.view(1);
        node.step(&mut view);
        node.sync(&mut view);
    }
    bus.commit();
    assert_eq!(bus.view(2).read(UP), Some(999));
}

#[test]
fn broadcast_collapse() {
    // Node 5 offers 7 on every side; each neighbour reads towards node 5.
    let save = parse_save(
        "@5\nMOV 7 ANY\n@1\nMOV DOWN ACC\n@4\nMOV RIGHT ACC\n@6\nMOV LEFT ACC\n@9\nMOV UP ACC\n",
    )
    .unwrap();
    let mut sandbox = Sandbox::from_save(&save);
    for _ in 0..2 {
        sandbox.step();
    }
    let accs: Vec<isize> = [1, 4, 6, 9].iter().map(|&n| acc_of(sandbox.cpu(), n)).collect();
    assert_eq!(accs.iter().filter(|&&a| a == 7).count(), 1, "{:?}", accs);
    assert_eq!(accs.iter().filter(|&&a| a == 0).count(), 3, "{:?}", accs);
    // The nodes step in the order of their places: the first one has it,
    // the others wait.
    assert_eq!(accs, vec![7, 0, 0, 0]);
    for place in [4, 6, 9] {
        assert_eq!(mode_of(sandbox.cpu(), place), Mode::Read);
    }
}

#[test]
fn deadlock() {
    let save = parse_save("@0\nMOV RIGHT ACC\n@1\nMOV LEFT ACC\n").unwrap();
    let mut sandbox = Sandbox::from_save(&save);
    let mut cycles = 0;
    while !sandbox.cpu().is_deadlocked() && cycles < 3 {
        sandbox.step();
        cycles += 1;
    }
    assert!(sandbox.cpu().is_deadlocked());
    assert!(cycles <= 3);
    assert_eq!(mode_of(sandbox.cpu(), 0), Mode::Read);
    assert_eq!(mode_of(sandbox.cpu(), 1), Mode::Read);
}

#[test]
fn loop_via_jro() {
    let save = parse_save("@1\nMOV 3 ACC\nJRO -1\n").unwrap();
    let mut sandbox = Sandbox::from_save(&save);
    sandbox.step();
    let pc = |s: &Sandbox| match s.cpu().node(1) {
        Some(AnyNode::Exec(node)) => node.pc(),
        _ => panic!("no execution node"),
    };
    assert_eq!(acc_of(sandbox.cpu(), 1), 3);
    assert_eq!(pc(&sandbox), 1);
    sandbox.step();
    // The jump lands on 1 - 1 = 0, inside the program; the node then moves
    // on to the next instruction.
    assert_eq!(pc(&sandbox), 1);
    assert_eq!(acc_of(sandbox.cpu(), 1), 3);
    assert_eq!(mode_of(sandbox.cpu(), 1), Mode::Run);

    // With the accumulator as the offset the jump goes past the end, lands
    // on the last instruction, and the node moves on to the first.
    let save = parse_save("@1\nMOV 3 ACC\nJRO ACC\n").unwrap();
    let mut sandbox = Sandbox::from_save(&save);
    sandbox.step();
    sandbox.step();
    assert_eq!(pc(&sandbox), 0);
}
