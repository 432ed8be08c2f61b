use tis_100::io::IoBus;
use tis_100::image::Color;
use tis_100::node::{
    Node, StackMemoryNode, TestImageNode, TestInputNode, TestNode, TestOutputNode, TestState,
};
use tis_100::types::Port::{DOWN, LEFT, RIGHT, UP};

/// A bus on which node 1 has a neighbour on every side: 10 above, 11 below,
/// 12 to the left and 13 to the right, each wired both ways.
fn cross() -> IoBus {
    let mut bus = IoBus::new();
    bus.connect_full(10, 1, DOWN);
    bus.connect_full(1, 11, DOWN);
    bus.connect_full(12, 1, RIGHT);
    bus.connect_full(1, 13, RIGHT);
    bus
}

fn cycle(node: &mut dyn Node, bus: &mut IoBus) {
    {
        let mut view = bus.view(1);
        node.step(&mut view);
        node.sync(&mut view);
    }
    bus.commit();
}

#[test]
fn stack_takes_in_what_is_written_to_it() {
    let mut bus = cross();
    let mut stack = StackMemoryNode::new();
    bus.view(13).write(LEFT, 2);
    bus.view(12).write(RIGHT, 1);
    bus.view(11).write(UP, 4);
    bus.view(10).write(DOWN, 3);
    bus.commit();
    cycle(&mut stack, &mut bus);
    // Left, right, up, down.
    assert_eq!(stack.values().clone(), vec![1, 2, 3, 4]);
    assert!(stack.is_stalled());
}

#[test]
fn stack_offers_its_top_until_it_is_read() {
    let mut bus = cross();
    let mut stack = StackMemoryNode::new();
    bus.view(10).write(DOWN, 5);
    bus.commit();
    cycle(&mut stack, &mut bus);
    bus.view(10).write(DOWN, 6);
    bus.commit();
    cycle(&mut stack, &mut bus);
    assert_eq!(stack.values().clone(), vec![5, 6]);
    // In the next step the top is 6, and it is on offer on every side.
    cycle(&mut stack, &mut bus);
    assert_eq!(stack.values().clone(), vec![5, 6]);
    assert_eq!(bus.view(13).read(LEFT), Some(6));
    assert_eq!(bus.view(12).read(RIGHT), None);
    {
        let mut view = bus.view(1);
        stack.sync(&mut view);
    }
    assert_eq!(stack.values().clone(), vec![5]);
}

#[test]
fn empty_stack_offers_nothing() {
    let mut bus = cross();
    let mut stack = StackMemoryNode::new();
    cycle(&mut stack, &mut bus);
    cycle(&mut stack, &mut bus);
    assert!(stack.values().is_empty());
    assert!(!bus.view(1).is_blocked());
    assert_eq!(bus.view(11).read(UP), None);
}

#[test]
fn input_node_feeds_one_value_at_a_time() {
    let mut bus = IoBus::new();
    bus.connect_half(1, 2, DOWN);
    let mut input = TestInputNode::with_data(&vec![7, 8]);
    let mut seen = vec![];
    for _ in 0..6 {
        {
            let mut view = bus.view(1);
            input.step(&mut view);
        }
        seen.push(bus.view(2).read(UP));
        {
            let mut view = bus.view(1);
            input.sync(&mut view);
        }
        bus.commit();
    }
    assert_eq!(seen, vec![None, Some(7), None, Some(8), None, None]);
    assert!(input.is_stalled());
}

#[test]
fn input_node_waits_for_its_reader() {
    let mut bus = IoBus::new();
    bus.connect_half(1, 2, DOWN);
    let mut input = TestInputNode::with_data(&vec![7, 8]);
    for _ in 0..5 {
        cycle(&mut input, &mut bus);
    }
    assert_eq!(bus.view(2).read(UP), Some(7));
    assert_eq!(bus.view(2).read(UP), None);
}

#[test]
fn output_node_passes_on_matching_values() {
    let mut bus = IoBus::new();
    bus.connect_half(0, 1, DOWN);
    let mut output = TestOutputNode::with_data(&vec![1, 2]);
    assert_eq!(output.state(), TestState::Testing);
    for value in [1, 2] {
        bus.view(0).write(DOWN, value);
        bus.commit();
        cycle(&mut output, &mut bus);
    }
    assert_eq!(output.results().clone(), vec![(1, 1), (2, 2)]);
    assert_eq!(output.state(), TestState::Passed);
    assert!(output.is_stalled());
}

#[test]
fn output_node_fails_on_a_wrong_value() {
    let mut bus = IoBus::new();
    bus.connect_half(0, 1, DOWN);
    let mut output = TestOutputNode::with_data(&vec![1, 2]);
    bus.view(0).write(DOWN, 9);
    bus.commit();
    cycle(&mut output, &mut bus);
    assert_eq!(output.state(), TestState::Testing);
    bus.view(0).write(DOWN, 2);
    bus.commit();
    cycle(&mut output, &mut bus);
    assert_eq!(output.results().clone(), vec![(1, 9), (2, 2)]);
    assert_eq!(output.state(), TestState::Failed);
}

#[test]
fn output_node_without_expectations_has_passed() {
    let mut bus = IoBus::new();
    bus.connect_half(0, 1, DOWN);
    let mut output = TestOutputNode::with_data(&vec![]);
    assert_eq!(output.state(), TestState::Passed);
    bus.view(0).write(DOWN, 9);
    bus.commit();
    cycle(&mut output, &mut bus);
    // The value was read and dropped.
    assert!(!bus.view(0).is_blocked());
    assert!(output.results().is_empty());
    assert_eq!(output.state(), TestState::Passed);
}

#[test]
fn image_node_passes_when_the_picture_is_drawn() {
    let mut bus = IoBus::new();
    bus.connect_half(0, 1, DOWN);
    let mut image = TestImageNode::with_data(&vec![0, 0, 0, 3, 4, 0], 3, 2);
    assert_eq!(image.state(), TestState::Testing);
    for value in [1, 0, 3, 4] {
        bus.view(0).write(DOWN, value);
        bus.commit();
        cycle(&mut image, &mut bus);
    }
    assert_eq!(
        image.image().data().clone(),
        vec![Color::Black, Color::Black, Color::Black, Color::White, Color::Red, Color::Black]
    );
    assert_eq!(image.state(), TestState::Passed);
    // One more pixel, and the picture is no longer the expected one.
    bus.view(0).write(DOWN, 1);
    bus.commit();
    cycle(&mut image, &mut bus);
    assert_eq!(image.state(), TestState::Testing);
    assert!(image.is_stalled());
}
