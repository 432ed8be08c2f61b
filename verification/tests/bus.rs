use tis_100::io::IoBus;
use tis_100::types::Port::{DOWN, LEFT, RIGHT, UP};

#[test]
fn connect_full_connects_both_ways() {
    let mut bus = IoBus::new();

    // 1 is right from 0, and 0 is left from 1.
    bus.connect_full(0, 1, RIGHT);
    assert!(bus.is_connected(0, 1, RIGHT));
    assert!(bus.is_connected(1, 0, LEFT));
    assert!(!bus.is_connected(0, 1, LEFT));
    assert!(!bus.is_connected(0, 2, RIGHT));
}

#[test]
fn connect_half_is_not_a_connection_both_ways() {
    let mut bus = IoBus::new();
    bus.connect_half(0, 1, RIGHT);
    assert!(!bus.is_connected(0, 1, RIGHT));
    assert!(!bus.is_connected(1, 0, LEFT));
}

#[test]
fn write_is_readable_after_commit() {
    let mut bus = IoBus::new();
    bus.connect_half(0, 1, RIGHT);

    {
        let mut view = bus.view(0);
        view.write(RIGHT, 42);
    }

    bus.commit();

    {
        let mut view = bus.view(1);
        assert_eq!(view.read(LEFT), Some(42));
    }
}

#[test]
fn write_is_not_readable_before_commit() {
    let mut bus = IoBus::new();
    bus.connect_half(0, 1, RIGHT);
    bus.view(0).write(RIGHT, 42);
    assert_eq!(bus.view(1).read(LEFT), None);
    // The failed read has changed nothing.
    assert!(bus.view(0).is_blocked());
    bus.commit();
    assert_eq!(bus.view(1).read(LEFT), Some(42));
}

#[test]
fn an_edge_holds_one_value_and_a_read_takes_it() {
    let mut bus = IoBus::new();
    bus.connect_half(0, 1, RIGHT);
    bus.view(0).write(RIGHT, 1);
    bus.view(0).write(RIGHT, 2);
    bus.commit();
    assert_eq!(bus.view(1).read(LEFT), Some(2));
    assert_eq!(bus.view(1).read(LEFT), None);
}

#[test]
fn commit_replaces_a_value_that_was_not_read() {
    let mut bus = IoBus::new();
    bus.connect_half(0, 1, RIGHT);
    bus.view(0).write(RIGHT, 1);
    bus.commit();
    bus.view(0).write(RIGHT, 2);
    bus.commit();
    assert_eq!(bus.view(1).read(LEFT), Some(2));
    assert_eq!(bus.view(1).read(LEFT), None);
}

#[test]
fn writer_is_blocked_until_read() {
    let mut bus = IoBus::new();
    bus.connect_half(0, 1, RIGHT);
    assert!(!bus.view(0).is_blocked());
    bus.view(0).write(RIGHT, 5);
    assert!(bus.view(0).is_blocked());
    bus.commit();
    assert!(bus.view(0).is_blocked());
    assert!(!bus.view(1).is_blocked());
    assert_eq!(bus.view(1).read(LEFT), Some(5));
    assert!(!bus.view(0).is_blocked());
}

#[test]
fn first_reader_collapses_the_broadcast() {
    let mut bus = IoBus::new();
    bus.connect_half(0, 1, RIGHT);
    bus.connect_half(0, 2, DOWN);
    bus.connect_half(0, 3, UP);
    bus.view(0).write(RIGHT, 7);
    bus.view(0).write(DOWN, 7);
    bus.view(0).write(UP, 7);
    bus.commit();
    assert_eq!(bus.view(2).read(UP), Some(7));
    // The other offers are gone and the writer is free.
    assert_eq!(bus.view(1).read(LEFT), None);
    assert_eq!(bus.view(3).read(DOWN), None);
    assert!(!bus.view(0).is_blocked());
}

#[test]
fn read_does_not_touch_other_writers() {
    let mut bus = IoBus::new();
    bus.connect_half(0, 2, RIGHT);
    bus.connect_half(1, 2, DOWN);
    bus.view(0).write(RIGHT, 10);
    bus.view(1).write(DOWN, 11);
    bus.commit();
    assert_eq!(bus.view(2).read(LEFT), Some(10));
    assert!(bus.view(1).is_blocked());
    assert_eq!(bus.view(2).read(UP), Some(11));
    assert!(!bus.view(1).is_blocked());
}

#[test]
fn write_without_an_edge_does_nothing() {
    let mut bus = IoBus::new();
    bus.connect_half(0, 1, RIGHT);
    bus.view(0).write(LEFT, 9);
    bus.view(1).write(LEFT, 9);
    assert!(!bus.view(0).is_blocked());
    assert!(!bus.view(1).is_blocked());
    bus.commit();
    assert_eq!(bus.view(1).read(LEFT), None);
    assert_eq!(bus.view(0).read(RIGHT), None);
}

#[test]
fn commit_with_nothing_pending_changes_nothing() {
    let mut bus = IoBus::new();
    bus.connect_half(0, 1, RIGHT);
    bus.view(0).write(RIGHT, 3);
    bus.commit();
    bus.commit();
    bus.commit();
    assert!(bus.view(0).is_blocked());
    assert_eq!(bus.view(1).read(LEFT), Some(3));
    bus.commit();
    assert_eq!(bus.view(1).read(LEFT), None);
}

#[test]
fn commit_does_not_release_a_block() {
    let mut bus = IoBus::new();
    bus.connect_half(0, 1, RIGHT);
    bus.view(0).write(RIGHT, 3);
    for _ in 0..3 {
        bus.commit();
        assert!(bus.view(0).is_blocked());
    }
}

#[test]
fn new_edge_takes_the_place_of_an_old_one() {
    let mut bus = IoBus::new();
    bus.connect_half(0, 1, RIGHT);
    bus.connect_half(0, 2, RIGHT);
    bus.view(0).write(RIGHT, 4);
    bus.commit();
    assert_eq!(bus.view(1).read(LEFT), None);
    assert_eq!(bus.view(2).read(LEFT), Some(4));
}

#[test]
fn a_node_can_be_wired_to_itself() {
    let mut bus = IoBus::new();
    bus.connect_half(3, 3, DOWN);
    bus.view(3).write(DOWN, 8);
    bus.commit();
    assert_eq!(bus.view(3).read(UP), Some(8));
    assert!(!bus.view(3).is_blocked());
}

#[test]
fn values_pass_unchanged_at_the_limits() {
    let mut bus = IoBus::new();
    bus.connect_half(0, 1, RIGHT);
    bus.view(0).write(RIGHT, isize::MIN);
    bus.commit();
    assert_eq!(bus.view(1).read(LEFT), Some(isize::MIN));
    bus.view(0).write(RIGHT, isize::MAX);
    bus.commit();
    assert_eq!(bus.view(1).read(LEFT), Some(isize::MAX));
}

#[test]
fn chained_connections() {
    let mut bus = IoBus::new();
    bus.connect_half(0, 1, DOWN).connect_half(1, 2, DOWN).view(0).write(DOWN, 1);
    bus.commit();
    assert_eq!(bus.view(1).read(UP), Some(1));
    assert_eq!(bus.view(2).read(UP), None);
}

#[test]
fn a_blocked_node_has_a_value_on_offer() {
    let mut bus = IoBus::new();
    bus.connect_half(0, 1, RIGHT);
    bus.connect_half(0, 2, DOWN);
    bus.connect_half(3, 1, DOWN);
    bus.view(0).write(DOWN, 6);
    bus.view(3).write(DOWN, 9);
    bus.commit();
    // Node 1 takes what node 3 offers; node 0 still waits, and its value
    // is still there.
    assert_eq!(bus.view(1).read(UP), Some(9));
    assert!(!bus.view(3).is_blocked());
    assert!(bus.view(0).is_blocked());
    assert_eq!(bus.view(1).read(LEFT), None);
    assert_eq!(bus.view(2).read(UP), Some(6));
    assert!(!bus.view(0).is_blocked());
}
