use tis_100::error::{decimal, error_lines, pretty_print_save_errors, report};
use tis_100::parse::ParseProgramError::{InvalidLabel, InvalidOpcode, MissingOperand};
use tis_100::save::{parse_save, SaveErrors};

#[test]
fn decimal_digits() {
    assert_eq!(decimal(0), "0");
    assert_eq!(decimal(7), "7");
    assert_eq!(decimal(10), "10");
    assert_eq!(decimal(1234567890), "1234567890");
    assert_eq!(decimal(usize::MAX), usize::MAX.to_string());
    for n in 0..1200 {
        assert_eq!(decimal(n), n.to_string());
    }
}

#[test]
fn one_line_for_each_error() {
    let errors = vec![(3, InvalidLabel), (0, InvalidOpcode("FOO".to_string()))];
    assert_eq!(
        error_lines("Node", "Line", 12, &errors),
        vec![
            "Node 12: Line 3: Invalid label\n".to_string(),
            "Node 12: Line 0: Invalid opcode: 'FOO'\n".to_string(),
        ]
    );
    assert!(error_lines("Node", "Line", 12, &vec![]).is_empty());
}

#[test]
fn report_goes_node_after_node() {
    let errors = match parse_save("@7\nFOO\n@2\nADD\n: NOP\n@5\nNOP\n") {
        Ok(_) => panic!("errors expected"),
        Err(errors) => errors,
    };
    assert_eq!(
        report(&errors, "Node", "Line"),
        vec![
            "Node 2: Line 1: Invalid label\n".to_string(),
            "Node 2: Line 0: Missing operand: 'ADD'\n".to_string(),
            "Node 7: Line 0: Invalid opcode: 'FOO'\n".to_string(),
        ]
    );
    assert_eq!(
        pretty_print_save_errors(&errors),
        vec![
            "node 2: line 1: Invalid label\n".to_string(),
            "node 2: line 0: Missing operand: 'ADD'\n".to_string(),
            "node 7: line 0: Invalid opcode: 'FOO'\n".to_string(),
        ]
    );
}

#[test]
fn report_of_nothing_is_empty() {
    let mut errors = SaveErrors::new();
    assert!(pretty_print_save_errors(&errors).is_empty());
    errors.insert(4, vec![]);
    assert!(pretty_print_save_errors(&errors).is_empty());
    errors.insert(0, vec![(1, MissingOperand("JRO".to_string()))]);
    assert_eq!(
        pretty_print_save_errors(&errors),
        vec!["node 0: line 1: Missing operand: 'JRO'\n".to_string()]
    );
}
