use tis_100::parse::Opcode::{ADD, JEZ, JGZ, JLZ, JMP, JNZ, JRO, MOV, NEG, NOP, SAV, SUB, SWP};
use tis_100::parse::ParseProgramError::{
    DuplicateLabel, InvalidExpression, InvalidLabel, InvalidOpcode, InvalidRegister,
    MissingOperand, TooManyOperands, UndefinedLabel,
};
use tis_100::parse::{join_words, parse_program, Opcode, ParseOpcodeError};
use tis_100::save::parse_save;
use tis_100::types::Instruction::{Add, Jez, Jgz, Jlz, Jmp, Jnz, Jro, Mov, Neg, Nop, Sav, Sub, Swp};
use tis_100::types::IoRegister::{ANY, DIR, LAST};
use tis_100::types::Port::{DOWN, UP};
use tis_100::types::Register::{ACC, IO, NIL};
use tis_100::types::Source::{REG, VAL};

#[test]
fn test_parse_opcode() {
    assert_eq!(str::parse::<Opcode>("NOP"), Ok(NOP));
    assert_eq!(str::parse::<Opcode>("MOV"), Ok(MOV));
    assert_eq!(str::parse::<Opcode>("SWP"), Ok(SWP));
    assert_eq!(str::parse::<Opcode>("SAV"), Ok(SAV));
    assert_eq!(str::parse::<Opcode>("ADD"), Ok(ADD));
    assert_eq!(str::parse::<Opcode>("SUB"), Ok(SUB));
    assert_eq!(str::parse::<Opcode>("NEG"), Ok(NEG));
    assert_eq!(str::parse::<Opcode>("JMP"), Ok(JMP));
    assert_eq!(str::parse::<Opcode>("JEZ"), Ok(JEZ));
    assert_eq!(str::parse::<Opcode>("JNZ"), Ok(JNZ));
    assert_eq!(str::parse::<Opcode>("JGZ"), Ok(JGZ));
    assert_eq!(str::parse::<Opcode>("JLZ"), Ok(JLZ));
    assert_eq!(str::parse::<Opcode>("JRO"), Ok(JRO));
    assert_eq!(str::parse::<Opcode>("nop"), Err(ParseOpcodeError));
    assert_eq!(str::parse::<Opcode>("bad"), Err(ParseOpcodeError));
}

#[test]
fn test_parse_save() {
    let save = parse_save("@1\nADD 1\n@2\nADD 1\n").unwrap();
    assert_eq!(save.len(), 2);
}

#[test]
fn parse_program_reads_every_instruction() {
    let src = "S: NOP\nMOV UP ACC\nSWP\nSAV\nADD 1\nSUB ACC\nNEG\nJMP S\nJEZ E\nJNZ S\nJGZ S\nJLZ S\nE: JRO -2\nMOV 5 NIL\nMOV ANY LAST";
    let prog = parse_program(src).unwrap();
    assert_eq!(
        prog,
        vec![
            Nop,
            Mov(REG(IO(DIR(UP))), ACC),
            Swp,
            Sav,
            Add(VAL(1)),
            Sub(REG(ACC)),
            Neg,
            Jmp(0),
            Jez(12),
            Jnz(0),
            Jgz(0),
            Jlz(0),
            Jro(VAL(-2)),
            Mov(VAL(5), NIL),
            Mov(REG(IO(ANY)), IO(LAST)),
        ]
    );
}

#[test]
fn parse_program_of_documentation() {
    let src = "MOV UP ACC\nADD 1\nMOV ACC DOWN\n";
    let prog = parse_program(src).unwrap();
    assert_eq!(prog[0], Mov(REG(IO(DIR(UP))), ACC));
    assert_eq!(prog[1], Add(VAL(1)));
    assert_eq!(prog[2], Mov(REG(ACC), IO(DIR(DOWN))));
}

#[test]
fn empty_text_is_the_empty_program() {
    assert_eq!(parse_program(""), Ok(vec![]));
    assert_eq!(parse_program("# nothing\n\n"), Ok(vec![]));
}

#[test]
fn label_on_its_own_line_stands_before_the_next_instruction() {
    let prog = parse_program("NOP\nL:\nNOP\nJMP L").unwrap();
    assert_eq!(prog, vec![Nop, Nop, Jmp(1)]);
}

#[test]
fn label_may_be_used_before_it_is_defined() {
    let prog = parse_program("JMP END\nNOP\nEND: NOP").unwrap();
    assert_eq!(prog, vec![Jmp(2), Nop, Nop]);
}

#[test]
fn each_error_variant_has_an_input() {
    assert_eq!(parse_program(": NOP"), Err(vec![(0, InvalidLabel)]));
    assert_eq!(parse_program("JMP X"), Err(vec![(0, UndefinedLabel("X".to_string()))]));
    assert_eq!(
        parse_program("A: NOP\nA: NOP"),
        Err(vec![(1, DuplicateLabel("A".to_string()))])
    );
    assert_eq!(parse_program("FOO"), Err(vec![(0, InvalidOpcode("FOO".to_string()))]));
    assert_eq!(parse_program("ADD X"), Err(vec![(0, InvalidExpression("X".to_string()))]));
    assert_eq!(parse_program("MOV X ACC"), Err(vec![(0, InvalidExpression("X".to_string()))]));
    assert_eq!(parse_program("MOV 1 2"), Err(vec![(0, InvalidRegister("2".to_string()))]));
    assert_eq!(parse_program("ADD"), Err(vec![(0, MissingOperand("ADD".to_string()))]));
    assert_eq!(parse_program("JMP"), Err(vec![(0, MissingOperand("JMP".to_string()))]));
    assert_eq!(parse_program("MOV"), Err(vec![(0, MissingOperand("MOV ".to_string()))]));
    assert_eq!(parse_program("MOV UP"), Err(vec![(0, MissingOperand("MOV UP".to_string()))]));
    assert_eq!(parse_program("NOP 1 2"), Err(vec![(0, TooManyOperands("1 2".to_string()))]));
    assert_eq!(parse_program("ADD 1 2 3"), Err(vec![(0, TooManyOperands("2 3".to_string()))]));
    assert_eq!(parse_program("JMP A B"), Err(vec![(0, TooManyOperands("B".to_string()))]));
    assert_eq!(
        parse_program("MOV 1 ACC UP DOWN"),
        Err(vec![(0, TooManyOperands("UP DOWN".to_string()))])
    );
}

#[test]
fn errors_in_labels_come_before_errors_in_instructions() {
    assert_eq!(
        parse_program("FOO\n: NOP\nBAR 1"),
        Err(vec![
            (1, InvalidLabel),
            (0, InvalidOpcode("FOO".to_string())),
            (2, InvalidOpcode("BAR".to_string())),
        ])
    );
}

#[test]
fn error_messages() {
    assert_eq!(InvalidLabel.message(), "Invalid label");
    assert_eq!(UndefinedLabel("X".to_string()).message(), "Undefined label: 'X'");
    assert_eq!(DuplicateLabel("X".to_string()).message(), "Label is already defined: 'X'");
    assert_eq!(InvalidOpcode("X".to_string()).message(), "Invalid opcode: 'X'");
    assert_eq!(InvalidExpression("X".to_string()).message(), "Invalid expression: 'X'");
    assert_eq!(InvalidRegister("X".to_string()).message(), "Invalid register: 'X'");
    assert_eq!(MissingOperand("X".to_string()).message(), "Missing operand: 'X'");
    assert_eq!(TooManyOperands("X Y".to_string()).message(), "Too many operands: 'X Y'");
}

#[test]
fn join_words_puts_one_blank_between() {
    assert_eq!(join_words(&[]), "");
    assert_eq!(join_words(&["A".to_string()]), "A");
    assert_eq!(join_words(&["A".to_string(), "".to_string(), "B".to_string()]), "A  B");
}

#[test]
fn parse_save_stores_programs_by_node() {
    let save = parse_save("junk before\n@1\nADD 1\n@12 name\nNOP\nSWP\n@x\nBAD\n@3").unwrap();
    assert_eq!(save.len(), 3);
    assert_eq!(save.get(1), Some(&vec![Add(VAL(1))]));
    assert_eq!(save.get(12), Some(&vec![Nop, Swp]));
    assert_eq!(save.get(3), Some(&vec![]));
    assert_eq!(save.get(0), None);
}

#[test]
fn parse_save_reports_errors_by_node() {
    let errors = match parse_save("@0\nNOP\n@4\nFOO\nADD\n@5\nNOP") {
        Ok(_) => panic!("errors expected"),
        Err(errors) => errors,
    };
    assert_eq!(errors.len(), 1);
    assert_eq!(
        errors.get(4),
        Some(&vec![
            (0, InvalidOpcode("FOO".to_string())),
            (1, MissingOperand("ADD".to_string())),
        ])
    );
}

#[test]
fn parse_save_later_section_replaces_earlier() {
    let save = parse_save("@2\nNOP\n@2\nSWP").unwrap();
    assert_eq!(save.len(), 1);
    assert_eq!(save.get(2), Some(&vec![Swp]));
}

#[test]
fn parse_save_passes_over_numbers_too_large() {
    let save = parse_save("@99999999999999999999999\nNOP\n@1048576\nNOP\n@1048575\nNEG").unwrap();
    assert_eq!(save.len(), 1);
    assert_eq!(save.get(1048575), Some(&vec![Neg]));
}

#[test]
fn parse_save_without_sections_is_empty() {
    assert_eq!(parse_save("").unwrap().len(), 0);
    assert_eq!(parse_save("NOP\nADD 1").unwrap().len(), 0);
}

#[test]
fn parse_save_takes_every_numeric_character_for_the_number() {
    // A superscript two is numeric but no digit: the number cannot be read,
    // and the section is passed over.
    assert_eq!(parse_save("@1\u{b2}\nNOP").unwrap().len(), 0);
    let save = parse_save("@1 \u{b2}\nNOP").unwrap();
    assert_eq!(save.get(1), Some(&vec![Nop]));
}

#[test]
fn parse_save_reads_the_program_from_the_second_line_on() {
    let save = parse_save("@4 NOP\nSWP\nSAV").unwrap();
    assert_eq!(save.get(4), Some(&vec![Swp, Sav]));
}
