//! The parser: from the words of a program to its instructions.

use crate::lex::{lex_program, line_models, spec_lex_program, Label, Line, LineModel};
use crate::text::{same_text, texts};
use crate::types::{
    parse_register, parse_source, spec_parse_register, spec_parse_source, Instruction, Program,
    Source,
};
use std::str::FromStr;
use vstd::prelude::*;
use vstd::slice::slice_subrange;
use vstd::string::StringExecFns;

verus! {

/// What can be wrong with a line of a program. Each error but the first
/// quotes the text that is at fault.
#[derive(Debug, PartialEq)]
pub enum ParseProgramError {
    InvalidLabel,
    UndefinedLabel(String),
    DuplicateLabel(String),
    InvalidOpcode(String),
    InvalidExpression(String),
    InvalidRegister(String),
    MissingOperand(String),
    TooManyOperands(String),
}

/// The errors of a program, each with the number of its line.
pub type ProgramErrors = Vec<(usize, ParseProgramError)>;

/// An error as a mathematical value.
#[verifier::ext_equal]
pub ghost enum ErrorModel {
    InvalidLabel,
    UndefinedLabel(Seq<char>),
    DuplicateLabel(Seq<char>),
    InvalidOpcode(Seq<char>),
    InvalidExpression(Seq<char>),
    InvalidRegister(Seq<char>),
    MissingOperand(Seq<char>),
    TooManyOperands(Seq<char>),
}

impl View for ParseProgramError {
    type V = ErrorModel;

    open spec fn view(&self) -> ErrorModel {
        match self {
            ParseProgramError::InvalidLabel => ErrorModel::InvalidLabel,
            ParseProgramError::UndefinedLabel(s) => ErrorModel::UndefinedLabel(s@),
            ParseProgramError::DuplicateLabel(s) => ErrorModel::DuplicateLabel(s@),
            ParseProgramError::InvalidOpcode(s) => ErrorModel::InvalidOpcode(s@),
            ParseProgramError::InvalidExpression(s) => ErrorModel::InvalidExpression(s@),
            ParseProgramError::InvalidRegister(s) => ErrorModel::InvalidRegister(s@),
            ParseProgramError::MissingOperand(s) => ErrorModel::MissingOperand(s@),
            ParseProgramError::TooManyOperands(s) => ErrorModel::TooManyOperands(s@),
        }
    }
}

impl ErrorModel {
    /// The error in words.
    pub open spec fn message(self) -> Seq<char> {
        match self {
            ErrorModel::InvalidLabel => "Invalid label"@,
            ErrorModel::UndefinedLabel(s) => "Undefined label: '"@ + s + "'"@,
            ErrorModel::DuplicateLabel(s) => "Label is already defined: '"@ + s + "'"@,
            ErrorModel::InvalidOpcode(s) => "Invalid opcode: '"@ + s + "'"@,
            ErrorModel::InvalidExpression(s) => "Invalid expression: '"@ + s + "'"@,
            ErrorModel::InvalidRegister(s) => "Invalid register: '"@ + s + "'"@,
            ErrorModel::MissingOperand(s) => "Missing operand: '"@ + s + "'"@,
            ErrorModel::TooManyOperands(s) => "Too many operands: '"@ + s + "'"@,
        }
    }
}

/// Puts `what` between `before` and a closing quote.
fn quoted(before: &str, what: &String) -> (r: String)
    ensures
        r@ == before@ + what@ + "'"@,
{
    let mut out = before.to_owned();
    out.append(what.as_str());
    out.append("'");
    out
}

impl ParseProgramError {
    /// The error in words.
    pub fn message(&self) -> (r: String)
        ensures
            r@ == self@.message(),
    {
        match self {
            ParseProgramError::InvalidLabel => "Invalid label".to_owned(),
            ParseProgramError::UndefinedLabel(s) => quoted("Undefined label: '", s),
            ParseProgramError::DuplicateLabel(s) => quoted("Label is already defined: '", s),
            ParseProgramError::InvalidOpcode(s) => quoted("Invalid opcode: '", s),
            ParseProgramError::InvalidExpression(s) => quoted("Invalid expression: '", s),
            ParseProgramError::InvalidRegister(s) => quoted("Invalid register: '", s),
            ParseProgramError::MissingOperand(s) => quoted("Missing operand: '", s),
            ParseProgramError::TooManyOperands(s) => quoted("Too many operands: '", s),
        }
    }
}

/// The views of the errors in `errors`, each with the number of its line.
pub open spec fn error_models(errors: Seq<(usize, ParseProgramError)>) -> Seq<(usize, ErrorModel)> {
    Seq::new(errors.len(), |i: int| (errors[i].0, errors[i].1@))
}

/// What an instruction does, by its name.
#[derive(Debug, PartialEq, Eq, Clone, Copy, Structural)]
pub enum Opcode {
    NOP,
    MOV,
    SWP,
    SAV,
    ADD,
    SUB,
    NEG,
    JMP,
    JEZ,
    JNZ,
    JGZ,
    JLZ,
    JRO,
}

/// The error for a text that names no opcode.
#[derive(Debug, PartialEq, Eq, Clone, Copy, Structural)]
pub struct ParseOpcodeError;

/// The opcode that a text names: one of the thirteen names, in capitals.
pub open spec fn spec_parse_opcode(s: Seq<char>) -> Option<Opcode> {
    if s == "NOP"@ {
        Some(Opcode::NOP)
    } else if s == "MOV"@ {
        Some(Opcode::MOV)
    } else if s == "SWP"@ {
        Some(Opcode::SWP)
    } else if s == "SAV"@ {
        Some(Opcode::SAV)
    } else if s == "ADD"@ {
        Some(Opcode::ADD)
    } else if s == "SUB"@ {
        Some(Opcode::SUB)
    } else if s == "NEG"@ {
        Some(Opcode::NEG)
    } else if s == "JMP"@ {
        Some(Opcode::JMP)
    } else if s == "JEZ"@ {
        Some(Opcode::JEZ)
    } else if s == "JNZ"@ {
        Some(Opcode::JNZ)
    } else if s == "JGZ"@ {
        Some(Opcode::JGZ)
    } else if s == "JLZ"@ {
        Some(Opcode::JLZ)
    } else if s == "JRO"@ {
        Some(Opcode::JRO)
    } else {
        None
    }
}

/// Reads the name of an opcode.
pub fn parse_opcode(s: &str) -> (r: Result<Opcode, ParseOpcodeError>)
    ensures
        r == (match spec_parse_opcode(s@) {
            Some(op) => Ok::<Opcode, ParseOpcodeError>(op),
            None => Err(ParseOpcodeError),
        }),
{
    if same_text(s, "NOP") {
        Ok(Opcode::NOP)
    } else if same_text(s, "MOV") {
        Ok(Opcode::MOV)
    } else if same_text(s, "SWP") {
        Ok(Opcode::SWP)
    } else if same_text(s, "SAV") {
        Ok(Opcode::SAV)
    } else if same_text(s, "ADD") {
        Ok(Opcode::ADD)
    } else if same_text(s, "SUB") {
        Ok(Opcode::SUB)
    } else if same_text(s, "NEG") {
        Ok(Opcode::NEG)
    } else if same_text(s, "JMP") {
        Ok(Opcode::JMP)
    } else if same_text(s, "JEZ") {
        Ok(Opcode::JEZ)
    } else if same_text(s, "JNZ") {
        Ok(Opcode::JNZ)
    } else if same_text(s, "JGZ") {
        Ok(Opcode::JGZ)
    } else if same_text(s, "JLZ") {
        Ok(Opcode::JLZ)
    } else if same_text(s, "JRO") {
        Ok(Opcode::JRO)
    } else {
        Err(ParseOpcodeError)
    }
}

impl FromStr for Opcode {
    type Err = ParseOpcodeError;

    /// Reads the name of an opcode: the same as [`parse_opcode`].
    fn from_str(s: &str) -> (r: Result<Self, Self::Err>)
        ensures
            r == (match spec_parse_opcode(s@) {
                Some(value) => Ok::<Opcode, ParseOpcodeError>(value),
                None => Err(ParseOpcodeError),
            }),
    {
        parse_opcode(s)
    }
}

/// The words joined into one text, with a blank between each two.
pub open spec fn spec_join(words: Seq<Seq<char>>) -> Seq<char>
    decreases words.len(),
{
    if words.len() == 0 {
        Seq::empty()
    } else if words.len() == 1 {
        words[0]
    } else {
        spec_join(words.drop_last()) + " "@ + words.last()
    }
}

/// Joins words into one text, with a blank between each two.
pub fn join_words(words: &[String]) -> (r: String)
    ensures
        r@ == spec_join(texts(words@)),
{
    let mut out = String::new();
    let mut i: usize = 0;
    while i < words.len()
        invariant
            i <= words.len(),
            out@ == spec_join(texts(words@).take(i as int)),
        decreases words.len() - i,
    {
        let ghost all = texts(words@);
        assert(all.take(i + 1).drop_last() == all.take(i as int));
        assert(all.take(i + 1).last() == words@[i as int]@);
        if i > 0 {
            out.append(" ");
        }
        out.append(words[i].as_str());
        assert(out@ =~= spec_join(all.take(i + 1)));
        i += 1;
    }
    assert(texts(words@).take(words@.len() as int) == texts(words@));
    out
}

/// The instruction without operands that the opcode `op` names; `NOP` for an
/// opcode that takes operands.
pub open spec fn plain_instruction(op: Opcode) -> Instruction {
    match op {
        Opcode::SWP => Instruction::Swp,
        Opcode::SAV => Instruction::Sav,
        Opcode::NEG => Instruction::Neg,
        _ => Instruction::Nop,
    }
}

/// The instruction that the opcode `op` makes of one operand; an addition for
/// an opcode that does not take one.
pub open spec fn source_instruction(op: Opcode, src: Source) -> Instruction {
    match op {
        Opcode::SUB => Instruction::Sub(src),
        Opcode::JRO => Instruction::Jro(src),
        _ => Instruction::Add(src),
    }
}

/// The jump that the opcode `op` makes to the instruction at `target`; an
/// unconditional one for an opcode that is no jump.
pub open spec fn jump_instruction(op: Opcode, target: isize) -> Instruction {
    match op {
        Opcode::JEZ => Instruction::Jez(target),
        Opcode::JNZ => Instruction::Jnz(target),
        Opcode::JGZ => Instruction::Jgz(target),
        Opcode::JLZ => Instruction::Jlz(target),
        _ => Instruction::Jmp(target),
    }
}

/// The index that the label `name` has in `table`, if it is there.
pub open spec fn find_label(table: Seq<(Seq<char>, isize)>, name: Seq<char>) -> Option<isize>
    decreases table.len(),
{
    if table.len() == 0 {
        None
    } else if table[0].0 == name {
        Some(table[0].1)
    } else {
        find_label(table.skip(1), name)
    }
}

/// An instruction without operands, or the error for operands given to it.
pub open spec fn spec_parse_no_operands(instruction: Instruction, operands: Seq<Seq<char>>)
    -> Result<Instruction, ErrorModel> {
    if operands.len() == 0 {
        Ok(instruction)
    } else {
        Err(ErrorModel::TooManyOperands(spec_join(operands)))
    }
}

/// An instruction with one operand, or the error for a wrong number of
/// operands or for an operand that is neither a number nor a register.
pub open spec fn spec_parse_one_operand(op: Opcode, opcode: Seq<char>, operands: Seq<Seq<char>>)
    -> Result<Instruction, ErrorModel> {
    if operands.len() < 1 {
        Err(ErrorModel::MissingOperand(opcode))
    } else if operands.len() == 1 {
        match spec_parse_source(operands[0]) {
            Some(src) => Ok(source_instruction(op, src)),
            None => Err(ErrorModel::InvalidExpression(operands[0])),
        }
    } else {
        Err(ErrorModel::TooManyOperands(spec_join(operands.skip(1))))
    }
}

/// A `MOV` with its two operands, or the error for a wrong number of
/// operands, for a first one that is neither a number nor a register, or for
/// a second one that is no register.
pub open spec fn spec_parse_two_operands(opcode: Seq<char>, operands: Seq<Seq<char>>) -> Result<
    Instruction,
    ErrorModel,
> {
    if operands.len() < 2 {
        Err(ErrorModel::MissingOperand(opcode + " "@ + spec_join(operands)))
    } else if operands.len() == 2 {
        match spec_parse_source(operands[0]) {
            Some(src) => match spec_parse_register(operands[1]) {
                Some(dst) => Ok(Instruction::Mov(src, dst)),
                None => Err(ErrorModel::InvalidRegister(operands[1])),
            },
            None => Err(ErrorModel::InvalidExpression(operands[0])),
        }
    } else {
        Err(ErrorModel::TooManyOperands(spec_join(operands.skip(2))))
    }
}

/// A jump to the instruction that a label stands before, or the error for a
/// wrong number of operands or for a label that is not in the table.
pub open spec fn spec_parse_jump(
    op: Opcode,
    opcode: Seq<char>,
    operands: Seq<Seq<char>>,
    table: Seq<(Seq<char>, isize)>,
) -> Result<Instruction, ErrorModel> {
    if operands.len() < 1 {
        Err(ErrorModel::MissingOperand(opcode))
    } else if operands.len() == 1 {
        match find_label(table, operands[0]) {
            Some(target) => Ok(jump_instruction(op, target)),
            None => Err(ErrorModel::UndefinedLabel(operands[0])),
        }
    } else {
        Err(ErrorModel::TooManyOperands(spec_join(operands.skip(1))))
    }
}

/// The instruction that an opcode and its operands spell, or what is wrong
/// with them.
pub open spec fn spec_parse_instruction(
    opcode: Seq<char>,
    operands: Seq<Seq<char>>,
    table: Seq<(Seq<char>, isize)>,
) -> Result<Instruction, ErrorModel> {
    match spec_parse_opcode(opcode) {
        Some(Opcode::NOP) => spec_parse_no_operands(Instruction::Nop, operands),
        Some(Opcode::MOV) => spec_parse_two_operands(opcode, operands),
        Some(Opcode::SWP) => spec_parse_no_operands(Instruction::Swp, operands),
        Some(Opcode::SAV) => spec_parse_no_operands(Instruction::Sav, operands),
        Some(Opcode::ADD) => spec_parse_one_operand(Opcode::ADD, opcode, operands),
        Some(Opcode::SUB) => spec_parse_one_operand(Opcode::SUB, opcode, operands),
        Some(Opcode::NEG) => spec_parse_no_operands(Instruction::Neg, operands),
        Some(Opcode::JMP) => spec_parse_jump(Opcode::JMP, opcode, operands, table),
        Some(Opcode::JEZ) => spec_parse_jump(Opcode::JEZ, opcode, operands, table),
        Some(Opcode::JNZ) => spec_parse_jump(Opcode::JNZ, opcode, operands, table),
        Some(Opcode::JGZ) => spec_parse_jump(Opcode::JGZ, opcode, operands, table),
        Some(Opcode::JLZ) => spec_parse_jump(Opcode::JLZ, opcode, operands, table),
        Some(Opcode::JRO) => spec_parse_one_operand(Opcode::JRO, opcode, operands),
        None => Err(ErrorModel::InvalidOpcode(opcode)),
    }
}

/// Whether an outcome of parsing is the one that `expected` describes.
pub open spec fn parsed_as(
    r: Result<Instruction, ParseProgramError>,
    expected: Result<Instruction, ErrorModel>,
) -> bool {
    match r {
        Ok(i) => expected == Ok::<Instruction, ErrorModel>(i),
        Err(e) => expected == Err::<Instruction, ErrorModel>(e@),
    }
}

/// The labels in `labels` as mathematical values.
pub open spec fn label_table(labels: Seq<(String, isize)>) -> Seq<(Seq<char>, isize)> {
    Seq::new(labels.len(), |i: int| (labels[i].0@, labels[i].1))
}

/// Looks up the instruction that a label stands before.
pub fn resolve_label(label: &str, labels: &Vec<(String, isize)>) -> (r: Result<
    isize,
    ParseProgramError,
>)
    ensures
        match r {
            Ok(target) => find_label(label_table(labels@), label@) == Some(target),
            Err(e) => find_label(label_table(labels@), label@) is None && e@
                == ErrorModel::UndefinedLabel(label@),
        },
{
    let ghost table = label_table(labels@);
    assert(table.skip(0) == table);
    let mut i: usize = 0;
    while i < labels.len()
        invariant
            i <= labels.len(),
            table == label_table(labels@),
            find_label(table, label@) == find_label(table.skip(i as int), label@),
        decreases labels.len() - i,
    {
        assert(table.skip(i as int)[0] == table[i as int]);
        assert(table.skip(i as int).skip(1) == table.skip(i + 1));
        if same_text(labels[i].0.as_str(), label) {
            return Ok(labels[i].1);
        }
        i += 1;
    }
    Err(ParseProgramError::UndefinedLabel(label.to_owned()))
}

/// Makes a jump of an opcode and the label it names.
pub fn parse_jump(op: Opcode, opcode: &str, operands: &[String], labels: &Vec<(String, isize)>)
    -> (r: Result<Instruction, ParseProgramError>)
    ensures
        parsed_as(r, spec_parse_jump(op, opcode@, texts(operands@), label_table(labels@))),
{
    if operands.len() < 1 {
        Err(ParseProgramError::MissingOperand(opcode.to_owned()))
    } else if operands.len() == 1 {
        assert(texts(operands@)[0] == operands@[0]@);
        match resolve_label(operands[0].as_str(), labels) {
            Ok(target) => Ok(
                match op {
                    Opcode::JEZ => Instruction::Jez(target),
                    Opcode::JNZ => Instruction::Jnz(target),
                    Opcode::JGZ => Instruction::Jgz(target),
                    Opcode::JLZ => Instruction::Jlz(target),
                    _ => Instruction::Jmp(target),
                },
            ),
            Err(e) => Err(e),
        }
    } else {
        let rest = slice_subrange(operands, 1, operands.len());
        assert(texts(rest@) =~= texts(operands@).skip(1));
        Err(ParseProgramError::TooManyOperands(join_words(rest)))
    }
}

/// Makes an instruction of an opcode that takes no operands.
pub fn parse_no_operands(instruction: Instruction, operands: &[String]) -> (r: Result<
    Instruction,
    ParseProgramError,
>)
    ensures
        parsed_as(r, spec_parse_no_operands(instruction, texts(operands@))),
{
    if operands.len() == 0 {
        Ok(instruction)
    } else {
        Err(ParseProgramError::TooManyOperands(join_words(operands)))
    }
}

/// Makes an instruction of an opcode and its one operand.
pub fn parse_one_operand(op: Opcode, opcode: &str, operands: &[String]) -> (r: Result<
    Instruction,
    ParseProgramError,
>)
    ensures
        parsed_as(r, spec_parse_one_operand(op, opcode@, texts(operands@))),
{
    if operands.len() < 1 {
        Err(ParseProgramError::MissingOperand(opcode.to_owned()))
    } else if operands.len() == 1 {
        assert(texts(operands@)[0] == operands@[0]@);
        match parse_source(operands[0].as_str()) {
            Ok(src) => Ok(
                match op {
                    Opcode::SUB => Instruction::Sub(src),
                    Opcode::JRO => Instruction::Jro(src),
                    _ => Instruction::Add(src),
                },
            ),
            Err(_) => Err(ParseProgramError::InvalidExpression(operands[0].clone())),
        }
    } else {
        let rest = slice_subrange(operands, 1, operands.len());
        assert(texts(rest@) =~= texts(operands@).skip(1));
        Err(ParseProgramError::TooManyOperands(join_words(rest)))
    }
}

/// Makes a `MOV` of its two operands.
pub fn parse_two_operands(opcode: &str, operands: &[String]) -> (r: Result<
    Instruction,
    ParseProgramError,
>)
    ensures
        parsed_as(r, spec_parse_two_operands(opcode@, texts(operands@))),
{
    if operands.len() < 2 {
        let mut what = opcode.to_owned();
        what.append(" ");
        what.append(join_words(operands).as_str());
        Err(ParseProgramError::MissingOperand(what))
    } else if operands.len() == 2 {
        assert(texts(operands@)[0] == operands@[0]@);
        assert(texts(operands@)[1] == operands@[1]@);
        match parse_source(operands[0].as_str()) {
            Ok(src) => match parse_register(operands[1].as_str()) {
                Ok(dst) => Ok(Instruction::Mov(src, dst)),
                Err(_) => Err(ParseProgramError::InvalidRegister(operands[1].clone())),
            },
            Err(_) => Err(ParseProgramError::InvalidExpression(operands[0].clone())),
        }
    } else {
        let rest = slice_subrange(operands, 2, operands.len());
        assert(texts(rest@) =~= texts(operands@).skip(2));
        Err(ParseProgramError::TooManyOperands(join_words(rest)))
    }
}

/// Makes an instruction of an opcode and its operands.
pub fn parse_instruction(opcode: &str, operands: &[String], labels: &Vec<(String, isize)>) -> (r:
    Result<Instruction, ParseProgramError>)
    ensures
        parsed_as(r, spec_parse_instruction(opcode@, texts(operands@), label_table(labels@))),
{
    match parse_opcode(opcode) {
        Ok(Opcode::NOP) => parse_no_operands(Instruction::Nop, operands),
        Ok(Opcode::MOV) => parse_two_operands(opcode, operands),
        Ok(Opcode::SWP) => parse_no_operands(Instruction::Swp, operands),
        Ok(Opcode::SAV) => parse_no_operands(Instruction::Sav, operands),
        Ok(Opcode::ADD) => parse_one_operand(Opcode::ADD, opcode, operands),
        Ok(Opcode::SUB) => parse_one_operand(Opcode::SUB, opcode, operands),
        Ok(Opcode::NEG) => parse_no_operands(Instruction::Neg, operands),
        Ok(Opcode::JMP) => parse_jump(Opcode::JMP, opcode, operands, labels),
        Ok(Opcode::JEZ) => parse_jump(Opcode::JEZ, opcode, operands, labels),
        Ok(Opcode::JNZ) => parse_jump(Opcode::JNZ, opcode, operands, labels),
        Ok(Opcode::JGZ) => parse_jump(Opcode::JGZ, opcode, operands, labels),
        Ok(Opcode::JLZ) => parse_jump(Opcode::JLZ, opcode, operands, labels),
        Ok(Opcode::JRO) => parse_one_operand(Opcode::JRO, opcode, operands),
        Err(_) => Err(ParseProgramError::InvalidOpcode(opcode.to_owned())),
    }
}

/// What the pass over the labels has found: the labels with the instruction
/// each stands before, and the errors.
#[verifier::ext_equal]
pub ghost struct LabelPass {
    pub table: Seq<(Seq<char>, isize)>,
    pub errors: Seq<(usize, ErrorModel)>,
}

/// The pass over the labels after one more line. A label without a name is
/// an error, and so is one that is in the table already; any other label
/// joins the table.
pub open spec fn label_step(st: LabelPass, line: LineModel) -> LabelPass {
    match line.label {
        Some((name, index)) => if name.len() == 0 {
            LabelPass { errors: st.errors.push((line.num, ErrorModel::InvalidLabel)), ..st }
        } else if find_label(st.table, name) is None {
            LabelPass { table: st.table.push((name, index as isize)), ..st }
        } else {
            LabelPass {
                errors: st.errors.push((line.num, ErrorModel::DuplicateLabel(name))),
                ..st
            }
        },
        None => st,
    }
}

/// The pass over the labels of the first `upto` lines.
pub open spec fn label_pass(lines: Seq<LineModel>, upto: nat) -> LabelPass
    decreases upto,
{
    if upto == 0 {
        LabelPass { table: Seq::empty(), errors: Seq::empty() }
    } else {
        label_step(label_pass(lines, (upto - 1) as nat), lines[upto - 1])
    }
}

/// What the pass over the instructions has found: the instructions, and the
/// errors.
#[verifier::ext_equal]
pub ghost struct InstructionPass {
    pub instructions: Seq<Instruction>,
    pub errors: Seq<(usize, ErrorModel)>,
}

/// The pass over the instructions after one more line. A line without words
/// adds nothing; the first word of any other line is its opcode, the rest
/// are the operands.
pub open spec fn instruction_step(
    st: InstructionPass,
    line: LineModel,
    table: Seq<(Seq<char>, isize)>,
) -> InstructionPass {
    if line.words.len() > 0 {
        match spec_parse_instruction(line.words[0], line.words.skip(1), table) {
            Ok(instruction) => InstructionPass {
                instructions: st.instructions.push(instruction),
                ..st
            },
            Err(e) => InstructionPass { errors: st.errors.push((line.num, e)), ..st },
        }
    } else {
        st
    }
}

/// The pass over the instructions of the first `upto` lines.
pub open spec fn instruction_pass(lines: Seq<LineModel>, table: Seq<(Seq<char>, isize)>, upto: nat)
    -> InstructionPass
    decreases upto,
{
    if upto == 0 {
        InstructionPass { instructions: Seq::empty(), errors: Seq::empty() }
    } else {
        instruction_step(instruction_pass(lines, table, (upto - 1) as nat), lines[upto - 1], table)
    }
}

/// The program that the lines spell, or everything that is wrong with them:
/// first the errors in the labels, then those in the instructions, each in
/// the order of the lines.
pub open spec fn spec_parse_lines(lines: Seq<LineModel>) -> Result<
    Seq<Instruction>,
    Seq<(usize, ErrorModel)>,
> {
    let labels = label_pass(lines, lines.len());
    let done = instruction_pass(lines, labels.table, lines.len());
    let errors = labels.errors + done.errors;
    if errors.len() > 0 {
        Err(errors)
    } else {
        Ok(done.instructions)
    }
}

/// The program that a text spells, or everything that is wrong with it.
pub open spec fn spec_parse_program(src: Seq<char>) -> Result<
    Seq<Instruction>,
    Seq<(usize, ErrorModel)>,
> {
    spec_parse_lines(spec_lex_program(src))
}

/// Makes a program of lines that were split into labels and words.
pub fn parse_lines(lines: &Vec<Line>) -> (r: Result<Program, ProgramErrors>)
    ensures
        match r {
            Ok(program) => spec_parse_lines(line_models(lines@)) == Ok::<
                Seq<Instruction>,
                Seq<(usize, ErrorModel)>,
            >(program@),
            Err(errors) => spec_parse_lines(line_models(lines@)) == Err::<
                Seq<Instruction>,
                Seq<(usize, ErrorModel)>,
            >(error_models(errors@)),
        },
{
    let ghost models = line_models(lines@);
    let mut label_map: Vec<(String, isize)> = Vec::new();
    let mut instructions: Vec<Instruction> = Vec::new();
    let mut errors: Vec<(usize, ParseProgramError)> = Vec::new();

    let mut i: usize = 0;
    while i < lines.len()
        invariant
            i <= lines.len(),
            models == line_models(lines@),
            label_table(label_map@) == label_pass(models, i as nat).table,
            error_models(errors@) == label_pass(models, i as nat).errors,
        decreases lines.len() - i,
    {
        let ghost before = label_pass(models, i as nat);
        let line = &lines[i];
        assert(models[i as int] == line@);
        if let Some(label) = &line.1 {
            if label.0.as_str().unicode_len() == 0 {
                errors.push((line.0, ParseProgramError::InvalidLabel));
                assert(error_models(errors@) =~= before.errors.push(
                    (line.0, ErrorModel::InvalidLabel),
                ));
            } else if resolve_label(label.0.as_str(), &label_map).is_err() {
                label_map.push((label.0.clone(), #[verifier::truncate] (label.1 as isize)));
                assert(label_table(label_map@) =~= before.table.push(
                    (label.0@, label.1 as isize),
                ));
            } else {
                errors.push((line.0, ParseProgramError::DuplicateLabel(label.0.clone())));
                assert(error_models(errors@) =~= before.errors.push(
                    (line.0, ErrorModel::DuplicateLabel(label.0@)),
                ));
            }
        }
        i += 1;
    }
    let ghost labels = label_pass(models, lines@.len());
    let mut j: usize = 0;
    while j < lines.len()
        invariant
            j <= lines.len(),
            models == line_models(lines@),
            labels == label_pass(models, lines@.len()),
            label_table(label_map@) == labels.table,
            instructions@ == instruction_pass(models, labels.table, j as nat).instructions,
            error_models(errors@) == labels.errors + instruction_pass(
                models,
                labels.table,
                j as nat,
            ).errors,
        decreases lines.len() - j,
    {
        let ghost before = instruction_pass(models, labels.table, j as nat);
        let line = &lines[j];
        assert(models[j as int] == line@);
        if line.2.len() > 0 {
            let operands = slice_subrange(line.2.as_slice(), 1, line.2.len());
            assert(texts(operands@) =~= texts(line.2@).skip(1));
            assert(texts(line.2@)[0] == line.2@[0]@);
            match parse_instruction(line.2[0].as_str(), operands, &label_map) {
                Ok(instruction) => instructions.push(instruction),
                Err(err) => {
                    let ghost had = errors@;
                    let ghost e = err@;
                    errors.push((line.0, err));
                    assert(error_models(errors@) =~= error_models(had).push((line.0, e)));
                    assert(error_models(errors@) =~= labels.errors + before.errors.push(
                        (line.0, e),
                    ));
                },
            }
        }
        j += 1;
    }
    if errors.len() > 0 {
        Err(errors)
    } else {
        Ok(instructions)
    }
}

/// Makes a program of its text. Where the text has errors, the result lists
/// them all, each with the number of its line.
pub fn parse_program(src: &str) -> (r: Result<Program, ProgramErrors>)
    ensures
        match r {
            Ok(program) => spec_parse_program(src@) == Ok::<
                Seq<Instruction>,
                Seq<(usize, ErrorModel)>,
            >(program@),
            Err(errors) => spec_parse_program(src@) == Err::<
                Seq<Instruction>,
                Seq<(usize, ErrorModel)>,
            >(error_models(errors@)),
        },
{
    let lines = lex_program(src);
    parse_lines(&lines)
}

} // verus!
