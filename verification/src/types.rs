//! The instruction set: ports, registers, operands and instructions.

use crate::text::{parse_signed, same_text, signed_number};
use std::str::FromStr;
use vstd::prelude::*;

verus! {

/// One of the four directions in which a node talks to a neighbour.
#[derive(Debug, PartialEq, Eq, Clone, Copy, Hash, Structural)]
pub enum Port {
    UP,
    DOWN,
    LEFT,
    RIGHT,
}

/// The direction that faces `port`.
pub open spec fn spec_opposite_port(port: Port) -> Port {
    match port {
        Port::UP => Port::DOWN,
        Port::DOWN => Port::UP,
        Port::LEFT => Port::RIGHT,
        Port::RIGHT => Port::LEFT,
    }
}

/// Returns the direction that faces `port`.
pub fn opposite_port(port: Port) -> (r: Port)
    ensures
        r == spec_opposite_port(port),
{
    match port {
        Port::UP => Port::DOWN,
        Port::DOWN => Port::UP,
        Port::LEFT => Port::RIGHT,
        Port::RIGHT => Port::LEFT,
    }
}

/// Turning round twice gives the direction one started with.
pub proof fn lemma_opposite_twice(port: Port)
    ensures
        spec_opposite_port(spec_opposite_port(port)) == port,
{
}

/// A port, or one of the two names that stand for a port chosen at run time.
#[derive(Debug, PartialEq, Eq, Clone, Copy, Structural)]
pub enum IoRegister {
    /// The port in a given direction.
    DIR(Port),
    /// Whichever port answers first.
    ANY,
    /// The port that the last successful read from a port went through.
    LAST,
}

/// A place a value can be moved to or taken from.
#[derive(Debug, PartialEq, Eq, Clone, Copy, Structural)]
pub enum Register {
    /// The accumulator.
    ACC,
    /// Reads as zero, swallows what is written.
    NIL,
    /// A port.
    IO(IoRegister),
}

/// The operand an instruction takes its value from.
#[derive(Debug, PartialEq, Eq, Clone, Copy, Structural)]
pub enum Source {
    /// A number written in the program.
    VAL(isize),
    /// The content of a register.
    REG(Register),
}

/// One instruction. A jump names the index of the instruction it goes to.
#[derive(Debug, PartialEq, Eq, Clone, Copy, Structural)]
pub enum Instruction {
    Nop,
    Mov(Source, Register),
    Swp,
    Sav,
    Add(Source),
    Sub(Source),
    Neg,
    Jmp(isize),
    Jez(isize),
    Jnz(isize),
    Jgz(isize),
    Jlz(isize),
    Jro(Source),
}

/// The instructions of one node, in order.
pub type Program = Vec<Instruction>;

/// The error for a text that names no port.
#[derive(Debug, PartialEq, Eq, Clone, Copy, Structural)]
pub struct ParsePortError;

/// The error for a text that names no port, `ANY` or `LAST`.
#[derive(Debug, PartialEq, Eq, Clone, Copy, Structural)]
pub struct ParseIoRegisterError;

/// The error for a text that names no register.
#[derive(Debug, PartialEq, Eq, Clone, Copy, Structural)]
pub struct ParseRegisterError;

/// The error for a text that is neither a number nor a register.
#[derive(Debug, PartialEq, Eq, Clone, Copy, Structural)]
pub struct ParseSourceError;

/// The port that a text names: `UP`, `DOWN`, `LEFT` or `RIGHT`, in capitals.
pub open spec fn spec_parse_port(s: Seq<char>) -> Option<Port> {
    if s == "UP"@ {
        Some(Port::UP)
    } else if s == "DOWN"@ {
        Some(Port::DOWN)
    } else if s == "LEFT"@ {
        Some(Port::LEFT)
    } else if s == "RIGHT"@ {
        Some(Port::RIGHT)
    } else {
        None
    }
}

/// The port register that a text names: `ANY`, `LAST`, or a port.
pub open spec fn spec_parse_io_register(s: Seq<char>) -> Option<IoRegister> {
    if s == "ANY"@ {
        Some(IoRegister::ANY)
    } else if s == "LAST"@ {
        Some(IoRegister::LAST)
    } else {
        match spec_parse_port(s) {
            Some(port) => Some(IoRegister::DIR(port)),
            None => None,
        }
    }
}

/// The register that a text names: `ACC`, `NIL`, or a port register.
pub open spec fn spec_parse_register(s: Seq<char>) -> Option<Register> {
    if s == "ACC"@ {
        Some(Register::ACC)
    } else if s == "NIL"@ {
        Some(Register::NIL)
    } else {
        match spec_parse_io_register(s) {
            Some(reg) => Some(Register::IO(reg)),
            None => None,
        }
    }
}

/// The operand that a text names: the number it spells, or else the
/// register it names.
pub open spec fn spec_parse_source(s: Seq<char>) -> Option<Source> {
    match signed_number(s) {
        Some(val) => Some(Source::VAL(val)),
        None => match spec_parse_register(s) {
            Some(reg) => Some(Source::REG(reg)),
            None => None,
        },
    }
}

/// Reads the name of a port.
pub fn parse_port(s: &str) -> (r: Result<Port, ParsePortError>)
    ensures
        r == (match spec_parse_port(s@) {
            Some(port) => Ok::<Port, ParsePortError>(port),
            None => Err(ParsePortError),
        }),
{
    if same_text(s, "UP") {
        Ok(Port::UP)
    } else if same_text(s, "DOWN") {
        Ok(Port::DOWN)
    } else if same_text(s, "LEFT") {
        Ok(Port::LEFT)
    } else if same_text(s, "RIGHT") {
        Ok(Port::RIGHT)
    } else {
        Err(ParsePortError)
    }
}

/// Reads the name of a port register.
pub fn parse_io_register(s: &str) -> (r: Result<IoRegister, ParseIoRegisterError>)
    ensures
        r == (match spec_parse_io_register(s@) {
            Some(reg) => Ok::<IoRegister, ParseIoRegisterError>(reg),
            None => Err(ParseIoRegisterError),
        }),
{
    if same_text(s, "ANY") {
        Ok(IoRegister::ANY)
    } else if same_text(s, "LAST") {
        Ok(IoRegister::LAST)
    } else if let Ok(port) = parse_port(s) {
        Ok(IoRegister::DIR(port))
    } else {
        Err(ParseIoRegisterError)
    }
}

/// Reads the name of a register.
pub fn parse_register(s: &str) -> (r: Result<Register, ParseRegisterError>)
    ensures
        r == (match spec_parse_register(s@) {
            Some(reg) => Ok::<Register, ParseRegisterError>(reg),
            None => Err(ParseRegisterError),
        }),
{
    if same_text(s, "ACC") {
        Ok(Register::ACC)
    } else if same_text(s, "NIL") {
        Ok(Register::NIL)
    } else if let Ok(reg) = parse_io_register(s) {
        Ok(Register::IO(reg))
    } else {
        Err(ParseRegisterError)
    }
}

/// Reads an operand: a number, or the name of a register.
pub fn parse_source(s: &str) -> (r: Result<Source, ParseSourceError>)
    ensures
        r == (match spec_parse_source(s@) {
            Some(src) => Ok::<Source, ParseSourceError>(src),
            None => Err(ParseSourceError),
        }),
{
    if let Some(val) = parse_signed(s) {
        Ok(Source::VAL(val))
    } else if let Ok(register) = parse_register(s) {
        Ok(Source::REG(register))
    } else {
        Err(ParseSourceError)
    }
}

impl FromStr for Port {
    type Err = ParsePortError;

    /// Reads the name of a port: the same as [`parse_port`].
    fn from_str(s: &str) -> (r: Result<Self, Self::Err>)
        ensures
            r == (match spec_parse_port(s@) {
                Some(value) => Ok::<Port, ParsePortError>(value),
                None => Err(ParsePortError),
            }),
    {
        parse_port(s)
    }
}

impl FromStr for IoRegister {
    type Err = ParseIoRegisterError;

    /// Reads the name of a port register: the same as [`parse_io_register`].
    fn from_str(s: &str) -> (r: Result<Self, Self::Err>)
        ensures
            r == (match spec_parse_io_register(s@) {
                Some(value) => Ok::<IoRegister, ParseIoRegisterError>(value),
                None => Err(ParseIoRegisterError),
            }),
    {
        parse_io_register(s)
    }
}

impl FromStr for Register {
    type Err = ParseRegisterError;

    /// Reads the name of a register: the same as [`parse_register`].
    fn from_str(s: &str) -> (r: Result<Self, Self::Err>)
        ensures
            r == (match spec_parse_register(s@) {
                Some(value) => Ok::<Register, ParseRegisterError>(value),
                None => Err(ParseRegisterError),
            }),
    {
        parse_register(s)
    }
}

impl FromStr for Source {
    type Err = ParseSourceError;

    /// Reads an operand: the same as [`parse_source`].
    fn from_str(s: &str) -> (r: Result<Self, Self::Err>)
        ensures
            r == (match spec_parse_source(s@) {
                Some(value) => Ok::<Source, ParseSourceError>(value),
                None => Err(ParseSourceError),
            }),
    {
        parse_source(s)
    }
}

} // verus!
