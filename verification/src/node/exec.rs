//! The node that runs a program.

use super::Node;
use crate::io::{Fabric, IoBusView, NodeId};
use crate::types::{Instruction, IoRegister, Port, Program, Register, Source};
use vstd::prelude::*;

verus! {

/// A node that is out of order: it does nothing, ever.
#[derive(Debug)]
pub struct DamagedExecutionNode;

impl Node for DamagedExecutionNode {
    open spec fn inv(&self) -> bool {
        true
    }

    /// Changes nothing.
    fn step(&mut self, io: &mut IoBusView)
        ensures
            final(io).fabric() == old(io).fabric(),
    {
    }

    /// Changes nothing.
    fn sync(&mut self, io: &mut IoBusView)
        ensures
            final(io).fabric() == old(io).fabric(),
    {
    }

    /// Always stalled.
    fn is_stalled(&self) -> (r: bool)
        ensures
            r,
    {
        true
    }
}

/// Another name for a node that is out of order.
pub type CorruptedNode = DamagedExecutionNode;

/// What an execution node is doing.
#[derive(Debug, PartialEq, Eq, Clone, Copy, Structural)]
pub enum Mode {
    /// It has not run an instruction yet.
    Idle,
    /// It ran its last instruction to the end.
    Run,
    /// It waits for a value to arrive on a port.
    Read,
    /// It waits for a neighbour to take the value it wrote.
    Wrte,
}

/// The value `value` brought into the range of a register, -999 to 999.
pub open spec fn spec_clamp_value(value: isize) -> isize {
    if value > 999 {
        999isize
    } else if value < -999 {
        (-999) as isize
    } else {
        value
    }
}

/// Brings a value into the range of a register, -999 to 999.
pub fn clamp_value(value: isize) -> (r: isize)
    ensures
        r == spec_clamp_value(value),
        -999 <= r <= 999,
{
    if value > 999 {
        999
    } else if value < -999 {
        -999
    } else {
        value
    }
}

/// The machine integer nearest to `x`.
pub open spec fn saturate(x: int) -> isize {
    if x > isize::MAX {
        isize::MAX
    } else if x < isize::MIN {
        isize::MIN
    } else {
        x as isize
    }
}

/// The index that a jump to `target` lands on in a program of `len`
/// instructions: the target itself where it names an instruction, else the
/// nearest index that does. In an empty program it is 0.
pub open spec fn clamp_pc(target: int, len: nat) -> usize {
    if target <= 0 || len == 0 {
        0
    } else if target >= len {
        (len - 1) as usize
    } else {
        target as usize
    }
}

/// The state of an execution node as a mathematical value.
#[verifier::ext_equal]
pub ghost struct ExecState {
    pub program: Seq<Instruction>,
    pub pc: usize,
    pub mode: Mode,
    pub acc: isize,
    pub bak: isize,
    pub last: Option<Port>,
}

/// An execution node and the bus, taken together.
#[verifier::ext_equal]
pub ghost struct Scene {
    pub node: ExecState,
    pub bus: Fabric,
}

impl ExecState {
    /// A node that was just made, running `program`.
    pub open spec fn fresh(program: Seq<Instruction>) -> ExecState {
        ExecState { program, pc: 0, mode: Mode::Idle, acc: 0, bak: 0, last: None }
    }

    /// Whether the program counter names an instruction, or is 0 in an empty
    /// program.
    pub open spec fn pc_in_range(self) -> bool {
        self.pc == 0 || self.pc < self.program.len()
    }

    /// The node with the program counter moved on by one, back to 0 after
    /// the last instruction.
    pub open spec fn advance(self) -> ExecState {
        ExecState {
            pc: if self.pc + 1 >= self.program.len() {
                0
            } else {
                (self.pc + 1) as usize
            },
            ..self
        }
    }

    /// The node after a jump to `target`.
    pub open spec fn jump(self, target: int) -> ExecState {
        ExecState { pc: clamp_pc(target, self.program.len()), ..self }
    }

    /// Whether the node makes no progress.
    pub open spec fn is_stalled(self) -> bool {
        self.mode != Mode::Run
    }
}

/// What reading port `port` gives node `id`, and what it leaves behind: on a
/// value, the bus after the read and the port remembered as the last one
/// read; on none, everything as it was.
pub open spec fn spec_read_port(s: ExecState, f: Fabric, id: NodeId, port: Port) -> (
    Option<isize>,
    Scene,
) {
    match f.read_value(id, port) {
        Some(v) => (
            Some(v),
            Scene { node: ExecState { last: Some(port), ..s }, bus: f.read(id, port) },
        ),
        None => (None, Scene { node: s, bus: f }),
    }
}

/// What reading from any port gives node `id`: the value of the first port
/// that has one, in the order left, right, up, down.
pub open spec fn spec_read_any(s: ExecState, f: Fabric, id: NodeId) -> (Option<isize>, Scene) {
    if f.read_value(id, Port::LEFT) is Some {
        spec_read_port(s, f, id, Port::LEFT)
    } else if f.read_value(id, Port::RIGHT) is Some {
        spec_read_port(s, f, id, Port::RIGHT)
    } else if f.read_value(id, Port::UP) is Some {
        spec_read_port(s, f, id, Port::UP)
    } else {
        spec_read_port(s, f, id, Port::DOWN)
    }
}

/// What the operand `src` gives node `id`, and the node and the bus after the
/// read. Where a port has no value to give, the result is `None` and the node
/// is in mode `Read`.
pub open spec fn spec_read(s: ExecState, f: Fabric, id: NodeId, src: Source) -> (
    Option<isize>,
    Scene,
) {
    let (val, after) = match src {
        Source::VAL(v) => (Some(v), Scene { node: s, bus: f }),
        Source::REG(Register::ACC) => (Some(s.acc), Scene { node: s, bus: f }),
        Source::REG(Register::NIL) => (Some(0isize), Scene { node: s, bus: f }),
        Source::REG(Register::IO(IoRegister::DIR(port))) => spec_read_port(s, f, id, port),
        Source::REG(Register::IO(IoRegister::ANY)) => spec_read_any(s, f, id),
        Source::REG(Register::IO(IoRegister::LAST)) => match s.last {
            Some(port) => spec_read_port(s, f, id, port),
            None => (Some(0isize), Scene { node: s, bus: f }),
        },
    };
    if val is Some {
        (val, after)
    } else {
        (None, Scene { node: ExecState { mode: Mode::Read, ..after.node }, bus: after.bus })
    }
}

/// The node and the bus after node `id` wrote `value` to `dst`. A write to a
/// port leaves the node in mode `Wrte`; a write to `ACC` or `NIL` does not
/// touch the mode.
pub open spec fn spec_write(s: ExecState, f: Fabric, id: NodeId, dst: Register, value: isize)
    -> Scene {
    match dst {
        Register::ACC => Scene { node: ExecState { acc: value, ..s }, bus: f },
        Register::NIL => Scene { node: s, bus: f },
        Register::IO(reg) => Scene {
            node: ExecState { mode: Mode::Wrte, ..s },
            bus: match reg {
                IoRegister::DIR(port) => f.write(id, port, value),
                IoRegister::ANY => f.write(id, Port::UP, value).write(id, Port::DOWN, value).write(
                    id,
                    Port::LEFT,
                    value,
                ).write(id, Port::RIGHT, value),
                IoRegister::LAST => match s.last {
                    Some(port) => f.write(id, port, value),
                    None => f,
                },
            },
        },
    }
}

/// The node and the bus after node `id` evaluated `instruction`, before the
/// program counter moves on.
pub open spec fn spec_eval(s: ExecState, f: Fabric, id: NodeId, instruction: Instruction)
    -> Scene {
    match instruction {
        Instruction::Nop => Scene { node: s, bus: f },
        Instruction::Mov(src, dst) => {
            let (val, after) = spec_read(s, f, id, src);
            match val {
                Some(v) => spec_write(after.node, after.bus, id, dst, spec_clamp_value(v)),
                None => after,
            }
        },
        Instruction::Swp => Scene { node: ExecState { acc: s.bak, bak: s.acc, ..s }, bus: f },
        Instruction::Sav => Scene { node: ExecState { bak: s.acc, ..s }, bus: f },
        Instruction::Add(src) => {
            let (val, after) = spec_read(s, f, id, src);
            match val {
                Some(v) => Scene {
                    node: ExecState { acc: saturate(after.node.acc + v), ..after.node },
                    bus: after.bus,
                },
                None => after,
            }
        },
        Instruction::Sub(src) => {
            let (val, after) = spec_read(s, f, id, src);
            match val {
                Some(v) => Scene {
                    node: ExecState { acc: saturate(after.node.acc - v), ..after.node },
                    bus: after.bus,
                },
                None => after,
            }
        },
        Instruction::Neg => Scene { node: ExecState { acc: saturate(-s.acc), ..s }, bus: f },
        Instruction::Jmp(target) => Scene { node: s.jump(target as int), bus: f },
        Instruction::Jez(target) => Scene {
            node: if s.acc == 0 {
                s.jump(target as int)
            } else {
                s
            },
            bus: f,
        },
        Instruction::Jnz(target) => Scene {
            node: if s.acc != 0 {
                s.jump(target as int)
            } else {
                s
            },
            bus: f,
        },
        Instruction::Jgz(target) => Scene {
            node: if s.acc > 0 {
                s.jump(target as int)
            } else {
                s
            },
            bus: f,
        },
        Instruction::Jlz(target) => Scene {
            node: if s.acc < 0 {
                s.jump(target as int)
            } else {
                s
            },
            bus: f,
        },
        Instruction::Jro(src) => {
            let (val, after) = spec_read(s, f, id, src);
            match val {
                Some(off) => Scene { node: after.node.jump(after.node.pc + off), bus: after.bus },
                None => after,
            }
        },
    }
}

/// The node and the bus after one step of node `id`. A node that waits for a
/// reader, or whose program counter names no instruction, does nothing.
/// Otherwise the node evaluates the instruction at the program counter, in
/// mode `Run`, and moves on to the next one if it is still in that mode.
pub open spec fn spec_step(s: ExecState, f: Fabric, id: NodeId) -> Scene {
    if s.mode != Mode::Wrte && s.pc < s.program.len() {
        let after = spec_eval(ExecState { mode: Mode::Run, ..s }, f, id, s.program[s.pc as int]);
        if after.node.mode == Mode::Run {
            Scene { node: after.node.advance(), bus: after.bus }
        } else {
            after
        }
    } else {
        Scene { node: s, bus: f }
    }
}

/// The node after the end of a cycle: a node that waited for a reader and is
/// no longer blocked runs again and moves on to the next instruction.
pub open spec fn spec_sync(s: ExecState, f: Fabric, id: NodeId) -> ExecState {
    if s.mode == Mode::Wrte && !f.is_blocked(id) {
        ExecState { mode: Mode::Run, ..s }.advance()
    } else {
        s
    }
}

/// Runs a program, one instruction a cycle. A cycle is a call of `step`,
/// then one of `sync`.
#[derive(Debug)]
pub struct BasicExecutionNode {
    program: Program,
    pc: usize,
    mode: Mode,
    acc: isize,
    bak: isize,
    last: Option<Port>,
}

impl View for BasicExecutionNode {
    type V = ExecState;

    closed spec fn view(&self) -> ExecState {
        ExecState {
            program: self.program@,
            pc: self.pc,
            mode: self.mode,
            acc: self.acc,
            bak: self.bak,
            last: self.last,
        }
    }
}

impl BasicExecutionNode {
    /// Makes a node without a program.
    pub fn new() -> (node: BasicExecutionNode)
        ensures
            node@ == ExecState::fresh(Seq::empty()),
    {
        BasicExecutionNode {
            program: Vec::new(),
            pc: 0,
            mode: Mode::Idle,
            acc: 0,
            bak: 0,
            last: None,
        }
    }

    /// Makes a node that will run `program`.
    pub fn with_program(program: Program) -> (node: BasicExecutionNode)
        ensures
            node@ == ExecState::fresh(program@),
    {
        let mut node = BasicExecutionNode::new();
        node.set_program(program);
        node
    }

    /// Replaces the program. Registers, mode and program counter stay.
    pub fn set_program(&mut self, program: Program)
        ensures
            final(self)@ == (ExecState { program: program@, ..old(self)@ }),
    {
        self.program = program;
    }

    /// What the node is doing.
    pub fn get_mode(&self) -> (mode: &Mode)
        ensures
            *mode == self@.mode,
    {
        &self.mode
    }

    /// The accumulator.
    pub fn acc(&self) -> (r: isize)
        ensures
            r == self@.acc,
    {
        self.acc
    }

    /// The backup register.
    pub fn bak(&self) -> (r: isize)
        ensures
            r == self@.bak,
    {
        self.bak
    }

    /// The index of the instruction that runs next.
    pub fn pc(&self) -> (r: usize)
        ensures
            r == self@.pc,
    {
        self.pc
    }

    /// The port that the last successful read from a port went through.
    pub fn last(&self) -> (r: Option<Port>)
        ensures
            r == self@.last,
    {
        self.last
    }

    /// Moves the program counter on by one, back to 0 after the last
    /// instruction.
    fn inc_pc(&mut self)
        ensures
            final(self)@ == old(self)@.advance(),
    {
        let len = self.program.len();
        if self.pc < len && self.pc + 1 < len {
            self.pc += 1;
        } else {
            self.pc = 0;
        }
    }

    /// Jumps to the instruction at index `pc`, or to the nearest there is.
    fn set_pc(&mut self, pc: isize)
        ensures
            final(self)@ == old(self)@.jump(pc as int),
    {
        let len = self.program.len();
        if pc < 0 || len == 0 {
            self.pc = 0;
        } else if pc as usize >= len {
            self.pc = len - 1;
        } else {
            self.pc = pc as usize;
        }
    }

    /// Jumps `offset` instructions away from the current one, or as far as
    /// the program goes.
    fn offset_pc(&mut self, offset: isize)
        ensures
            final(self)@ == old(self)@.jump(old(self)@.pc + offset),
    {
        let len = self.program.len();
        if len == 0 {
            self.pc = 0;
        } else if offset >= 0 {
            let forward = offset as usize;
            if self.pc >= len || forward >= len - self.pc {
                self.pc = len - 1;
            } else {
                self.pc = self.pc + forward;
            }
        } else {
            let back = (-(offset + 1)) as usize;
            if self.pc <= back {
                self.pc = 0;
            } else if self.pc - back - 1 >= len {
                self.pc = len - 1;
            } else {
                self.pc = self.pc - back - 1;
            }
        }
    }

    /// The instruction at the program counter, if it names one.
    fn fetch(&mut self) -> (r: Option<Instruction>)
        ensures
            final(self)@ == old(self)@,
            r == (if old(self)@.pc < old(self)@.program.len() {
                Some(old(self)@.program[old(self)@.pc as int])
            } else {
                None
            }),
    {
        if self.pc < self.program.len() {
            Some(self.program[self.pc])
        } else {
            None
        }
    }

    /// Evaluates one instruction.
    fn eval(&mut self, instruction: Instruction, io: &mut IoBusView)
        requires
            old(io).fabric().wf(),
        ensures
            final(self)@ == spec_eval(old(self)@, old(io).fabric(), old(io).node, instruction).node,
            final(io).fabric() == spec_eval(
                old(self)@,
                old(io).fabric(),
                old(io).node,
                instruction,
            ).bus,
            final(io).fabric().wf(),
            final(io).node == old(io).node,
            *final(final(io).bus) == *final(old(io).bus),
    {
        match instruction {
            Instruction::Nop => (),
            Instruction::Mov(src, dst) => if let Some(val) = self.read(io, src) {
                let value = clamp_value(val);
                self.write(io, dst, value);
            },
            Instruction::Swp => {
                let tmp = self.bak;
                self.bak = self.acc;
                self.acc = tmp;
            },
            Instruction::Sav => self.bak = self.acc,
            Instruction::Add(src) => if let Some(val) = self.read(io, src) {
                self.acc = saturating_sum(self.acc, val);
            },
            Instruction::Sub(src) => if let Some(val) = self.read(io, src) {
                self.acc = saturating_difference(self.acc, val);
            },
            Instruction::Neg => self.acc = saturating_difference(0, self.acc),
            Instruction::Jmp(pc) => self.set_pc(pc),
            Instruction::Jez(pc) => if self.acc == 0 {
                self.set_pc(pc);
            },
            Instruction::Jnz(pc) => if self.acc != 0 {
                self.set_pc(pc);
            },
            Instruction::Jgz(pc) => if self.acc > 0 {
                self.set_pc(pc);
            },
            Instruction::Jlz(pc) => if self.acc < 0 {
                self.set_pc(pc);
            },
            Instruction::Jro(src) => if let Some(off) = self.read(io, src) {
                self.offset_pc(off);
            },
        }
    }

    /// Reads a port, and remembers it as the last one read if it gave a
    /// value.
    fn read_port(&mut self, io: &mut IoBusView, port: Port) -> (r: Option<isize>)
        requires
            old(io).fabric().wf(),
        ensures
            r == spec_read_port(old(self)@, old(io).fabric(), old(io).node, port).0,
            final(self)@ == spec_read_port(old(self)@, old(io).fabric(), old(io).node, port).1.node,
            final(io).fabric() == spec_read_port(
                old(self)@,
                old(io).fabric(),
                old(io).node,
                port,
            ).1.bus,
            final(io).fabric().wf(),
            final(io).node == old(io).node,
            *final(final(io).bus) == *final(old(io).bus),
    {
        let val = io.read(port);
        if val.is_some() {
            self.last = Some(port);
        }
        val
    }

    /// Reads the operand `src`. Without a value to read the node goes into
    /// mode `Read`.
    fn read(&mut self, io: &mut IoBusView, src: Source) -> (r: Option<isize>)
        requires
            old(io).fabric().wf(),
        ensures
            r == spec_read(old(self)@, old(io).fabric(), old(io).node, src).0,
            final(self)@ == spec_read(old(self)@, old(io).fabric(), old(io).node, src).1.node,
            final(io).fabric() == spec_read(old(self)@, old(io).fabric(), old(io).node, src).1.bus,
            final(io).fabric().wf(),
            final(io).node == old(io).node,
            *final(final(io).bus) == *final(old(io).bus),
    {
        let val = match src {
            Source::VAL(val) => Some(val),
            Source::REG(Register::ACC) => Some(self.acc),
            Source::REG(Register::NIL) => Some(0),
            Source::REG(Register::IO(IoRegister::DIR(port))) => self.read_port(io, port),
            Source::REG(Register::IO(IoRegister::ANY)) => {
                let mut found = self.read_port(io, Port::LEFT);
                if found.is_none() {
                    found = self.read_port(io, Port::RIGHT);
                }
                if found.is_none() {
                    found = self.read_port(io, Port::UP);
                }
                if found.is_none() {
                    found = self.read_port(io, Port::DOWN);
                }
                found
            },
            Source::REG(Register::IO(IoRegister::LAST)) => match self.last {
                Some(port) => self.read_port(io, port),
                None => Some(0),
            },
        };
        if val.is_none() {
            self.mode = Mode::Read;
        }
        val
    }

    /// Writes `value` to the register `dst`. After a write to a port the node
    /// is in mode `Wrte`.
    fn write(&mut self, io: &mut IoBusView, dst: Register, value: isize)
        requires
            old(io).fabric().wf(),
        ensures
            final(self)@ == spec_write(old(self)@, old(io).fabric(), old(io).node, dst, value).node,
            final(io).fabric() == spec_write(
                old(self)@,
                old(io).fabric(),
                old(io).node,
                dst,
                value,
            ).bus,
            final(io).fabric().wf(),
            final(io).node == old(io).node,
            *final(final(io).bus) == *final(old(io).bus),
    {
        match dst {
            Register::ACC => self.acc = value,
            Register::NIL => (),
            Register::IO(reg) => {
                match reg {
                    IoRegister::DIR(port) => io.write(port, value),
                    IoRegister::ANY => {
                        io.write(Port::UP, value);
                        io.write(Port::DOWN, value);
                        io.write(Port::LEFT, value);
                        io.write(Port::RIGHT, value);
                    },
                    IoRegister::LAST => if let Some(port) = self.last {
                        io.write(port, value);
                    },
                }
                self.mode = Mode::Wrte;
            },
        }
    }
}

/// The sum of two values, kept within the machine's integers.
fn saturating_sum(a: isize, b: isize) -> (r: isize)
    ensures
        r == saturate(a + b),
{
    match a.checked_add(b) {
        Some(sum) => sum,
        None => if b > 0 {
            isize::MAX
        } else {
            isize::MIN
        },
    }
}

/// The difference of two values, kept within the machine's integers.
fn saturating_difference(a: isize, b: isize) -> (r: isize)
    ensures
        r == saturate(a - b),
{
    match a.checked_sub(b) {
        Some(difference) => difference,
        None => if b < 0 {
            isize::MAX
        } else {
            isize::MIN
        },
    }
}

impl Node for BasicExecutionNode {
    open spec fn inv(&self) -> bool {
        true
    }

    /// Runs the next instruction, unless the node waits for a reader.
    fn step(&mut self, io: &mut IoBusView)
        ensures
            final(self)@ == spec_step(old(self)@, old(io).fabric(), old(io).node).node,
            final(io).fabric() == spec_step(old(self)@, old(io).fabric(), old(io).node).bus,
            old(self)@.pc_in_range() ==> final(self)@.pc_in_range(),
    {
        if self.mode != Mode::Wrte {
            if let Some(instruction) = self.fetch() {
                self.mode = Mode::Run;
                self.eval(instruction, io);
                if self.mode == Mode::Run {
                    self.inc_pc();
                }
            }
        }
        proof {
            if old(self)@.pc_in_range() {
                lemma_step_keeps_pc_in_range(old(self)@, old(io).fabric(), old(io).node);
            }
        }
    }

    /// Lets a node that waited for a reader run again, once what it wrote
    /// has been taken.
    fn sync(&mut self, io: &mut IoBusView)
        ensures
            final(self)@ == spec_sync(old(self)@, old(io).fabric(), old(io).node),
            final(io).fabric() == old(io).fabric(),
            old(self)@.pc_in_range() ==> final(self)@.pc_in_range(),
    {
        if self.mode == Mode::Wrte {
            if !io.is_blocked() {
                self.mode = Mode::Run;
                self.inc_pc();
            }
        }
    }

    /// A node is stalled unless it ran its last instruction to the end.
    fn is_stalled(&self) -> (r: bool)
        ensures
            r == self@.is_stalled(),
            !r <==> self@.mode == Mode::Run,
    {
        self.mode != Mode::Run
    }
}

/// Reading an operand touches neither the program nor the program counter
/// nor the registers.
pub proof fn lemma_read_frame(s: ExecState, f: Fabric, id: NodeId, src: Source)
    ensures
        spec_read(s, f, id, src).1.node.program == s.program,
        spec_read(s, f, id, src).1.node.pc == s.pc,
        spec_read(s, f, id, src).1.node.acc == s.acc,
        spec_read(s, f, id, src).1.node.bak == s.bak,
{
}

/// Writing to a register touches neither the program nor the program
/// counter.
pub proof fn lemma_write_frame(s: ExecState, f: Fabric, id: NodeId, dst: Register, value: isize)
    ensures
        spec_write(s, f, id, dst, value).node.program == s.program,
        spec_write(s, f, id, dst, value).node.pc == s.pc,
{
}

/// No instruction changes the program, and none leaves the program counter
/// off the program if it was on it.
pub proof fn lemma_eval_keeps_pc_in_range(
    s: ExecState,
    f: Fabric,
    id: NodeId,
    instruction: Instruction,
)
    requires
        s.pc_in_range(),
    ensures
        spec_eval(s, f, id, instruction).node.program == s.program,
        spec_eval(s, f, id, instruction).node.pc_in_range(),
{
    match instruction {
        Instruction::Mov(src, dst) => {
            lemma_read_frame(s, f, id, src);
            let (val, after) = spec_read(s, f, id, src);
            if let Some(v) = val {
                lemma_write_frame(after.node, after.bus, id, dst, spec_clamp_value(v));
            }
        },
        Instruction::Add(src) => {
            lemma_read_frame(s, f, id, src);
        },
        Instruction::Sub(src) => {
            lemma_read_frame(s, f, id, src);
        },
        Instruction::Jro(src) => {
            lemma_read_frame(s, f, id, src);
        },
        _ => {},
    }
}

/// A step leaves the program counter on an instruction, if it was on one.
pub proof fn lemma_step_keeps_pc_in_range(s: ExecState, f: Fabric, id: NodeId)
    requires
        s.pc_in_range(),
    ensures
        spec_step(s, f, id).node.program == s.program,
        spec_step(s, f, id).node.pc_in_range(),
{
    if s.mode != Mode::Wrte && s.pc < s.program.len() {
        lemma_eval_keeps_pc_in_range(
            ExecState { mode: Mode::Run, ..s },
            f,
            id,
            s.program[s.pc as int],
        );
    }
}

/// The end of a cycle leaves the program counter on an instruction, if it
/// was on one.
pub proof fn lemma_sync_keeps_pc_in_range(s: ExecState, f: Fabric, id: NodeId)
    requires
        s.pc_in_range(),
    ensures
        spec_sync(s, f, id).program == s.program,
        spec_sync(s, f, id).pc_in_range(),
{
}

/// Whatever a `MOV` delivers is within -999 and 999: the accumulator if that
/// is its destination, and every value it leaves pending on an edge or
/// records as waiting for a reader.
pub proof fn lemma_mov_delivers_clamped(
    s: ExecState,
    f: Fabric,
    id: NodeId,
    src: Source,
    dst: Register,
)
    ensures
        spec_read(s, f, id, src).0 is Some && dst == Register::ACC ==> -999 <= spec_eval(
            s,
            f,
            id,
            Instruction::Mov(src, dst),
        ).node.acc <= 999,
        forall|e: usize| #[trigger]
            spec_eval(s, f, id, Instruction::Mov(src, dst)).bus.pending.contains_key(e) ==> {
                let was = spec_read(s, f, id, src).1.bus.pending;
                let now = spec_eval(s, f, id, Instruction::Mov(src, dst)).bus.pending;
                (was.contains_key(e) && was[e] == now[e]) || -999 <= now[e] <= 999
            },
        forall|n: NodeId| #[trigger]
            spec_eval(s, f, id, Instruction::Mov(src, dst)).bus.blocks.contains_key(n) ==> {
                let was = spec_read(s, f, id, src).1.bus.blocks;
                let now = spec_eval(s, f, id, Instruction::Mov(src, dst)).bus.blocks;
                (was.contains_key(n) && was[n] == now[n]) || -999 <= now[n] <= 999
            },
{
    let (val, after) = spec_read(s, f, id, src);
    if let Some(v) = val {
        let value = spec_clamp_value(v);
        let b = after.bus;
        let up = b.write(id, Port::UP, value);
        let down = up.write(id, Port::DOWN, value);
        let left = down.write(id, Port::LEFT, value);
        let right = left.write(id, Port::RIGHT, value);
        assert(-999 <= value <= 999);
    }
}

/// `MOV NIL NIL` does nothing but pass the turn: the node runs, the program
/// counter moves on by one, and registers and bus are as they were.
pub proof fn lemma_mov_nil_nil_passes(s: ExecState, f: Fabric, id: NodeId)
    requires
        s.mode != Mode::Wrte,
        s.pc < s.program.len(),
        s.program[s.pc as int] == Instruction::Mov(Source::REG(Register::NIL), Register::NIL),
    ensures
        spec_step(s, f, id).node == (ExecState { mode: Mode::Run, ..s }).advance(),
        spec_step(s, f, id).bus == f,
{
}

/// Where a jump leaves the program counter depends on its target alone, so
/// taking the same jump twice leaves the node as taking it once does.
pub proof fn lemma_jump_twice(s: ExecState, f: Fabric, id: NodeId, target: isize)
    ensures
        ({
            let once = spec_eval(s, f, id, Instruction::Jmp(target)).node.advance();
            spec_eval(once, f, id, Instruction::Jmp(target)).node.advance() == once
        }),
        spec_eval(s, f, id, Instruction::Jmp(target)).bus == f,
{
}

/// A node without a program does nothing: a step changes neither the node
/// nor the bus, so a node that was idle stays idle, and stalled.
pub proof fn lemma_empty_program_idles(s: ExecState, f: Fabric, id: NodeId)
    requires
        s.program.len() == 0,
    ensures
        spec_step(s, f, id).node == s,
        spec_step(s, f, id).bus == f,
        s.mode == Mode::Idle ==> spec_sync(s, f, id) == s && s.is_stalled(),
{
}

/// A read from `LAST` before any port was read gives 0 at once: it blocks
/// nothing and changes nothing.
pub proof fn lemma_last_unset_reads_zero(s: ExecState, f: Fabric, id: NodeId)
    requires
        s.last is None,
    ensures
        spec_read(s, f, id, Source::REG(Register::IO(IoRegister::LAST))).0 == Some(0isize),
        spec_read(s, f, id, Source::REG(Register::IO(IoRegister::LAST))).1.node == s,
        spec_read(s, f, id, Source::REG(Register::IO(IoRegister::LAST))).1.bus == f,
{
}

/// `ADD` does not clamp: the accumulator takes the sum as it is, as long as a
/// machine integer can hold it.
pub proof fn lemma_add_does_not_clamp(s: ExecState, f: Fabric, id: NodeId, v: isize)
    requires
        isize::MIN <= s.acc + v <= isize::MAX,
    ensures
        spec_eval(s, f, id, Instruction::Add(Source::VAL(v))).node.acc == s.acc + v,
{
}

} // verus!
