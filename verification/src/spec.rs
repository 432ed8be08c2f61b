//! Puzzles: which node sits where, and which streams go in and out.

use crate::machine::{
    grid, grid_insert, grid_new, models, AnyNode, Machine, NodeModel, Tis100, INPUT_0, NUM_INPUTS,
    NUM_NODES, NUM_OUTPUTS,
};
use crate::image::{colors_of, Picture};
use crate::node::exec::ExecState;
use crate::node::stack::StackState;
use crate::node::test::{ImageProbe, InputState, OutputState};
use crate::node::{
    BasicExecutionNode, DamagedExecutionNode, Node, StackMemoryNode, TestImageNode, TestInputNode,
    TestOutputNode,
};
use crate::save::{programs, save_get, Save};
use crate::types::Instruction;
use vec_map::VecMap;
use vstd::prelude::*;

verus! {

/// The number that stands for an input stream.
pub const STREAM_INPUT: u32 = 0;

/// The number that stands for an output stream.
pub const STREAM_OUTPUT: u32 = 1;

/// The number that stands for an image stream.
pub const STREAM_IMAGE: u32 = 2;

/// The number that stands for a node that runs a program.
pub const TILE_COMPUTE: u32 = 0;

/// The number that stands for a stack node.
pub const TILE_MEMORY: u32 = 1;

/// The number that stands for a node that is out of order.
pub const TILE_DAMAGED: u32 = 2;

/// The width of the picture of an image stream.
pub const IMAGE_WIDTH: usize = 30;

/// The height of the picture of an image stream.
pub const IMAGE_HEIGHT: usize = 18;

/// How many streams a puzzle can have.
pub const MAX_STREAMS: usize = 8;

/// What sits at a place of the grid.
#[derive(Debug, PartialEq, Eq, Clone, Copy, Structural)]
pub enum Tile {
    Compute,
    Memory,
    Damaged,
}

/// What a stream is for.
#[derive(Debug, PartialEq, Eq, Clone, Copy, Structural)]
pub enum StreamKind {
    Input,
    Output,
    Image,
}

/// Why a puzzle could not be loaded.
#[derive(Debug, PartialEq, Eq, Clone, Copy, Structural)]
pub enum SpecError {
    SeedRandomFailed,
    ReadFileFailed,
    GetLayoutFailed,
    GetStreamsFailed,
}

/// The tile that the number `code` stands for, if it stands for one.
pub open spec fn spec_tile_of(code: u32) -> Option<Tile> {
    if code == TILE_COMPUTE {
        Some(Tile::Compute)
    } else if code == TILE_MEMORY {
        Some(Tile::Memory)
    } else if code == TILE_DAMAGED {
        Some(Tile::Damaged)
    } else {
        None
    }
}

/// Returns the tile that the number `code` stands for, if it stands for one.
pub fn tile_of(code: u32) -> (r: Option<Tile>)
    ensures
        r == spec_tile_of(code),
{
    if code == TILE_COMPUTE {
        Some(Tile::Compute)
    } else if code == TILE_MEMORY {
        Some(Tile::Memory)
    } else if code == TILE_DAMAGED {
        Some(Tile::Damaged)
    } else {
        None
    }
}

/// The kind of stream that the number `code` stands for, if it stands for
/// one.
pub open spec fn spec_stream_kind_of(code: u32) -> Option<StreamKind> {
    if code == STREAM_INPUT {
        Some(StreamKind::Input)
    } else if code == STREAM_OUTPUT {
        Some(StreamKind::Output)
    } else if code == STREAM_IMAGE {
        Some(StreamKind::Image)
    } else {
        None
    }
}

/// Returns the kind of stream that the number `code` stands for, if it
/// stands for one.
pub fn stream_kind_of(code: u32) -> (r: Option<StreamKind>)
    ensures
        r == spec_stream_kind_of(code),
{
    if code == STREAM_INPUT {
        Some(StreamKind::Input)
    } else if code == STREAM_OUTPUT {
        Some(StreamKind::Output)
    } else if code == STREAM_IMAGE {
        Some(StreamKind::Image)
    } else {
        None
    }
}

/// A stream as a puzzle file gives it: the number of its kind, its name, the
/// input or output it is tied to, and its values.
#[derive(Debug)]
pub struct RawStream {
    pub kind: u32,
    pub name: String,
    pub node: u32,
    pub data: Vec<i32>,
}

/// A stream of test values, tied to one input or output of the machine.
#[derive(Debug)]
pub struct Stream {
    kind: StreamKind,
    name: String,
    node: usize,
    data: Vec<isize>,
}

/// A stream as a mathematical value.
#[verifier::ext_equal]
pub ghost struct StreamModel {
    pub kind: StreamKind,
    pub name: Seq<char>,
    pub node: usize,
    pub data: Seq<isize>,
}

impl StreamModel {
    /// Whether the machine has a place for the stream: an input stream is
    /// tied to one of the inputs, any other to one of the outputs, and an
    /// image stream has a value for every pixel.
    pub open spec fn fits(self) -> bool {
        match self.kind {
            StreamKind::Input => self.node < NUM_INPUTS,
            StreamKind::Output => self.node < NUM_OUTPUTS,
            StreamKind::Image => self.node < NUM_OUTPUTS && self.data.len() == IMAGE_WIDTH
                * IMAGE_HEIGHT,
        }
    }
}

impl View for Stream {
    type V = StreamModel;

    closed spec fn view(&self) -> StreamModel {
        StreamModel { kind: self.kind, name: self.name@, node: self.node, data: self.data@ }
    }
}

/// The values of a raw stream as machine values.
pub open spec fn widened(data: Seq<i32>) -> Seq<isize> {
    Seq::new(data.len(), |i: int| data[i] as isize)
}

/// The stream that a raw stream stands for, if its kind is known and the
/// machine has a place for it.
pub open spec fn spec_stream_of(raw: RawStream) -> Option<StreamModel> {
    match spec_stream_kind_of(raw.kind) {
        Some(kind) => {
            let stream = StreamModel {
                kind,
                name: raw.name@,
                node: raw.node as usize,
                data: widened(raw.data@),
            };
            if stream.fits() {
                Some(stream)
            } else {
                None
            }
        },
        None => None,
    }
}

/// Makes the stream that a raw stream stands for, if its kind is known and
/// the machine has a place for it.
pub fn stream_of(raw: &RawStream) -> (r: Option<Stream>)
    ensures
        r is Some <==> spec_stream_of(*raw) is Some,
        r is Some ==> r->0@ == spec_stream_of(*raw)->0,
{
    let kind = match stream_kind_of(raw.kind) {
        Some(kind) => kind,
        None => {
            return None;
        },
    };
    let node = raw.node as usize;
    let mut data: Vec<isize> = Vec::with_capacity(raw.data.len());
    let mut i: usize = 0;
    while i < raw.data.len()
        invariant
            i <= raw.data.len(),
            data@ == widened(raw.data@.take(i as int)),
        decreases raw.data.len() - i,
    {
        data.push(raw.data[i] as isize);
        assert(raw.data@.take(i + 1) == raw.data@.take(i as int).push(raw.data@[i as int]));
        i += 1;
    }
    assert(raw.data@.take(raw.data@.len() as int) == raw.data@);
    let fits = match kind {
        StreamKind::Input => node < NUM_INPUTS,
        StreamKind::Output => node < NUM_OUTPUTS,
        StreamKind::Image => node < NUM_OUTPUTS && data.len() == IMAGE_WIDTH * IMAGE_HEIGHT,
    };
    if fits {
        Some(Stream { kind: kind, name: raw.name.clone(), node: node, data: data })
    } else {
        None
    }
}

/// The tiles that the numbers in `codes` stand for, if there are as many as
/// the grid has nodes and each stands for a tile.
pub open spec fn spec_layout_of(codes: Seq<u32>) -> Option<Seq<Tile>> {
    if codes.len() == NUM_NODES && (forall|i: int|
        0 <= i < codes.len() ==> spec_tile_of(#[trigger] codes[i]) is Some) {
        Some(Seq::new(codes.len(), |i: int| spec_tile_of(codes[i])->0))
    } else {
        None
    }
}

/// The streams that the first eight of the raw streams stand for, if each of
/// them stands for one.
pub open spec fn spec_streams_of(raws: Seq<RawStream>) -> Option<Seq<StreamModel>> {
    let n = if raws.len() < MAX_STREAMS {
        raws.len()
    } else {
        MAX_STREAMS as nat
    };
    if forall|i: int| 0 <= i < n ==> spec_stream_of(#[trigger] raws[i]) is Some {
        Some(Seq::new(n, |i: int| spec_stream_of(raws[i])->0))
    } else {
        None
    }
}

/// The node that a tile puts on the grid: an execution node with the
/// program that the save has for the place, if it has one; a stack node; or
/// a node out of order.
pub open spec fn node_for(tile: Tile, program: Option<Seq<Instruction>>) -> NodeModel {
    match tile {
        Tile::Compute => NodeModel::Exec(
            ExecState::fresh(
                match program {
                    Some(p) => p,
                    None => Seq::empty(),
                },
            ),
        ),
        Tile::Memory => NodeModel::Stack(StackState { stack: Seq::empty(), read_index: None }),
        Tile::Damaged => NodeModel::Damaged,
    }
}

/// The node that checks the stream `s`, an output or an image stream.
pub open spec fn probe_for(s: StreamModel) -> NodeModel {
    match s.kind {
        StreamKind::Image => NodeModel::Image(
            ImageProbe {
                expected: Picture::showing(colors_of(s.data), IMAGE_WIDTH, IMAGE_HEIGHT),
                drawn: Picture::blank(IMAGE_WIDTH, IMAGE_HEIGHT),
            },
        ),
        _ => NodeModel::Output(OutputState { expected: s.data, results: Seq::empty() }),
    }
}

/// A puzzle as a mathematical value.
#[verifier::ext_equal]
pub ghost struct SpecModel {
    /// The programs, by place.
    pub save: Map<usize, Seq<Instruction>>,
    /// What sits at each place of the grid, in the order of the places.
    pub layout: Seq<Tile>,
    /// The streams, in the order in which the puzzle lists them.
    pub streams: Seq<StreamModel>,
}

impl SpecModel {
    /// What holds of every puzzle: its layout covers the grid or is empty,
    /// and the machine has a place for each of its streams.
    pub open spec fn wf(self) -> bool {
        &&& self.layout.len() == 0 || self.layout.len() == NUM_NODES
        &&& forall|i: int| 0 <= i < self.streams.len() ==> (#[trigger] self.streams[i]).fits()
    }

    /// The machine `m` with the nodes of the first `upto` tiles put on it.
    pub open spec fn place_tiles(self, m: Machine, upto: nat) -> Machine
        decreases upto,
    {
        if upto == 0 {
            m
        } else {
            let i = (upto - 1) as usize;
            self.place_tiles(m, (upto - 1) as nat).add_node(
                i,
                node_for(self.layout[i as int], crate::vmap::lookup(self.save, i)),
            )
        }
    }

    /// The machine `m` with an input node for each input stream among the
    /// first `upto` streams, at the input that the stream is tied to.
    pub open spec fn place_inputs(self, m: Machine, upto: nat) -> Machine
        decreases upto,
    {
        if upto == 0 {
            m
        } else {
            let s = self.streams[upto - 1];
            let before = self.place_inputs(m, (upto - 1) as nat);
            if s.kind == StreamKind::Input {
                before.add_node(
                    (s.node + INPUT_0) as usize,
                    NodeModel::Input(InputState { data: s.data, blocked: false }),
                )
            } else {
                before
            }
        }
    }

    /// The machine `m` set up for the puzzle: the nodes of the layout on the
    /// grid, then the input nodes at the inputs.
    pub open spec fn setup(self, m: Machine) -> Machine {
        self.place_inputs(self.place_tiles(m, self.layout.len()), self.streams.len())
    }

    /// The nodes that check the output and image streams among the first
    /// `upto` streams, each at the output that its stream is tied to. Where
    /// two streams are tied to one output, the later one has it.
    pub open spec fn tests_upto(self, upto: nat) -> Map<usize, NodeModel>
        decreases upto,
    {
        if upto == 0 {
            Map::empty()
        } else {
            let s = self.streams[upto - 1];
            let before = self.tests_upto((upto - 1) as nat);
            if s.kind == StreamKind::Input {
                before
            } else {
                before.insert(s.node, probe_for(s))
            }
        }
    }

    /// The nodes that check the output and image streams of the puzzle.
    pub open spec fn tests(self) -> Map<usize, NodeModel> {
        self.tests_upto(self.streams.len())
    }
}

/// A puzzle: the programs to run, the layout of the grid, and the streams
/// that feed the machine and check what it puts out.
#[derive(Debug)]
pub struct Spec {
    save: Save,
    layout: Vec<Tile>,
    streams: Vec<Stream>,
}

/// The streams in `streams` as mathematical values.
pub open spec fn stream_models(streams: Seq<Stream>) -> Seq<StreamModel> {
    Seq::new(streams.len(), |i: int| streams[i]@)
}

impl View for Spec {
    type V = SpecModel;

    closed spec fn view(&self) -> SpecModel {
        SpecModel {
            save: programs(self.save),
            layout: self.layout@,
            streams: stream_models(self.streams@),
        }
    }
}

impl Spec {
    /// Makes a puzzle from what a puzzle file holds: the numbers of the
    /// tiles, if the file has a layout, and its streams, if it has any. The
    /// result is `GetLayoutFailed` where there is a layout that does not have
    /// twelve tiles or has a number that stands for none; else
    /// `GetStreamsFailed` where one of the first eight streams is of no known
    /// kind or has no place on the machine. Streams after the eighth are left
    /// out.
    #[verifier::loop_isolation(false)]
    pub fn from_tables(save: Save, layout: Option<Vec<u32>>, streams: Option<Vec<RawStream>>) -> (r:
        Result<Spec, SpecError>)
        ensures
            match r {
                Ok(spec) => {
                    &&& layout is Some ==> spec_layout_of(layout->0@) is Some
                    &&& streams is Some ==> spec_streams_of(streams->0@) is Some
                    &&& spec@ == (SpecModel {
                        save: programs(save),
                        layout: if layout is Some {
                            spec_layout_of(layout->0@)->0
                        } else {
                            Seq::empty()
                        },
                        streams: if streams is Some {
                            spec_streams_of(streams->0@)->0
                        } else {
                            Seq::empty()
                        },
                    })
                    &&& spec@.wf()
                },
                Err(e) => if layout is Some && spec_layout_of(layout->0@) is None {
                    e == SpecError::GetLayoutFailed
                } else {
                    e == SpecError::GetStreamsFailed && streams is Some && spec_streams_of(
                        streams->0@,
                    ) is None
                },
            },
    {
        let mut tiles: Vec<Tile> = Vec::new();
        if let Some(codes) = &layout {
            let mut i: usize = 0;
            while i < codes.len()
                invariant
                    i <= codes.len(),
                    tiles@.len() == i,
                    forall|k: int| 0 <= k < i ==> spec_tile_of(#[trigger] codes@[k]) == Some(tiles@[k]),
                decreases codes.len() - i,
            {
                match tile_of(codes[i]) {
                    Some(tile) => tiles.push(tile),
                    None => {
                        assert(spec_tile_of(codes@[i as int]) is None);
                        return Err(SpecError::GetLayoutFailed);
                    },
                }
                i += 1;
            }
            if tiles.len() != NUM_NODES {
                return Err(SpecError::GetLayoutFailed);
            }
            assert(tiles@ =~= spec_layout_of(codes@)->0);
        }
        let mut list: Vec<Stream> = Vec::new();
        if let Some(raws) = &streams {
            let n = if raws.len() < MAX_STREAMS {
                raws.len()
            } else {
                MAX_STREAMS
            };
            let mut i: usize = 0;
            while i < n
                invariant
                    i <= n <= raws.len(),
                    n <= MAX_STREAMS,
                    list@.len() == i,
                    forall|k: int|
                        0 <= k < i ==> spec_stream_of(#[trigger] raws@[k]) == Some(list@[k]@),
                decreases n - i,
            {
                match stream_of(&raws[i]) {
                    Some(stream) => list.push(stream),
                    None => {
                        assert(spec_stream_of(raws@[i as int]) is None);
                        return Err(SpecError::GetStreamsFailed);
                    },
                }
                i += 1;
            }
            assert(stream_models(list@) =~= spec_streams_of(raws@)->0);
        }
        let spec = Spec { save: save, layout: tiles, streams: list };
        assert(spec@.streams =~= stream_models(list@));
        Ok(spec)
    }

    /// Puts the nodes of the puzzle on the machine: one for each tile of the
    /// layout, then one for each input stream.
    pub fn setup(&mut self, cpu: &mut Tis100)
        requires
            old(self)@.wf(),
            old(cpu)@.wf(),
        ensures
            final(self)@ == old(self)@,
            final(cpu)@ == old(self)@.setup(old(cpu)@),
            final(cpu)@.wf(),
    {
        let mut index: usize = 0;
        while index < self.layout.len()
            invariant
                index <= self.layout.len(),
                self@ == old(self)@,
                self@.wf(),
                cpu@.wf(),
                cpu@ == self@.place_tiles(old(cpu)@, index as nat),
            decreases self.layout.len() - index,
        {
            let node = match self.layout[index] {
                Tile::Compute => match save_get(&self.save, index) {
                    Some(prog) => AnyNode::Exec(BasicExecutionNode::with_program(prog)),
                    None => AnyNode::Exec(BasicExecutionNode::new()),
                },
                Tile::Memory => AnyNode::Stack(StackMemoryNode::new()),
                Tile::Damaged => AnyNode::Damaged(DamagedExecutionNode),
            };
            cpu.add_node(index, node);
            index += 1;
        }
        let ghost placed = cpu@;
        let mut i: usize = 0;
        while i < self.streams.len()
            invariant
                i <= self.streams.len(),
                self@ == old(self)@,
                self@.wf(),
                cpu@.wf(),
                cpu@ == self@.place_inputs(placed, i as nat),
            decreases self.streams.len() - i,
        {
            let stream = &self.streams[i];
            assert(self@.streams[i as int] == stream@);
            assert(self@.streams[i as int].fits());
            if let StreamKind::Input = stream.kind {
                cpu.add_node(
                    stream.node + INPUT_0,
                    AnyNode::Input(TestInputNode::with_data(&stream.data)),
                );
            }
            i += 1;
        }
    }

    /// Makes the nodes that check the output and image streams of the
    /// puzzle, each at the output that its stream is tied to.
    pub fn tests(&self) -> (tests: VecMap<AnyNode>)
        requires
            self@.wf(),
        ensures
            models(grid(tests)) == self@.tests(),
            forall|k: usize| #[trigger]
                grid(tests).contains_key(k) ==> k < NUM_OUTPUTS && grid(tests)[k].inv(),
    {
        let mut tests = grid_new();
        let mut i: usize = 0;
        while i < self.streams.len()
            invariant
                i <= self.streams.len(),
                self@.wf(),
                models(grid(tests)) =~= self@.tests_upto(i as nat),
                forall|k: usize| #[trigger]
                    grid(tests).contains_key(k) ==> k < NUM_OUTPUTS && grid(tests)[k].inv(),
            decreases self.streams.len() - i,
        {
            let stream = &self.streams[i];
            assert(self@.streams[i as int] == stream@);
            assert(self@.streams[i as int].fits());
            match stream.kind {
                StreamKind::Input => (),
                StreamKind::Output => {
                    grid_insert(
                        &mut tests,
                        stream.node,
                        AnyNode::Output(TestOutputNode::with_data(&stream.data)),
                    );
                },
                StreamKind::Image => {
                    grid_insert(
                        &mut tests,
                        stream.node,
                        AnyNode::Image(
                            TestImageNode::with_data(&stream.data, IMAGE_WIDTH, IMAGE_HEIGHT),
                        ),
                    );
                },
            }
            i += 1;
        }
        tests
    }
}

} // verus!
