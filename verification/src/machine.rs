//! The machine: twelve nodes on a grid, wired to each other, to four inputs
//! above and to four outputs below.

use crate::io::{Fabric, IoBus, IoBusView, NodeId};
use crate::node::exec::{spec_step, spec_sync, ExecState};
use crate::node::stack::{spec_stack_step, spec_stack_sync, StackState};
use crate::node::test::{
    spec_image_step, spec_input_step, spec_input_sync, spec_output_step, ImageProbe, InputState,
    OutputState,
};
use crate::node::{
    BasicExecutionNode, DamagedExecutionNode, Node, StackMemoryNode, TestImageNode, TestInputNode,
    TestNode, TestOutputNode, TestState,
};
use crate::save::{programs, save_get, Save};
use crate::spec::Spec;
use crate::types::{Instruction, Port};
use crate::vmap::{lookup, KEY_LIMIT};
use vec_map::VecMap;
use vstd::prelude::*;

verus! {

/// The number of nodes on the grid: three rows of four.
pub const NUM_NODES: usize = 12;

/// The number of inputs above the top row.
pub const NUM_INPUTS: usize = 4;

/// The place of input 0, above column 0 of the grid.
pub const INPUT_0: usize = 12;

/// The place of input 1, above column 1 of the grid.
pub const INPUT_1: usize = 13;

/// The place of input 2, above column 2 of the grid.
pub const INPUT_2: usize = 14;

/// The place of input 3, above column 3 of the grid.
pub const INPUT_3: usize = 15;

/// The number of outputs below the bottom row.
pub const NUM_OUTPUTS: usize = 4;

/// The place of output 0, below column 0 of the grid.
pub const OUTPUT_0: usize = 16;

/// The place of output 1, below column 1 of the grid.
pub const OUTPUT_1: usize = 17;

/// The place of output 2, below column 2 of the grid.
pub const OUTPUT_2: usize = 18;

/// The place of output 3, below column 3 of the grid.
pub const OUTPUT_3: usize = 19;

/// The number of places on the bus: the grid, the inputs and the outputs.
pub const NUM_PLACES: usize = 20;

/// Any of the nodes that can sit in a machine.
#[derive(Debug)]
pub enum AnyNode {
    Exec(BasicExecutionNode),
    Stack(StackMemoryNode),
    Damaged(DamagedExecutionNode),
    Input(TestInputNode),
    Output(TestOutputNode),
    Image(TestImageNode),
}

/// The state of any node as a mathematical value.
#[verifier::ext_equal]
pub ghost enum NodeModel {
    Exec(ExecState),
    Stack(StackState),
    Damaged,
    Input(InputState),
    Output(OutputState),
    Image(ImageProbe),
}

/// A node and the bus, taken together.
#[verifier::ext_equal]
pub ghost struct NodeScene {
    pub node: NodeModel,
    pub bus: Fabric,
}

impl NodeModel {
    /// What holds of the node between calls.
    pub open spec fn inv(self) -> bool {
        match self {
            NodeModel::Stack(s) => s.read_index is Some ==> s.read_index->0 < s.stack.len(),
            NodeModel::Image(p) => p.expected.wf() && p.drawn.wf(),
            _ => true,
        }
    }

    /// The node and the bus after one step of the node, as node `id`.
    pub open spec fn step(self, f: Fabric, id: NodeId) -> NodeScene {
        match self {
            NodeModel::Exec(s) => NodeScene {
                node: NodeModel::Exec(spec_step(s, f, id).node),
                bus: spec_step(s, f, id).bus,
            },
            NodeModel::Stack(s) => NodeScene {
                node: NodeModel::Stack(spec_stack_step(s, f, id).node),
                bus: spec_stack_step(s, f, id).bus,
            },
            NodeModel::Damaged => NodeScene { node: self, bus: f },
            NodeModel::Input(s) => NodeScene {
                node: NodeModel::Input(spec_input_step(s, f, id).node),
                bus: spec_input_step(s, f, id).bus,
            },
            NodeModel::Output(s) => NodeScene {
                node: NodeModel::Output(spec_output_step(s, f, id).node),
                bus: spec_output_step(s, f, id).bus,
            },
            NodeModel::Image(s) => NodeScene {
                node: NodeModel::Image(spec_image_step(s, f, id).node),
                bus: spec_image_step(s, f, id).bus,
            },
        }
    }

    /// The node after the end of a cycle, as node `id`. The bus is not
    /// changed.
    pub open spec fn sync(self, f: Fabric, id: NodeId) -> NodeModel {
        match self {
            NodeModel::Exec(s) => NodeModel::Exec(spec_sync(s, f, id)),
            NodeModel::Stack(s) => NodeModel::Stack(spec_stack_sync(s, f, id)),
            NodeModel::Input(s) => NodeModel::Input(spec_input_sync(s, f, id)),
            _ => self,
        }
    }

    /// Whether the node makes no progress: every node but an execution node
    /// that ran its last instruction to the end.
    pub open spec fn is_stalled(self) -> bool {
        match self {
            NodeModel::Exec(s) => s.is_stalled(),
            _ => true,
        }
    }

    /// The state of a node that checks output. Every other node has
    /// passed.
    pub open spec fn state(self) -> TestState {
        match self {
            NodeModel::Output(s) => s.state(),
            NodeModel::Image(s) => s.state(),
            _ => TestState::Passed,
        }
    }
}

impl View for AnyNode {
    type V = NodeModel;

    open spec fn view(&self) -> NodeModel {
        match self {
            AnyNode::Exec(n) => NodeModel::Exec(n@),
            AnyNode::Stack(n) => NodeModel::Stack(n@),
            AnyNode::Damaged(_) => NodeModel::Damaged,
            AnyNode::Input(n) => NodeModel::Input(n@),
            AnyNode::Output(n) => NodeModel::Output(n@),
            AnyNode::Image(n) => NodeModel::Image(n@),
        }
    }
}

impl Node for AnyNode {
    open spec fn inv(&self) -> bool {
        self@.inv()
    }

    /// Does this cycle's work, as the node inside does it.
    fn step(&mut self, io: &mut IoBusView)
        ensures
            final(self)@ == old(self)@.step(old(io).fabric(), old(io).node).node,
            final(io).fabric() == old(self)@.step(old(io).fabric(), old(io).node).bus,
    {
        match self {
            AnyNode::Exec(n) => n.step(io),
            AnyNode::Stack(n) => n.step(io),
            AnyNode::Damaged(n) => n.step(io),
            AnyNode::Input(n) => n.step(io),
            AnyNode::Output(n) => n.step(io),
            AnyNode::Image(n) => n.step(io),
        }
    }

    /// Finishes the cycle, as the node inside does it.
    fn sync(&mut self, io: &mut IoBusView)
        ensures
            final(self)@ == old(self)@.sync(old(io).fabric(), old(io).node),
            final(io).fabric() == old(io).fabric(),
    {
        match self {
            AnyNode::Exec(n) => n.sync(io),
            AnyNode::Stack(n) => n.sync(io),
            AnyNode::Damaged(n) => n.sync(io),
            AnyNode::Input(n) => n.sync(io),
            AnyNode::Output(n) => n.sync(io),
            AnyNode::Image(n) => n.sync(io),
        }
    }

    /// Tells whether the node makes no progress.
    fn is_stalled(&self) -> (r: bool)
        ensures
            r == self@.is_stalled(),
    {
        match self {
            AnyNode::Exec(n) => n.is_stalled(),
            AnyNode::Stack(n) => n.is_stalled(),
            AnyNode::Damaged(n) => n.is_stalled(),
            AnyNode::Input(n) => n.is_stalled(),
            AnyNode::Output(n) => n.is_stalled(),
            AnyNode::Image(n) => n.is_stalled(),
        }
    }
}

impl TestNode for AnyNode {
    /// The state of a node that checks output; `Passed` for any other.
    fn state(&self) -> (r: TestState)
        ensures
            r == self@.state(),
    {
        match self {
            AnyNode::Output(n) => n.state(),
            AnyNode::Image(n) => n.state(),
            _ => TestState::Passed,
        }
    }
}

/// The nodes that a `VecMap<AnyNode>` holds, by place.
pub uninterp spec fn grid(m: VecMap<AnyNode>) -> Map<usize, AnyNode>;

/// `VecMap::new`: the new map holds no node.
#[verifier::external_body]
pub(crate) fn grid_new() -> (res: VecMap<AnyNode>)
    ensures
        grid(res) =~= Map::empty(),
{
    VecMap::new()
}

/// `VecMap::insert`: puts `node` at place `key`, in place of any node that
/// was there. The other places keep their nodes.
#[verifier::external_body]
pub(crate) fn grid_insert(m: &mut VecMap<AnyNode>, key: usize, node: AnyNode)
    requires
        key < KEY_LIMIT,
    ensures
        grid(*final(m)) == grid(*old(m)).insert(key, node),
{
    m.insert(key, node);
}

/// `VecMap::remove`: takes the node at place `key` out of the map and
/// returns it, if there is one. The other places keep their nodes.
#[verifier::external_body]
pub(crate) fn grid_remove(m: &mut VecMap<AnyNode>, key: usize) -> (was: Option<AnyNode>)
    ensures
        grid(*final(m)) == grid(*old(m)).remove(key),
        was == lookup(grid(*old(m)), key),
{
    m.remove(key)
}

/// `VecMap::get`: the node at place `key`, if there is one. The map is not
/// changed.
#[verifier::external_body]
pub(crate) fn grid_get(m: &VecMap<AnyNode>, key: usize) -> (res: Option<&AnyNode>)
    ensures
        res is Some <==> grid(*m).contains_key(key),
        res is Some ==> *res->0 == grid(*m)[key],
{
    m.get(key)
}

/// The states of the nodes in `g`, by place.
pub open spec fn models(g: Map<usize, AnyNode>) -> Map<usize, NodeModel> {
    Map::new(|k: usize| g.contains_key(k), |k: usize| g[k]@)
}

/// The bus of a machine: each node of the grid wired both ways to its right
/// and its lower neighbour, the four inputs wired down into the top row, and
/// the bottom row wired down into the four outputs.
pub open spec fn wired() -> Fabric {
    Fabric::empty().connect_full(0, 1, Port::RIGHT).connect_full(1, 2, Port::RIGHT).connect_full(
        2,
        3,
        Port::RIGHT,
    ).connect_full(4, 5, Port::RIGHT).connect_full(5, 6, Port::RIGHT).connect_full(
        6,
        7,
        Port::RIGHT,
    ).connect_full(8, 9, Port::RIGHT).connect_full(9, 10, Port::RIGHT).connect_full(
        10,
        11,
        Port::RIGHT,
    ).connect_full(0, 4, Port::DOWN).connect_full(1, 5, Port::DOWN).connect_full(
        2,
        6,
        Port::DOWN,
    ).connect_full(3, 7, Port::DOWN).connect_full(4, 8, Port::DOWN).connect_full(
        5,
        9,
        Port::DOWN,
    ).connect_full(6, 10, Port::DOWN).connect_full(7, 11, Port::DOWN).connect_half(
        INPUT_0,
        0,
        Port::DOWN,
    ).connect_half(INPUT_1, 1, Port::DOWN).connect_half(INPUT_2, 2, Port::DOWN).connect_half(
        INPUT_3,
        3,
        Port::DOWN,
    ).connect_half(8, OUTPUT_0, Port::DOWN).connect_half(9, OUTPUT_1, Port::DOWN).connect_half(
        10,
        OUTPUT_2,
        Port::DOWN,
    ).connect_half(11, OUTPUT_3, Port::DOWN)
}

/// A machine as a mathematical value.
#[verifier::ext_equal]
pub ghost struct Machine {
    /// The nodes, by place.
    pub nodes: Map<usize, NodeModel>,
    /// The bus.
    pub bus: Fabric,
    /// For how many cycles in a row every node has been stalled.
    pub stalled: usize,
}

impl Machine {
    /// What holds of every machine: the bus is well formed and has every
    /// place on it, and every node sits at a place and is well formed.
    pub open spec fn wf(self) -> bool {
        &&& self.bus.wf()
        &&& forall|id: usize| id < NUM_PLACES ==> self.bus.nodes.contains_key(id)
        &&& forall|id: usize| #[trigger]
            self.nodes.contains_key(id) ==> id < NUM_PLACES && self.nodes[id].inv()
    }

    /// The machine with `node` at place `index`, in place of any node there.
    pub open spec fn add_node(self, index: usize, node: NodeModel) -> Machine {
        Machine { nodes: self.nodes.insert(index, node), ..self }
    }

    /// The machine after the node at place `id`, if there is one, took its
    /// step.
    pub open spec fn step_node(self, id: usize) -> Machine {
        if self.nodes.contains_key(id) {
            let after = self.nodes[id].step(self.bus, id);
            Machine { nodes: self.nodes.insert(id, after.node), bus: after.bus, ..self }
        } else {
            self
        }
    }

    /// The machine after the nodes at the places from `from` up to, but not
    /// including, `to` took their steps, one after the other.
    pub open spec fn step_range(self, from: usize, to: usize) -> Machine
        decreases to - from,
    {
        if from >= to {
            self
        } else {
            self.step_node(from).step_range((from + 1) as usize, to)
        }
    }

    /// The machine after every node took its step: first the nodes at the
    /// inputs and outputs, then the nodes of the grid, each group in the
    /// order of the places.
    pub open spec fn step(self) -> Machine {
        self.step_range(NUM_NODES, NUM_PLACES).step_range(0, NUM_NODES)
    }

    /// The machine after the node at place `id`, if there is one, finished
    /// the cycle.
    pub open spec fn sync_node(self, id: usize) -> Machine {
        if self.nodes.contains_key(id) {
            Machine { nodes: self.nodes.insert(id, self.nodes[id].sync(self.bus, id)), ..self }
        } else {
            self
        }
    }

    /// The machine after the nodes at the places from `from` up to, but not
    /// including, `to` finished the cycle.
    pub open spec fn sync_range(self, from: usize, to: usize) -> Machine
        decreases to - from,
    {
        if from >= to {
            self
        } else {
            self.sync_node(from).sync_range((from + 1) as usize, to)
        }
    }

    /// Whether every node at a place below `bound` is stalled.
    pub open spec fn stalled_below(self, bound: usize) -> bool {
        forall|id: usize|
            id < bound && #[trigger] self.nodes.contains_key(id) ==> self.nodes[id].is_stalled()
    }

    /// Whether every node is stalled.
    pub open spec fn all_stalled(self) -> bool {
        self.stalled_below(NUM_PLACES)
    }

    /// The machine after every node finished the cycle, in the order of the
    /// places. If every node is stalled then, that is one more stalled cycle
    /// in a row; if one is not, the count starts again.
    pub open spec fn sync(self) -> Machine {
        let m = self.sync_range(0, NUM_PLACES);
        Machine {
            stalled: if m.all_stalled() {
                if m.stalled < usize::MAX {
                    (m.stalled + 1) as usize
                } else {
                    m.stalled
                }
            } else {
                0
            },
            ..m
        }
    }

    /// The machine after the bus committed what was written.
    pub open spec fn commit(self) -> Machine {
        Machine { bus: self.bus.commit(), ..self }
    }

    /// Whether the machine is stuck: every node has been stalled for two
    /// cycles in a row or more.
    pub open spec fn is_deadlocked(self) -> bool {
        self.stalled > 1
    }

    /// The machine after one whole cycle: every node steps, every node
    /// finishes, the bus commits.
    pub open spec fn cycle(self) -> Machine {
        self.step().sync().commit()
    }
}

/// A well-formed node put at a place of a well-formed machine leaves the
/// machine well formed.
pub proof fn lemma_add_node_wf(m: Machine, index: usize, node: NodeModel)
    requires
        m.bus.wf(),
        forall|id: usize| id < NUM_PLACES ==> m.bus.nodes.contains_key(id),
        forall|id: usize| #[trigger]
            m.nodes.contains_key(id) && id != index ==> id < NUM_PLACES && m.nodes[id].inv(),
        index < NUM_PLACES,
        node.inv(),
    ensures
        m.add_node(index, node).wf(),
{
    let n = m.add_node(index, node);
    assert forall|id: usize| #[trigger] n.nodes.contains_key(id) implies id < NUM_PLACES
        && n.nodes[id].inv() by {
        if id != index {
            assert(m.nodes.contains_key(id));
        }
    }
}

/// After the node at place `id` finished the cycle, the nodes up to and with
/// it are all stalled if and only if those before it were and it is.
proof fn lemma_stalled_below_next(m: Machine, id: usize)
    requires
        id < NUM_PLACES,
    ensures
        m.sync_node(id).stalled_below((id + 1) as usize) == (m.stalled_below(id) && (m.sync_node(
            id,
        ).nodes.contains_key(id) ==> m.sync_node(id).nodes[id].is_stalled())),
{
    let n = m.sync_node(id);
    let next = (id + 1) as usize;
    if n.stalled_below(next) {
        assert forall|k: usize| k < id && #[trigger] m.nodes.contains_key(k) implies m.nodes[k].is_stalled() by {
            assert(n.nodes.contains_key(k));
        }
        if n.nodes.contains_key(id) {
            assert(n.nodes[id].is_stalled());
        }
    }
    if m.stalled_below(id) && (n.nodes.contains_key(id) ==> n.nodes[id].is_stalled()) {
        assert forall|k: usize| k < next && #[trigger] n.nodes.contains_key(k) implies n.nodes[k].is_stalled() by {
            if k != id {
                assert(m.nodes.contains_key(k));
            }
        }
    }
}

/// The twelve-node machine, without any node in it yet.
#[derive(Debug)]
pub struct Tis100 {
    nodes: VecMap<AnyNode>,
    bus: IoBus,
    stalled: usize,
}

impl View for Tis100 {
    type V = Machine;

    closed spec fn view(&self) -> Machine {
        Machine { nodes: models(grid(self.nodes)), bus: self.bus.fabric(), stalled: self.stalled }
    }
}

impl Tis100 {
    /// Makes a machine with its bus wired and no node on it.
    pub fn new() -> (cpu: Tis100)
        ensures
            cpu@ == (Machine { nodes: Map::empty(), bus: wired(), stalled: 0 }),
            cpu@.wf(),
    {
        let mut tis100 = Tis100 { nodes: grid_new(), bus: IoBus::new(), stalled: 0 };
        tis100.setup();
        tis100
    }

    /// Wires the bus.
    fn setup(&mut self)
        requires
            old(self).bus.fabric() == Fabric::empty(),
        ensures
            final(self).bus.fabric() == wired(),
            final(self).bus.fabric().wf(),
            forall|id: usize| id < NUM_PLACES ==> final(self).bus.fabric().nodes.contains_key(id),
            final(self).nodes == old(self).nodes,
            final(self).stalled == old(self).stalled,
    {
        proof {
            crate::io::lemma_empty_wf();
        }
        self.bus.connect_full(0, 1, Port::RIGHT);
        self.bus.connect_full(1, 2, Port::RIGHT);
        self.bus.connect_full(2, 3, Port::RIGHT);
        self.bus.connect_full(4, 5, Port::RIGHT);
        self.bus.connect_full(5, 6, Port::RIGHT);
        self.bus.connect_full(6, 7, Port::RIGHT);
        self.bus.connect_full(8, 9, Port::RIGHT);
        self.bus.connect_full(9, 10, Port::RIGHT);
        self.bus.connect_full(10, 11, Port::RIGHT);

        self.bus.connect_full(0, 4, Port::DOWN);
        self.bus.connect_full(1, 5, Port::DOWN);
        self.bus.connect_full(2, 6, Port::DOWN);
        self.bus.connect_full(3, 7, Port::DOWN);
        self.bus.connect_full(4, 8, Port::DOWN);
        self.bus.connect_full(5, 9, Port::DOWN);
        self.bus.connect_full(6, 10, Port::DOWN);
        self.bus.connect_full(7, 11, Port::DOWN);

        self.bus.connect_half(INPUT_0, 0, Port::DOWN);
        self.bus.connect_half(INPUT_1, 1, Port::DOWN);
        self.bus.connect_half(INPUT_2, 2, Port::DOWN);
        self.bus.connect_half(INPUT_3, 3, Port::DOWN);

        self.bus.connect_half(8, OUTPUT_0, Port::DOWN);
        self.bus.connect_half(9, OUTPUT_1, Port::DOWN);
        self.bus.connect_half(10, OUTPUT_2, Port::DOWN);
        self.bus.connect_half(11, OUTPUT_3, Port::DOWN);
    }

    /// Puts `node` at place `index`, in place of any node there.
    pub fn add_node(&mut self, index: usize, node: AnyNode)
        requires
            old(self)@.wf(),
            index < NUM_PLACES,
            node.inv(),
        ensures
            final(self)@ == old(self)@.add_node(index, node@),
            final(self)@.wf(),
    {
        grid_insert(&mut self.nodes, index, node);
        proof {
            assert(self@.nodes =~= old(self)@.nodes.insert(index, node@));
            lemma_add_node_wf(old(self)@, index, node@);
        }
    }

    /// Offers `value` at input `input`, to the node below it.
    pub fn write_input(&mut self, input: usize, value: isize)
        requires
            old(self)@.wf(),
            input < NUM_INPUTS,
        ensures
            final(self)@ == (Machine {
                bus: old(self)@.bus.write((input + INPUT_0) as usize, Port::DOWN, value),
                ..old(self)@
            }),
            final(self)@.wf(),
    {
        let mut view = self.bus.view(input + INPUT_0);
        view.write(Port::DOWN, value);
    }

    /// Takes the value that the node above output `output` has on offer, if
    /// it has one.
    pub fn read_output(&mut self, output: usize) -> (r: Option<isize>)
        requires
            old(self)@.wf(),
            output < NUM_OUTPUTS,
        ensures
            r == old(self)@.bus.read_value((output + OUTPUT_0) as usize, Port::UP),
            final(self)@ == (Machine {
                bus: old(self)@.bus.read((output + OUTPUT_0) as usize, Port::UP),
                ..old(self)@
            }),
            final(self)@.wf(),
    {
        let mut view = self.bus.view(output + OUTPUT_0);
        view.read(Port::UP)
    }

    /// Lets the node at place `id`, if there is one, take its step.
    fn step_node(&mut self, id: usize)
        requires
            old(self)@.wf(),
            id < NUM_PLACES,
        ensures
            final(self)@ == old(self)@.step_node(id),
            final(self)@.wf(),
    {
        if let Some(mut node) = grid_remove(&mut self.nodes, id) {
            assert(old(self)@.nodes.contains_key(id) && old(self)@.nodes[id] == node@);
            {
                let mut view = self.bus.view(id);
                node.step(&mut view);
            }
            grid_insert(&mut self.nodes, id, node);
            proof {
                let after = old(self)@.nodes[id].step(old(self)@.bus, id);
                assert(self@.nodes =~= old(self)@.nodes.insert(id, after.node));
                lemma_add_node_wf(old(self)@, id, after.node);
            }
        } else {
            assert(!old(self)@.nodes.contains_key(id));
            assert(self@.nodes =~= old(self)@.nodes);
        }
    }

    /// Lets the nodes at the places from `from` up to `to` take their steps.
    fn step_range(&mut self, from: usize, to: usize)
        requires
            old(self)@.wf(),
            from <= to <= NUM_PLACES,
        ensures
            final(self)@ == old(self)@.step_range(from, to),
            final(self)@.wf(),
    {
        let mut id = from;
        while id < to
            invariant
                from <= id <= to <= NUM_PLACES,
                self@.wf(),
                self@.step_range(id, to) == old(self)@.step_range(from, to),
            decreases to - id,
        {
            self.step_node(id);
            id += 1;
        }
    }

    /// Lets every node take its step: first the nodes at the inputs and
    /// outputs, then the nodes of the grid.
    pub fn step(&mut self)
        requires
            old(self)@.wf(),
        ensures
            final(self)@ == old(self)@.step(),
            final(self)@.wf(),
    {
        self.step_range(NUM_NODES, NUM_PLACES);
        self.step_range(0, NUM_NODES);
    }

    /// Lets the node at place `id`, if there is one, finish the cycle, and
    /// tells whether it is stalled then. A place without a node counts as
    /// stalled.
    fn sync_node(&mut self, id: usize) -> (stalled: bool)
        requires
            old(self)@.wf(),
            id < NUM_PLACES,
        ensures
            final(self)@ == old(self)@.sync_node(id),
            final(self)@.wf(),
            stalled == (final(self)@.nodes.contains_key(id) ==> final(self)@.nodes[id].is_stalled()),
    {
        if let Some(mut node) = grid_remove(&mut self.nodes, id) {
            assert(old(self)@.nodes.contains_key(id) && old(self)@.nodes[id] == node@);
            {
                let mut view = self.bus.view(id);
                node.sync(&mut view);
            }
            let stalled = node.is_stalled();
            grid_insert(&mut self.nodes, id, node);
            proof {
                let after = old(self)@.nodes[id].sync(old(self)@.bus, id);
                assert(self@.nodes =~= old(self)@.nodes.insert(id, after));
                lemma_add_node_wf(old(self)@, id, after);
            }
            stalled
        } else {
            assert(!old(self)@.nodes.contains_key(id));
            assert(self@.nodes =~= old(self)@.nodes);
            true
        }
    }

    /// Lets every node finish the cycle, then counts the cycle as stalled or
    /// not.
    pub fn sync(&mut self)
        requires
            old(self)@.wf(),
        ensures
            final(self)@ == old(self)@.sync(),
            final(self)@.wf(),
    {
        let mut all_stalled = true;
        let mut id: usize = 0;
        while id < NUM_PLACES
            invariant
                id <= NUM_PLACES,
                self@.wf(),
                self@.sync_range(id, NUM_PLACES) == old(self)@.sync_range(0, NUM_PLACES),
                all_stalled == self@.stalled_below(id),
            decreases NUM_PLACES - id,
        {
            let ghost before = self@;
            let stalled = self.sync_node(id);
            all_stalled = all_stalled && stalled;
            proof {
                lemma_stalled_below_next(before, id);
            }
            id += 1;
        }
        if all_stalled {
            if self.stalled < usize::MAX {
                self.stalled += 1;
            }
        } else {
            self.stalled = 0;
        }
    }

    /// Lets the bus commit what was written in this cycle, for the next
    /// cycle to read.
    pub fn commit(&mut self)
        requires
            old(self)@.wf(),
        ensures
            final(self)@ == old(self)@.commit(),
            final(self)@.wf(),
    {
        self.bus.commit();
        proof {
            assert(self@.nodes =~= old(self)@.nodes);
            assert(self@.bus.nodes == old(self)@.bus.nodes);
        }
    }

    /// Tells whether the machine is stuck: every node has been stalled for
    /// two cycles in a row or more.
    pub fn is_deadlocked(&self) -> (r: bool)
        ensures
            r == self@.is_deadlocked(),
    {
        self.stalled > 1
    }

    /// The node at place `index`, if there is one.
    pub fn node(&self, index: usize) -> (r: Option<&AnyNode>)
        ensures
            r is Some <==> self@.nodes.contains_key(index),
            r is Some ==> r->0@ == self@.nodes[index],
    {
        grid_get(&self.nodes, index)
    }
}

/// The nodes of a sandbox at the places below `upto`: at each an execution
/// node, with the program that the save has for the place, or with none.
pub open spec fn sandbox_nodes(save: Map<usize, Seq<Instruction>>, upto: usize) -> Map<
    usize,
    NodeModel,
> {
    Map::new(
        |k: usize| k < upto,
        |k: usize|
            NodeModel::Exec(
                ExecState::fresh(
                    if save.contains_key(k) {
                        save[k]
                    } else {
                        Seq::empty()
                    },
                ),
            ),
    )
}

/// A machine with an execution node at every place of the grid, a console
/// that writes to the second input and one that reads from the third output.
#[derive(Debug)]
pub struct Sandbox {
    cpu: Tis100,
}

impl View for Sandbox {
    type V = Machine;

    closed spec fn view(&self) -> Machine {
        self.cpu@
    }
}

impl Sandbox {
    /// Makes a sandbox that runs the programs of `save`.
    pub fn from_save(save: &Save) -> (sandbox: Sandbox)
        ensures
            sandbox@ == (Machine {
                nodes: sandbox_nodes(programs(*save), NUM_NODES),
                bus: wired(),
                stalled: 0,
            }),
            sandbox@.wf(),
    {
        let mut sandbox = Sandbox { cpu: Tis100::new() };
        sandbox.setup(save);
        sandbox
    }

    /// Puts an execution node at every place of the grid.
    fn setup(&mut self, save: &Save)
        requires
            old(self)@.wf(),
            old(self)@.nodes == Map::<usize, NodeModel>::empty(),
        ensures
            final(self)@ == (Machine {
                nodes: sandbox_nodes(programs(*save), NUM_NODES),
                ..old(self)@
            }),
            final(self)@.wf(),
    {
        let mut node_num: usize = 0;
        while node_num < NUM_NODES
            invariant
                node_num <= NUM_NODES,
                self@.wf(),
                self@ == (Machine {
                    nodes: sandbox_nodes(programs(*save), node_num),
                    ..old(self)@
                }),
            decreases NUM_NODES - node_num,
        {
            match save_get(save, node_num) {
                Some(prog) => self.cpu.add_node(
                    node_num,
                    AnyNode::Exec(BasicExecutionNode::with_program(prog)),
                ),
                None => self.cpu.add_node(node_num, AnyNode::Exec(BasicExecutionNode::new())),
            };
            assert(self@.nodes =~= sandbox_nodes(programs(*save), (node_num + 1) as usize));
            node_num += 1;
        }
    }

    /// Runs one cycle: every node steps, every node finishes, the bus
    /// commits.
    pub fn step(&mut self)
        requires
            old(self)@.wf(),
        ensures
            final(self)@ == old(self)@.cycle(),
            final(self)@.wf(),
    {
        self.cpu.step();
        self.cpu.sync();
        self.cpu.commit();
    }

    /// Offers `value` at the console input, the second input of the machine.
    pub fn write_console(&mut self, value: isize)
        requires
            old(self)@.wf(),
        ensures
            final(self)@ == (Machine {
                bus: old(self)@.bus.write(INPUT_1, Port::DOWN, value),
                ..old(self)@
            }),
            final(self)@.wf(),
    {
        self.cpu.write_input(1, value);
    }

    /// Takes the value on offer at the console output, the third output of
    /// the machine, if there is one.
    pub fn read_console(&mut self) -> (r: Option<isize>)
        requires
            old(self)@.wf(),
        ensures
            r == old(self)@.bus.read_value(OUTPUT_2, Port::UP),
            final(self)@ == (Machine {
                bus: old(self)@.bus.read(OUTPUT_2, Port::UP),
                ..old(self)@
            }),
            final(self)@.wf(),
    {
        self.cpu.read_output(2)
    }

    /// The machine inside.
    pub fn cpu(&self) -> (r: &Tis100)
        ensures
            r@ == self@,
    {
        &self.cpu
    }
}

/// A puzzle in progress as a mathematical value.
#[verifier::ext_equal]
pub ghost struct PuzzleModel {
    /// The machine, with the input nodes on it.
    pub machine: Machine,
    /// The nodes that check the output, by the output they are tied to.
    pub tests: Map<usize, NodeModel>,
    /// How many cycles have run.
    pub cycles: usize,
}

impl PuzzleModel {
    /// What holds of every puzzle in progress: its machine is well formed,
    /// and every checking node is tied to an output and well formed.
    pub open spec fn wf(self) -> bool {
        &&& self.machine.wf()
        &&& forall|k: usize| #[trigger]
            self.tests.contains_key(k) ==> k < NUM_OUTPUTS && self.tests[k].inv()
    }

    /// The puzzle after the checking node at output `k`, if there is one,
    /// took its step.
    pub open spec fn step_test(self, k: usize) -> PuzzleModel {
        if self.tests.contains_key(k) {
            let after = self.tests[k].step(self.machine.bus, (k + OUTPUT_0) as usize);
            PuzzleModel {
                tests: self.tests.insert(k, after.node),
                machine: Machine { bus: after.bus, ..self.machine },
                ..self
            }
        } else {
            self
        }
    }

    /// The puzzle after the checking node at output `k`, if there is one,
    /// finished the cycle.
    pub open spec fn sync_test(self, k: usize) -> PuzzleModel {
        if self.tests.contains_key(k) {
            PuzzleModel {
                tests: self.tests.insert(
                    k,
                    self.tests[k].sync(self.machine.bus, (k + OUTPUT_0) as usize),
                ),
                ..self
            }
        } else {
            self
        }
    }

    /// The puzzle after one cycle: the input nodes step, then the nodes of
    /// the grid, then the checking nodes; the checking nodes finish, then the
    /// nodes of the grid, then the input nodes; the bus commits; and one more
    /// cycle is counted.
    pub open spec fn step(self) -> PuzzleModel {
        let stepped = PuzzleModel { machine: self.machine.step(), ..self };
        let tested = stepped.step_test(0).step_test(1).step_test(2).step_test(3);
        let synced = tested.sync_test(0).sync_test(1).sync_test(2).sync_test(3);
        PuzzleModel {
            machine: synced.machine.sync().commit(),
            cycles: if self.cycles < usize::MAX {
                (self.cycles + 1) as usize
            } else {
                self.cycles
            },
            ..synced
        }
    }

    /// Whether one of the checking nodes is in the state `state`.
    pub open spec fn any_says(self, state: TestState) -> bool {
        exists|k: usize| #[trigger] self.tests.contains_key(k) && self.tests[k].state() == state
    }

    /// The state of the puzzle: testing while one checking node is still
    /// testing; failed if none is and one has failed; else passed.
    pub open spec fn state(self) -> TestState {
        if self.any_says(TestState::Testing) {
            TestState::Testing
        } else if self.any_says(TestState::Failed) {
            TestState::Failed
        } else {
            TestState::Passed
        }
    }
}

/// A machine set up for a puzzle, with the nodes that check its output.
#[derive(Debug)]
pub struct Puzzle {
    cpu: Tis100,
    tests: VecMap<AnyNode>,
    cycles: usize,
}

impl View for Puzzle {
    type V = PuzzleModel;

    closed spec fn view(&self) -> PuzzleModel {
        PuzzleModel { machine: self.cpu@, tests: models(grid(self.tests)), cycles: self.cycles }
    }
}

impl Puzzle {
    /// Makes the puzzle that `spec` describes, ready for its first cycle.
    pub fn from_spec(spec: &mut Spec) -> (puzzle: Puzzle)
        requires
            old(spec)@.wf(),
        ensures
            final(spec)@ == old(spec)@,
            puzzle@ == (PuzzleModel {
                machine: old(spec)@.setup(
                    Machine { nodes: Map::empty(), bus: wired(), stalled: 0 },
                ),
                tests: old(spec)@.tests(),
                cycles: 0,
            }),
            puzzle@.wf(),
    {
        let mut cpu = Tis100::new();
        spec.setup(&mut cpu);
        let tests = spec.tests();
        let puzzle = Puzzle { cpu: cpu, tests: tests, cycles: 0 };
        proof {
            assert forall|k: usize| #[trigger] puzzle@.tests.contains_key(k) implies k
                < NUM_OUTPUTS && puzzle@.tests[k].inv() by {
                assert(grid(tests).contains_key(k));
            }
        }
        puzzle
    }

    /// Lets the checking node at output `k`, if there is one, take its step.
    fn step_test(&mut self, k: usize)
        requires
            old(self)@.wf(),
            k < NUM_OUTPUTS,
        ensures
            final(self)@ == old(self)@.step_test(k),
            final(self)@.wf(),
    {
        if let Some(mut node) = grid_remove(&mut self.tests, k) {
            assert(old(self)@.tests.contains_key(k) && old(self)@.tests[k] == node@);
            {
                let mut view = self.cpu.bus.view(k + OUTPUT_0);
                node.step(&mut view);
            }
            grid_insert(&mut self.tests, k, node);
            proof {
                let after = old(self)@.tests[k].step(old(self)@.machine.bus, (k + OUTPUT_0) as usize);
                assert(self@.tests =~= old(self)@.tests.insert(k, after.node));
                assert(self@.machine.nodes =~= old(self)@.machine.nodes);
                assert forall|j: usize| #[trigger] self@.tests.contains_key(j) implies j
                    < NUM_OUTPUTS && self@.tests[j].inv() by {
                    if j != k {
                        assert(old(self)@.tests.contains_key(j));
                    }
                }
                assert forall|id: usize| #[trigger]
                    self@.machine.nodes.contains_key(id) implies id < NUM_PLACES
                    && self@.machine.nodes[id].inv() by {
                    assert(old(self)@.machine.nodes.contains_key(id));
                }
            }
        } else {
            assert(!old(self)@.tests.contains_key(k));
            assert(self@.tests =~= old(self)@.tests);
        }
    }

    /// Lets the checking node at output `k`, if there is one, finish the
    /// cycle.
    fn sync_test(&mut self, k: usize)
        requires
            old(self)@.wf(),
            k < NUM_OUTPUTS,
        ensures
            final(self)@ == old(self)@.sync_test(k),
            final(self)@.wf(),
    {
        if let Some(mut node) = grid_remove(&mut self.tests, k) {
            assert(old(self)@.tests.contains_key(k) && old(self)@.tests[k] == node@);
            {
                let mut view = self.cpu.bus.view(k + OUTPUT_0);
                node.sync(&mut view);
            }
            grid_insert(&mut self.tests, k, node);
            proof {
                let after = old(self)@.tests[k].sync(old(self)@.machine.bus, (k + OUTPUT_0) as usize);
                assert(self@.tests =~= old(self)@.tests.insert(k, after));
                assert(self@.machine.nodes =~= old(self)@.machine.nodes);
                assert forall|j: usize| #[trigger] self@.tests.contains_key(j) implies j
                    < NUM_OUTPUTS && self@.tests[j].inv() by {
                    if j != k {
                        assert(old(self)@.tests.contains_key(j));
                    }
                }
                assert forall|id: usize| #[trigger]
                    self@.machine.nodes.contains_key(id) implies id < NUM_PLACES
                    && self@.machine.nodes[id].inv() by {
                    assert(old(self)@.machine.nodes.contains_key(id));
                }
            }
        } else {
            assert(!old(self)@.tests.contains_key(k));
            assert(self@.tests =~= old(self)@.tests);
        }
    }

    /// Runs one cycle of the machine and of the checking nodes.
    pub fn step(&mut self)
        requires
            old(self)@.wf(),
        ensures
            final(self)@ == old(self)@.step(),
            final(self)@.wf(),
    {
        self.cpu.step();
        assert(self@.tests =~= old(self)@.tests);
        self.step_test(0);
        self.step_test(1);
        self.step_test(2);
        self.step_test(3);
        self.sync_test(0);
        self.sync_test(1);
        self.sync_test(2);
        self.sync_test(3);
        let ghost synced = self@;
        self.cpu.sync();
        self.cpu.commit();
        if self.cycles < usize::MAX {
            self.cycles += 1;
        }
        proof {
            assert(self@.tests =~= synced.tests);
        }
    }

    /// The state of the puzzle so far.
    pub fn state(&self) -> (r: TestState)
        requires
            self@.wf(),
        ensures
            r == self@.state(),
    {
        let mut testing = false;
        let mut failed = false;
        let mut k: usize = 0;
        while k < NUM_OUTPUTS
            invariant
                k <= NUM_OUTPUTS,
                testing == (exists|j: usize|
                    j < k && #[trigger] self@.tests.contains_key(j) && self@.tests[j].state()
                        == TestState::Testing),
                failed == (exists|j: usize|
                    j < k && #[trigger] self@.tests.contains_key(j) && self@.tests[j].state()
                        == TestState::Failed),
            decreases NUM_OUTPUTS - k,
        {
            if let Some(node) = grid_get(&self.tests, k) {
                assert(self@.tests.contains_key(k) && self@.tests[k] == node@);
                let state = node.state();
                if state == TestState::Testing {
                    testing = true;
                }
                if state == TestState::Failed {
                    failed = true;
                }
            } else {
                assert(!self@.tests.contains_key(k));
            }
            k += 1;
        }
        proof {
            assert(testing == self@.any_says(TestState::Testing)) by {
                if self@.any_says(TestState::Testing) {
                    let j = choose|j: usize| #[trigger]
                        self@.tests.contains_key(j) && self@.tests[j].state() == TestState::Testing;
                    assert(j < NUM_OUTPUTS);
                }
            }
            assert(failed == self@.any_says(TestState::Failed)) by {
                if self@.any_says(TestState::Failed) {
                    let j = choose|j: usize| #[trigger]
                        self@.tests.contains_key(j) && self@.tests[j].state() == TestState::Failed;
                    assert(j < NUM_OUTPUTS);
                }
            }
        }
        if testing {
            TestState::Testing
        } else if failed {
            TestState::Failed
        } else {
            TestState::Passed
        }
    }

    /// Tells whether the machine is stuck.
    pub fn is_deadlocked(&self) -> (r: bool)
        ensures
            r == self@.machine.is_deadlocked(),
    {
        self.cpu.is_deadlocked()
    }

    /// How many cycles have run.
    pub fn cycles(&self) -> (r: usize)
        ensures
            r == self@.cycles,
    {
        self.cycles
    }
}

/// One node that runs is enough to keep a machine from being declared stuck:
/// if any node is not stalled at the end of a cycle, the count of stalled
/// cycles starts again.
pub proof fn lemma_running_node_resets_stall_count(m: Machine, id: usize)
    requires
        m.wf(),
        m.sync_range(0, NUM_PLACES).nodes.contains_key(id),
        id < NUM_PLACES,
        !m.sync_range(0, NUM_PLACES).nodes[id].is_stalled(),
    ensures
        m.sync().stalled == 0,
        !m.sync().is_deadlocked(),
{
}

} // verus!
