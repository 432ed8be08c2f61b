//! The port fabric: single-slot edges between nodes, written in one cycle and
//! readable in the next.

use crate::types::{opposite_port, spec_opposite_port, Port};
use crate::vmap::{
    lookup, slots, slots_clear, slots_entries, slots_get, slots_insert, slots_new, slots_remove,
    KEY_LIMIT,
};
use vec_map::VecMap;
use vstd::prelude::*;

verus! {

/// Identifies a node on the bus.
pub type NodeId = usize;

/// Identifies an edge of the bus: a one-way link between two nodes.
pub type PortId = usize;

/// One end of an edge: the edge, and the node at its other end.
#[derive(Debug, Clone, Copy)]
pub struct Connection(pub PortId, pub NodeId);

/// The edge of a connection, if there is one.
pub open spec fn edge_of(c: Option<Connection>) -> Option<PortId> {
    match c {
        Some(c) => Some(c.0),
        None => None,
    }
}

/// The node at the other end of a connection, if there is one.
pub open spec fn peer_of(c: Option<Connection>) -> Option<NodeId> {
    match c {
        Some(c) => Some(c.1),
        None => None,
    }
}

/// At most one connection for each of the four directions.
#[derive(Debug, Clone, Copy)]
pub struct Links {
    pub up: Option<Connection>,
    pub down: Option<Connection>,
    pub left: Option<Connection>,
    pub right: Option<Connection>,
}

impl Links {
    /// The table without any connection.
    pub open spec fn vacant() -> Links {
        Links { up: None, down: None, left: None, right: None }
    }

    /// The connection in direction `port`.
    pub open spec fn at(self, port: Port) -> Option<Connection> {
        match port {
            Port::UP => self.up,
            Port::DOWN => self.down,
            Port::LEFT => self.left,
            Port::RIGHT => self.right,
        }
    }

    /// The table with `c` in direction `port` and the other directions as
    /// they were.
    pub open spec fn with(self, port: Port, c: Connection) -> Links {
        match port {
            Port::UP => Links { up: Some(c), ..self },
            Port::DOWN => Links { down: Some(c), ..self },
            Port::LEFT => Links { left: Some(c), ..self },
            Port::RIGHT => Links { right: Some(c), ..self },
        }
    }

    /// Makes a table without any connection.
    pub fn new() -> (r: Links)
        ensures
            r == Links::vacant(),
    {
        Links { up: None, down: None, left: None, right: None }
    }

    /// Looks up the connection in direction `port`.
    pub fn get(&self, port: Port) -> (r: Option<Connection>)
        ensures
            r == self.at(port),
    {
        match port {
            Port::UP => self.up,
            Port::DOWN => self.down,
            Port::LEFT => self.left,
            Port::RIGHT => self.right,
        }
    }

    /// Stores `c` in direction `port`, replacing what was there.
    pub fn set(&mut self, port: Port, c: Connection)
        ensures
            *final(self) == old(self).with(port, c),
    {
        match port {
            Port::UP => self.up = Some(c),
            Port::DOWN => self.down = Some(c),
            Port::LEFT => self.left = Some(c),
            Port::RIGHT => self.right = Some(c),
        }
    }
}

/// The edges of one node: those it reads from and those it writes to, by
/// direction. An input connection names the node that writes the edge, an
/// output connection the node that reads it.
#[derive(Debug, Clone, Copy)]
pub struct PortMap {
    pub input: Links,
    pub output: Links,
}

impl PortMap {
    /// The port map of a node that is connected to nothing.
    pub open spec fn vacant() -> PortMap {
        PortMap { input: Links::vacant(), output: Links::vacant() }
    }

    /// Makes the port map of a node that is connected to nothing.
    pub fn new() -> (r: PortMap)
        ensures
            r == PortMap::vacant(),
    {
        PortMap { input: Links::new(), output: Links::new() }
    }

    /// The edges this node writes to, in the order up, down, left, right.
    pub open spec fn spec_output_edges(self) -> Seq<PortId> {
        let up = if let Some(c) = self.output.up { seq![c.0] } else { seq![] };
        let down = if let Some(c) = self.output.down { seq![c.0] } else { seq![] };
        let left = if let Some(c) = self.output.left { seq![c.0] } else { seq![] };
        let right = if let Some(c) = self.output.right { seq![c.0] } else { seq![] };
        up + down + left + right
    }

    /// Lists the edges this node writes to.
    pub fn output_edges(&self) -> (r: Vec<PortId>)
        ensures
            r@ == self.spec_output_edges(),
    {
        let mut edges: Vec<PortId> = Vec::new();
        if let Some(c) = self.output.up {
            edges.push(c.0);
        }
        if let Some(c) = self.output.down {
            edges.push(c.0);
        }
        if let Some(c) = self.output.left {
            edges.push(c.0);
        }
        if let Some(c) = self.output.right {
            edges.push(c.0);
        }
        edges
    }

    /// Records that this node reads edge `index`, written by `node`, in
    /// direction `port`.
    pub fn set_input(&mut self, port: Port, index: PortId, node: NodeId)
        ensures
            *final(self) == (PortMap {
                input: old(self).input.with(port, Connection(index, node)),
                ..*old(self)
            }),
    {
        self.input.set(port, Connection(index, node));
    }

    /// The edge this node reads in direction `port`, with its writer.
    pub fn get_input(&self, port: Port) -> (r: Option<Connection>)
        ensures
            r == self.input.at(port),
    {
        self.input.get(port)
    }

    /// Records that this node writes edge `index`, read by `node`, in
    /// direction `port`.
    pub fn set_output(&mut self, port: Port, index: PortId, node: NodeId)
        ensures
            *final(self) == (PortMap {
                output: old(self).output.with(port, Connection(index, node)),
                ..*old(self)
            }),
    {
        self.output.set(port, Connection(index, node));
    }

    /// The edge this node writes in direction `port`, with its reader.
    pub fn get_output(&self, port: Port) -> (r: Option<Connection>)
        ensures
            r == self.output.at(port),
    {
        self.output.get(port)
    }
}

/// The state of the bus as a mathematical value.
#[verifier::ext_equal]
pub ghost struct Fabric {
    /// The port map of every node that was ever connected.
    pub nodes: Map<NodeId, PortMap>,
    /// The committed slot of each edge that holds a value: what readers see.
    pub committed: Map<PortId, isize>,
    /// The values written since the last commit, by edge.
    pub pending: Map<PortId, isize>,
    /// For each node that waits for a reader, the value it last wrote.
    pub blocks: Map<NodeId, isize>,
    /// The identifier that the next new edge gets.
    pub next_edge: PortId,
}

impl Fabric {
    /// The bus without nodes, edges or values.
    pub open spec fn empty() -> Fabric {
        Fabric {
            nodes: Map::empty(),
            committed: Map::empty(),
            pending: Map::empty(),
            blocks: Map::empty(),
            next_edge: 0,
        }
    }

    /// The edge that `node` reads in direction `port`, with its writer.
    pub open spec fn input_of(self, node: NodeId, port: Port) -> Option<Connection> {
        if self.nodes.contains_key(node) {
            self.nodes[node].input.at(port)
        } else {
            None
        }
    }

    /// The edge that `node` writes in direction `port`, with its reader.
    pub open spec fn output_of(self, node: NodeId, port: Port) -> Option<Connection> {
        if self.nodes.contains_key(node) {
            self.nodes[node].output.at(port)
        } else {
            None
        }
    }

    /// Whether `edge` is one of the edges that `node` writes.
    pub open spec fn is_outbound(self, node: NodeId, edge: PortId) -> bool {
        exists|port: Port| (#[trigger] self.output_of(node, port)) matches Some(c) && c.0 == edge
    }

    /// The edges that `node` writes.
    pub open spec fn outbound(self, node: NodeId) -> Set<PortId> {
        Set::new(|edge: PortId| self.is_outbound(node, edge))
    }

    /// The bus with a port map for `node`, a vacant one if it had none.
    pub open spec fn with_node(self, node: NodeId) -> Fabric {
        if self.nodes.contains_key(node) {
            self
        } else {
            Fabric { nodes: self.nodes.insert(node, PortMap::vacant()), ..self }
        }
    }

    /// The bus after a new edge from `from` to `to`: `from` writes it in
    /// direction `port`, `to` reads it in the opposite direction. The edge
    /// gets the next free identifier, and takes the place of whatever `from`
    /// wrote and `to` read in those directions before.
    pub open spec fn connect_half(self, from: NodeId, to: NodeId, port: Port) -> Fabric {
        let both = self.with_node(from).with_node(to);
        let edge = self.next_edge;
        let source = both.nodes[from];
        let n1 = both.nodes.insert(
            from,
            PortMap { output: source.output.with(port, Connection(edge, to)), ..source },
        );
        let sink = n1[to];
        let n2 = n1.insert(
            to,
            PortMap {
                input: sink.input.with(spec_opposite_port(port), Connection(edge, from)),
                ..sink
            },
        );
        Fabric { nodes: n2, next_edge: (edge + 1) as usize, ..self }
    }

    /// The bus after an edge from `from` to `to` in direction `port` and one
    /// back from `to` to `from` in the opposite direction.
    pub open spec fn connect_full(self, from: NodeId, to: NodeId, port: Port) -> Fabric {
        self.connect_half(from, to, port).connect_half(to, from, spec_opposite_port(port))
    }

    /// Whether `from` writes to `to` in direction `port` and `to` writes back
    /// to `from` in the opposite direction.
    pub open spec fn is_connected(self, from: NodeId, to: NodeId, port: Port) -> bool {
        &&& self.output_of(from, port) matches Some(there)
        &&& self.output_of(to, spec_opposite_port(port)) matches Some(back)
        &&& there.1 == to
        &&& back.1 == from
    }

    /// The bus after `node` wrote `value` in direction `port`: the value is
    /// pending on that edge and the node waits for a reader. A node without
    /// an edge in that direction changes nothing.
    pub open spec fn write(self, node: NodeId, port: Port, value: isize) -> Fabric {
        match self.output_of(node, port) {
            Some(c) => Fabric {
                pending: self.pending.insert(c.0, value),
                blocks: self.blocks.insert(node, value),
                ..self
            },
            None => self,
        }
    }

    /// Whether `node` waits for a reader.
    pub open spec fn is_blocked(self, node: NodeId) -> bool {
        self.blocks.contains_key(node)
    }

    /// What `node` gets when it reads in direction `port`: the committed
    /// value of its input edge there, if it has such an edge and the edge
    /// holds one.
    pub open spec fn read_value(self, node: NodeId, port: Port) -> Option<isize> {
        match self.input_of(node, port) {
            Some(c) => lookup(self.committed, c.0),
            None => None,
        }
    }

    /// The bus after the offers of `node` were withdrawn: none of the edges
    /// it writes holds a committed value, and it no longer waits.
    pub open spec fn release(self, node: NodeId) -> Fabric {
        Fabric {
            committed: self.committed.remove_keys(self.outbound(node)),
            blocks: self.blocks.remove(node),
            ..self
        }
    }

    /// The bus after `node` read in direction `port`. Where the read finds a
    /// value, the edge is emptied and the writer released; where it finds
    /// none, nothing changes.
    pub open spec fn read(self, node: NodeId, port: Port) -> Fabric {
        match self.input_of(node, port) {
            Some(c) => if self.committed.contains_key(c.0) {
                Fabric { committed: self.committed.remove(c.0), ..self }.release(c.1)
            } else {
                self
            },
            None => self,
        }
    }

    /// The bus after a commit: each pending value has moved into the
    /// committed slot of its edge, over whatever was there, and nothing is
    /// pending.
    pub open spec fn commit(self) -> Fabric {
        Fabric {
            committed: self.committed.union_prefer_right(self.pending),
            pending: Map::empty(),
            ..self
        }
    }

    /// What holds of every bus that was built through its methods: node and
    /// edge identifiers are below [`KEY_LIMIT`], every edge in use has been
    /// allocated, no edge is written in two places, and an edge that a node
    /// reads is written, if by anyone, by the node recorded as its writer.
    pub open spec fn wf(self) -> bool {
        &&& self.next_edge <= KEY_LIMIT
        &&& forall|n: NodeId| self.nodes.contains_key(n) ==> n < KEY_LIMIT
        &&& forall|e: PortId| self.pending.contains_key(e) ==> e < self.next_edge
        &&& forall|n: NodeId, p: Port|
            (#[trigger] self.output_of(n, p)) matches Some(c) ==> c.0 < self.next_edge
        &&& forall|n: NodeId, p: Port|
            (#[trigger] self.input_of(n, p)) matches Some(c) ==> c.0 < self.next_edge
        &&& forall|n1: NodeId, p1: Port, n2: NodeId, p2: Port|
            edge_of(#[trigger] self.output_of(n1, p1)) is Some && edge_of(self.output_of(n1, p1))
                == edge_of(#[trigger] self.output_of(n2, p2)) ==> n1 == n2 && p1 == p2
        &&& forall|r: NodeId, p: Port, n: NodeId, q: Port|
            edge_of(#[trigger] self.input_of(r, p)) is Some && edge_of(self.input_of(r, p))
                == edge_of(#[trigger] self.output_of(n, q)) ==> peer_of(self.input_of(r, p))
                == Some(n)
    }

    /// Every node that waits for a reader has a value on offer: one of the
    /// edges it writes holds a committed or a pending value.
    pub open spec fn blocks_backed(self) -> bool {
        forall|n: NodeId| #[trigger]
            self.blocks.contains_key(n) ==> exists|e: PortId|
                self.is_outbound(n, e) && (self.committed.contains_key(e)
                    || self.pending.contains_key(e))
    }
}

/// The port maps that a `VecMap<PortMap>` holds, by node.
pub uninterp spec fn port_maps(m: VecMap<PortMap>) -> Map<usize, PortMap>;

/// `VecMap::new`: the new map holds nothing.
#[verifier::external_body]
fn port_maps_new() -> (res: VecMap<PortMap>)
    ensures
        port_maps(res) =~= Map::empty(),
{
    VecMap::new()
}

/// `VecMap::get`: the port map stored under `key`, if there is one. The map
/// is not changed.
#[verifier::external_body]
fn port_maps_get(m: &VecMap<PortMap>, key: usize) -> (res: Option<PortMap>)
    ensures
        res == lookup(port_maps(*m), key),
{
    m.get(key).copied()
}

/// `VecMap::insert`: stores `value` under `key`, replacing what was there, and
/// returns the port map replaced. The other keys keep their values.
#[verifier::external_body]
fn port_maps_insert(m: &mut VecMap<PortMap>, key: usize, value: PortMap) -> (was: Option<PortMap>)
    requires
        key < KEY_LIMIT,
    ensures
        port_maps(*final(m)) == port_maps(*old(m)).insert(key, value),
        was == lookup(port_maps(*old(m)), key),
{
    m.insert(key, value)
}

/// The edges of the first `n` entries, as a set.
pub open spec fn edge_prefix(entries: Seq<(usize, isize)>, n: int) -> Set<PortId> {
    Set::new(|e: PortId| exists|i: int| 0 <= i < n && 0 <= i < entries.len() && (#[trigger] entries[i]).0 == e)
}

/// Passes values between nodes. Nodes are connected by one-way edges; a value
/// written to an edge becomes readable after the next commit, and stays on
/// offer until one reader takes it.
#[derive(Debug)]
pub struct IoBus {
    next_index: PortId,
    ports: VecMap<isize>,
    writes: VecMap<isize>,
    write_blocks: VecMap<isize>,
    nodes: VecMap<PortMap>,
}

impl IoBus {
    /// The state of the bus as a mathematical value.
    pub closed spec fn fabric(&self) -> Fabric {
        Fabric {
            nodes: port_maps(self.nodes),
            committed: slots(self.ports),
            pending: slots(self.writes),
            blocks: slots(self.write_blocks),
            next_edge: self.next_index,
        }
    }

    /// Makes a bus without nodes or edges.
    pub fn new() -> (bus: IoBus)
        ensures
            bus.fabric() == Fabric::empty(),
            bus.fabric().wf(),
    {
        IoBus {
            next_index: 0,
            ports: slots_new(),
            writes: slots_new(),
            write_blocks: slots_new(),
            nodes: port_maps_new(),
        }
    }

    /// Adds a one-way edge from `from` to `to` in direction `port`. Nodes
    /// that the bus has not seen yet get a port map.
    pub fn connect_half(&mut self, from: NodeId, to: NodeId, port: Port) -> (bus: &mut Self)
        requires
            old(self).fabric().wf(),
            old(self).fabric().next_edge < KEY_LIMIT,
            from < KEY_LIMIT,
            to < KEY_LIMIT,
        ensures
            bus.fabric() == old(self).fabric().connect_half(from, to, port),
            bus.fabric().wf(),
            bus.fabric().next_edge == old(self).fabric().next_edge + 1,
            forall|n: NodeId|
                bus.fabric().nodes.contains_key(n) <==> old(self).fabric().nodes.contains_key(n)
                    || n == from || n == to,
            *final(bus) == *final(self),
    {
        let to_port = opposite_port(port);

        if !self.map_exists(&from) {
            self.insert_map(from);
        }
        if !self.map_exists(&to) {
            self.insert_map(to);
        }
        let mut source = port_maps_get(&self.nodes, from).unwrap();
        source.set_output(port, self.next_index, to);
        let _ = port_maps_insert(&mut self.nodes, from, source);
        let mut sink = port_maps_get(&self.nodes, to).unwrap();
        sink.set_input(to_port, self.next_index, from);
        let _ = port_maps_insert(&mut self.nodes, to, sink);
        self.next_index += 1;
        proof {
            lemma_connect_half_wf(old(self).fabric(), from, to, port);
        }
        self
    }

    /// Adds an edge from `from` to `to` in direction `port` and one from `to`
    /// back to `from` in the opposite direction.
    pub fn connect_full(&mut self, from: NodeId, to: NodeId, port: Port) -> (bus: &mut Self)
        requires
            old(self).fabric().wf(),
            old(self).fabric().next_edge + 1 < KEY_LIMIT,
            from < KEY_LIMIT,
            to < KEY_LIMIT,
        ensures
            bus.fabric() == old(self).fabric().connect_full(from, to, port),
            bus.fabric().wf(),
            bus.fabric().next_edge == old(self).fabric().next_edge + 2,
            forall|n: NodeId|
                bus.fabric().nodes.contains_key(n) <==> old(self).fabric().nodes.contains_key(n)
                    || n == from || n == to,
            *final(bus) == *final(self),
    {
        self.connect_half(from, to, port).connect_half(to, from, opposite_port(port))
    }

    /// Tells whether `from` and `to` are connected both ways, `from` writing
    /// in direction `port`.
    pub fn is_connected(&self, from: NodeId, to: NodeId, port: Port) -> (r: bool)
        ensures
            r == self.fabric().is_connected(from, to, port),
    {
        if let Some(Connection(_, to_node)) = self.get_output(&from, port) {
            if let Some(Connection(_, from_node)) = self.get_output(&to, opposite_port(port)) {
                return to_node == to && from_node == from;
            }
        }
        false
    }

    /// Hands out the view of `node`, through which that node reads and
    /// writes.
    pub fn view<'a>(&'a mut self, node: NodeId) -> (v: IoBusView<'a>)
        requires
            old(self).fabric().nodes.contains_key(node),
        ensures
            v.node == node,
            v.fabric() == old(self).fabric(),
            *final(v.bus) == *final(self),
    {
        IoBusView::new(self, node)
    }

    /// Moves every pending value into the committed slot of its edge and
    /// empties the pending set.
    pub fn commit(&mut self)
        requires
            old(self).fabric().wf(),
        ensures
            final(self).fabric() == old(self).fabric().commit(),
            final(self).fabric().wf(),
    {
        let entries = slots_entries(&self.writes);
        let ghost before = self.fabric();
        let mut i: usize = 0;
        while i < entries.len()
            invariant
                i <= entries.len(),
                before.wf(),
                forall|j: int|
                    0 <= j < entries@.len() ==> lookup(before.pending, (#[trigger] entries@[j]).0)
                        == Some(entries@[j].1),
                forall|k: usize|
                    before.pending.contains_key(k) ==> exists|j: int|
                        0 <= j < entries@.len() && (#[trigger] entries@[j]).0 == k,
                self.fabric() == (Fabric {
                    committed: before.committed.union_prefer_right(
                        before.pending.restrict(edge_prefix(entries@, i as int)),
                    ),
                    ..before
                }),
            decreases entries.len() - i,
        {
            let (edge, value) = entries[i];
            let _ = slots_insert(&mut self.ports, edge, value);
            proof {
                let done = edge_prefix(entries@, i as int);
                let more = edge_prefix(entries@, i as int + 1);
                assert(more =~= done.insert(edge)) by {
                    assert forall|e: PortId| more.contains(e) implies done.insert(edge).contains(
                        e,
                    ) by {
                        let w = choose|w: int|
                            0 <= w < i as int + 1 && 0 <= w < entries@.len() && (
                            #[trigger] entries@[w]).0 == e;
                        if w < i as int {
                            assert(done.contains(e));
                        }
                    }
                    assert forall|e: PortId| done.insert(edge).contains(e) implies more.contains(
                        e,
                    ) by {
                        if e == edge {
                            assert(entries@[i as int].0 == e);
                        } else {
                            let w = choose|w: int|
                                0 <= w < i as int && 0 <= w < entries@.len() && (
                                #[trigger] entries@[w]).0 == e;
                            assert(entries@[w].0 == e);
                        }
                    }
                }
                assert(self.fabric().committed =~= before.committed.union_prefer_right(
                    before.pending.restrict(more),
                ));
            }
            i += 1;
        }
        proof {
            let all = edge_prefix(entries@, entries@.len() as int);
            assert(before.pending.restrict(all) =~= before.pending) by {
                assert forall|k: usize| before.pending.contains_key(k) implies all.contains(
                    k,
                ) by {
                    let w = choose|w: int| 0 <= w < entries@.len() && (#[trigger] entries@[w]).0 == k;
                    assert(entries@[w].0 == k);
                }
            }
        }
        slots_clear(&mut self.writes);
        proof {
            lemma_commit_wf(before);
        }
    }

    /// Offers `value` on the edge that `node` writes in direction `port`.
    pub(crate) fn write(&mut self, node: &NodeId, port: Port, value: isize)
        requires
            old(self).fabric().wf(),
        ensures
            final(self).fabric() == old(self).fabric().write(*node, port, value),
            final(self).fabric().wf(),
    {
        if let Some(Connection(index, _)) = self.get_output(node, port) {
            assert(self.fabric().output_of(*node, port) is Some);
            let _ = slots_insert(&mut self.writes, index, value);
            let _ = slots_insert(&mut self.write_blocks, *node, value);
        }
        proof {
            lemma_write_wf(old(self).fabric(), *node, port, value);
        }
    }

    /// Tells whether `node` still waits for a reader.
    pub(crate) fn is_blocked(&self, node: &NodeId) -> (r: bool)
        ensures
            r == self.fabric().is_blocked(*node),
    {
        slots_get(&self.write_blocks, *node).is_some()
    }

    /// Takes the value off the edge that `node` reads in direction `port`,
    /// and withdraws everything else its writer has on offer.
    pub(crate) fn read(&mut self, node: &NodeId, port: Port) -> (r: Option<isize>)
        ensures
            r == old(self).fabric().read_value(*node, port),
            final(self).fabric() == old(self).fabric().read(*node, port),
            old(self).fabric().wf() ==> final(self).fabric().wf(),
    {
        if let Some(Connection(index, peer)) = self.get_input(node, port) {
            if let Some(val) = slots_remove(&mut self.ports, index) {
                self.clear_outputs(&peer);
                proof {
                    if old(self).fabric().wf() {
                        lemma_read_wf(old(self).fabric(), *node, port);
                    }
                }
                return Some(val);
            }
            assert(self.fabric().committed =~= old(self).fabric().committed);
        }
        None
    }

    /// The edge that `node` reads in direction `port`, with its writer.
    pub(crate) fn get_input(&self, node: &NodeId, port: Port) -> (r: Option<Connection>)
        ensures
            r == self.fabric().input_of(*node, port),
    {
        if let Some(map) = port_maps_get(&self.nodes, *node) {
            map.get_input(port)
        } else {
            None
        }
    }

    /// The edge that `node` writes in direction `port`, with its reader.
    pub(crate) fn get_output(&self, node: &NodeId, port: Port) -> (r: Option<Connection>)
        ensures
            r == self.fabric().output_of(*node, port),
    {
        if let Some(map) = port_maps_get(&self.nodes, *node) {
            map.get_output(port)
        } else {
            None
        }
    }

    /// Gives `node` a vacant port map, in place of any it had.
    pub(crate) fn insert_map(&mut self, node: NodeId)
        requires
            node < KEY_LIMIT,
        ensures
            final(self).fabric() == (Fabric {
                nodes: old(self).fabric().nodes.insert(node, PortMap::vacant()),
                ..old(self).fabric()
            }),
    {
        let _ = port_maps_insert(&mut self.nodes, node, PortMap::new());
    }

    /// Tells whether the bus has a port map for `node`.
    pub(crate) fn map_exists(&self, node: &NodeId) -> (r: bool)
        ensures
            r == self.fabric().nodes.contains_key(*node),
    {
        port_maps_get(&self.nodes, *node).is_some()
    }

    /// Empties every edge that `node` writes and ends its wait.
    pub(crate) fn clear_outputs(&mut self, node: &NodeId)
        ensures
            final(self).fabric() == old(self).fabric().release(*node),
    {
        let to_clear = match port_maps_get(&self.nodes, *node) {
            Some(map) => map.output_edges(),
            None => Vec::new(),
        };
        let ghost before = self.fabric();
        let mut i: usize = 0;
        while i < to_clear.len()
            invariant
                i <= to_clear.len(),
                self.fabric() == (Fabric {
                    committed: before.committed.remove_keys(to_clear@.take(i as int).to_set()),
                    ..before
                }),
            decreases to_clear.len() - i,
        {
            let _ = slots_remove(&mut self.ports, to_clear[i]);
            proof {
                let head = to_clear@.take(i as int);
                let next = to_clear@.take(i as int + 1);
                assert(next =~= head.push(to_clear@[i as int]));
                assert(next.to_set() =~= head.to_set().insert(to_clear@[i as int])) by {
                    assert forall|e: PortId| next.to_set().contains(e) implies head.to_set().insert(
                        to_clear@[i as int],
                    ).contains(e) by {
                        let w = choose|w: int| 0 <= w < next.len() && next[w] == e;
                        if w < i as int {
                            assert(head[w] == e);
                        }
                    }
                    assert forall|e: PortId|
                        head.to_set().insert(to_clear@[i as int]).contains(
                            e,
                        ) implies next.to_set().contains(e) by {
                        if e == to_clear@[i as int] {
                            assert(next[i as int] == e);
                        } else {
                            let w = choose|w: int| 0 <= w < head.len() && head[w] == e;
                            assert(next[w] == e);
                        }
                    }
                }
                assert(self.fabric().committed =~= before.committed.remove_keys(next.to_set()));
            }
            i += 1;
        }
        let _ = slots_remove(&mut self.write_blocks, *node);
        proof {
            assert(to_clear@.take(to_clear@.len() as int) =~= to_clear@);
            lemma_output_edges_cover(before, *node, to_clear@);
            assert(self.fabric().committed =~= before.release(*node).committed);
        }
    }
}

/// The edges listed for a node are the edges that it writes.
proof fn lemma_output_edges_cover(f: Fabric, node: NodeId, edges: Seq<PortId>)
    requires
        edges == (if f.nodes.contains_key(node) {
            f.nodes[node].spec_output_edges()
        } else {
            Seq::<PortId>::empty()
        }),
    ensures
        edges.to_set() =~= f.outbound(node),
{
    assert forall|e: PortId| edges.to_set().contains(e) implies f.outbound(node).contains(e) by {
        let w = choose|w: int| 0 <= w < edges.len() && edges[w] == e;
        let m = f.nodes[node];
        if edge_of(m.output.up) == Some(e) {
            assert(edge_of(f.output_of(node, Port::UP)) == Some(e));
        } else if edge_of(m.output.down) == Some(e) {
            assert(edge_of(f.output_of(node, Port::DOWN)) == Some(e));
        } else if edge_of(m.output.left) == Some(e) {
            assert(edge_of(f.output_of(node, Port::LEFT)) == Some(e));
        } else {
            assert(edge_of(f.output_of(node, Port::RIGHT)) == Some(e));
        }
    }
    assert forall|e: PortId| f.outbound(node).contains(e) implies edges.to_set().contains(e) by {
        let p = choose|port: Port| (#[trigger] f.output_of(node, port)) matches Some(c) && c.0 == e;
        let m = f.nodes[node];
        let up = if let Some(c) = m.output.up { seq![c.0] } else { seq![] };
        let down = if let Some(c) = m.output.down { seq![c.0] } else { seq![] };
        let left = if let Some(c) = m.output.left { seq![c.0] } else { seq![] };
        let right = if let Some(c) = m.output.right { seq![c.0] } else { seq![] };
        assert(edges == up + down + left + right);
        match p {
            Port::UP => { assert(edges[0] == e); },
            Port::DOWN => { assert(edges[up.len() as int] == e); },
            Port::LEFT => { assert(edges[(up.len() + down.len()) as int] == e); },
            Port::RIGHT => { assert(edges[(up.len() + down.len() + left.len()) as int] == e); },
        }
    }
}

/// The bus without nodes is well formed, and nobody on it waits.
pub proof fn lemma_empty_wf()
    ensures
        Fabric::empty().wf(),
        Fabric::empty().blocks_backed(),
{
}

/// A write keeps the bus well formed.
pub proof fn lemma_write_wf(f: Fabric, node: NodeId, port: Port, value: isize)
    requires
        f.wf(),
    ensures
        f.write(node, port, value).wf(),
{
    let g = f.write(node, port, value);
    assert forall|n: NodeId, p: Port| true implies (#[trigger] g.output_of(n, p)) == f.output_of(
        n,
        p,
    ) by {}
    assert forall|n: NodeId, p: Port| true implies (#[trigger] g.input_of(n, p)) == f.input_of(
        n,
        p,
    ) by {}
    assert(edge_of(f.output_of(node, port)) is Some ==> edge_of(f.output_of(node, port))->0
        < f.next_edge);
}

/// A read keeps the bus well formed.
pub proof fn lemma_read_wf(f: Fabric, node: NodeId, port: Port)
    requires
        f.wf(),
    ensures
        f.read(node, port).wf(),
{
    let g = f.read(node, port);
    assert forall|n: NodeId, p: Port| true implies (#[trigger] g.output_of(n, p)) == f.output_of(
        n,
        p,
    ) by {}
    assert forall|n: NodeId, p: Port| true implies (#[trigger] g.input_of(n, p)) == f.input_of(
        n,
        p,
    ) by {}
}

/// A commit keeps the bus well formed.
pub proof fn lemma_commit_wf(f: Fabric)
    requires
        f.wf(),
    ensures
        f.commit().wf(),
{
    let g = f.commit();
    assert forall|n: NodeId, p: Port| true implies (#[trigger] g.output_of(n, p)) == f.output_of(
        n,
        p,
    ) by {}
    assert forall|n: NodeId, p: Port| true implies (#[trigger] g.input_of(n, p)) == f.input_of(
        n,
        p,
    ) by {}
}

/// A new edge keeps the bus well formed.
pub proof fn lemma_connect_half_wf(f: Fabric, from: NodeId, to: NodeId, port: Port)
    requires
        f.wf(),
        f.next_edge < KEY_LIMIT,
        from < KEY_LIMIT,
        to < KEY_LIMIT,
    ensures
        f.connect_half(from, to, port).wf(),
{
    let g = f.connect_half(from, to, port);
    let edge = f.next_edge;
    let back = spec_opposite_port(port);
    assert forall|n: NodeId, p: Port| true implies (#[trigger] g.output_of(n, p)) == (if n == from
        && p == port {
        Some(Connection(edge, to))
    } else {
        f.output_of(n, p)
    }) by {}
    assert forall|n: NodeId, p: Port| true implies (#[trigger] g.input_of(n, p)) == (if n == to && p
        == back {
        Some(Connection(edge, from))
    } else {
        f.input_of(n, p)
    }) by {}
    assert forall|n1: NodeId, p1: Port, n2: NodeId, p2: Port|
        edge_of(#[trigger] g.output_of(n1, p1)) is Some && edge_of(g.output_of(n1, p1)) == edge_of(
            #[trigger] g.output_of(n2, p2),
        ) implies n1 == n2 && p1 == p2 by {
        let a = f.output_of(n1, p1);
        let b = f.output_of(n2, p2);
    }
    assert forall|r: NodeId, p: Port, n: NodeId, q: Port|
        edge_of(#[trigger] g.input_of(r, p)) is Some && edge_of(g.input_of(r, p)) == edge_of(
            #[trigger] g.output_of(n, q),
        ) implies peer_of(g.input_of(r, p)) == Some(n) by {
        let a = f.input_of(r, p);
        let b = f.output_of(n, q);
    }
}

/// An edge holds at most one value, and a read takes it: whatever a read finds
/// on an edge, the same read made again before the next commit finds nothing.
pub proof fn lemma_read_takes_the_value(f: Fabric, node: NodeId, port: Port)
    ensures
        f.read(node, port).read_value(node, port) is None,
{
    let g = f.read(node, port);
    assert(g.input_of(node, port) == f.input_of(node, port));
}

/// A successful read collapses the whole offer of the writer: afterwards the
/// edge read is empty, so is every edge that the writer writes, and the writer
/// no longer waits.
pub proof fn lemma_read_collapses_offer(f: Fabric, reader: NodeId, port: Port)
    requires
        f.read_value(reader, port) is Some,
    ensures
        !f.read(reader, port).committed.contains_key(edge_of(f.input_of(reader, port))->0),
        forall|e: PortId|
            f.read(reader, port).is_outbound(peer_of(f.input_of(reader, port))->0, e)
                ==> !f.read(reader, port).committed.contains_key(e),
        !f.read(reader, port).is_blocked(peer_of(f.input_of(reader, port))->0),
{
    let g = f.read(reader, port);
    let peer = peer_of(f.input_of(reader, port))->0;
    assert forall|e: PortId| g.is_outbound(peer, e) implies !g.committed.contains_key(e) by {
        let q = choose|q: Port| (#[trigger] g.output_of(peer, q)) matches Some(c) && c.0 == e;
        let h = Fabric { committed: f.committed.remove(edge_of(f.input_of(reader, port))->0), ..f };
        assert(edge_of(h.output_of(peer, q)) == Some(e));
        assert(h.outbound(peer).contains(e));
    }
}

/// A write backs the block it sets: if every waiting node had a value on
/// offer before a write, every waiting node has one after it.
pub proof fn lemma_write_keeps_blocks_backed(f: Fabric, node: NodeId, port: Port, value: isize)
    requires
        f.blocks_backed(),
    ensures
        f.write(node, port, value).blocks_backed(),
{
    let g = f.write(node, port, value);
    assert forall|n: NodeId| #[trigger] g.blocks.contains_key(n) implies exists|e: PortId|
        g.is_outbound(n, e) && (g.committed.contains_key(e) || g.pending.contains_key(e)) by {
        if f.output_of(node, port) is Some && n == node {
            let e = edge_of(f.output_of(node, port))->0;
            assert(edge_of(g.output_of(node, port)) == Some(e));
            assert(g.is_outbound(n, e) && g.pending.contains_key(e));
        } else {
            assert(f.blocks.contains_key(n));
            let e = choose|e: PortId|
                f.is_outbound(n, e) && (f.committed.contains_key(e) || f.pending.contains_key(e));
            let q = choose|q: Port| (#[trigger] f.output_of(n, q)) matches Some(c) && c.0 == e;
            assert(edge_of(g.output_of(n, q)) == Some(e));
            assert(g.is_outbound(n, e) && (g.committed.contains_key(e) || g.pending.contains_key(
                e,
            )));
        }
    }
}

/// A read leaves no block without a value behind it: if every waiting node
/// had a value on offer before a read, every node that still waits after it
/// has one. The writer whose value was read waits no longer; no other node
/// loses an offer to the read.
pub proof fn lemma_read_keeps_blocks_backed(f: Fabric, node: NodeId, port: Port)
    requires
        f.wf(),
        f.blocks_backed(),
    ensures
        f.read(node, port).blocks_backed(),
{
    let g = f.read(node, port);
    if f.read_value(node, port) is Some {
        let taken = edge_of(f.input_of(node, port))->0;
        let peer = peer_of(f.input_of(node, port))->0;
        assert forall|n: NodeId| #[trigger] g.blocks.contains_key(n) implies exists|e: PortId|
            g.is_outbound(n, e) && (g.committed.contains_key(e) || g.pending.contains_key(e)) by {
            assert(n != peer);
            assert(f.blocks.contains_key(n));
            let e = choose|e: PortId|
                f.is_outbound(n, e) && (f.committed.contains_key(e) || f.pending.contains_key(e));
            let q = choose|q: Port| (#[trigger] f.output_of(n, q)) matches Some(c) && c.0 == e;
            assert(edge_of(g.output_of(n, q)) == Some(e));
            assert(g.is_outbound(n, e));
            if f.committed.contains_key(e) {
                assert(e != taken) by {
                    if e == taken {
                        assert(edge_of(f.input_of(node, port)) == edge_of(f.output_of(n, q)));
                    }
                }
                let h = Fabric { committed: f.committed.remove(taken), ..f };
                assert(!h.outbound(peer).contains(e)) by {
                    if h.is_outbound(peer, e) {
                        let r = choose|r: Port|
                            (#[trigger] h.output_of(peer, r)) matches Some(c) && c.0 == e;
                        assert(edge_of(f.output_of(peer, r)) == edge_of(f.output_of(n, q)));
                    }
                }
                assert(g.committed.contains_key(e));
            }
        }
    }
}

/// A commit moves every offer into view: if every waiting node had a value
/// on offer before a commit, then after it every waiting node has a committed
/// value on one of the edges it writes.
pub proof fn lemma_commit_shows_blocks_backed(f: Fabric)
    requires
        f.blocks_backed(),
    ensures
        f.commit().blocks_backed(),
        forall|n: NodeId| #[trigger]
            f.commit().is_blocked(n) ==> exists|e: PortId|
                f.commit().is_outbound(n, e) && f.commit().committed.contains_key(e),
{
    let g = f.commit();
    assert forall|n: NodeId| #[trigger] g.is_blocked(n) implies exists|e: PortId|
        g.is_outbound(n, e) && g.committed.contains_key(e) by {
        assert(f.blocks.contains_key(n));
        let e = choose|e: PortId|
            f.is_outbound(n, e) && (f.committed.contains_key(e) || f.pending.contains_key(e));
        let q = choose|q: Port| (#[trigger] f.output_of(n, q)) matches Some(c) && c.0 == e;
        assert(edge_of(g.output_of(n, q)) == Some(e));
        assert(g.is_outbound(n, e) && g.committed.contains_key(e));
    }
    assert forall|n: NodeId| #[trigger] g.blocks.contains_key(n) implies exists|e: PortId|
        g.is_outbound(n, e) && (g.committed.contains_key(e) || g.pending.contains_key(e)) by {
        assert(g.is_blocked(n));
        let e = choose|e: PortId| g.is_outbound(n, e) && g.committed.contains_key(e);
        assert(g.is_outbound(n, e) && (g.committed.contains_key(e) || g.pending.contains_key(e)));
    }
}

/// A new edge from a node that does not wait, or that wrote nothing in that
/// direction before, takes no offer away from a waiting node.
pub proof fn lemma_connect_half_keeps_blocks_backed(
    f: Fabric,
    from: NodeId,
    to: NodeId,
    port: Port,
)
    requires
        f.blocks_backed(),
        !f.is_blocked(from) || f.output_of(from, port) is None,
    ensures
        f.connect_half(from, to, port).blocks_backed(),
{
    let g = f.connect_half(from, to, port);
    assert forall|n: NodeId| #[trigger] g.blocks.contains_key(n) implies exists|e: PortId|
        g.is_outbound(n, e) && (g.committed.contains_key(e) || g.pending.contains_key(e)) by {
        assert(f.blocks.contains_key(n));
        let e = choose|e: PortId|
            f.is_outbound(n, e) && (f.committed.contains_key(e) || f.pending.contains_key(e));
        let q = choose|q: Port| (#[trigger] f.output_of(n, q)) matches Some(c) && c.0 == e;
        assert(!(n == from && q == port));
        assert(edge_of(g.output_of(n, q)) == Some(e));
        assert(g.is_outbound(n, e) && (g.committed.contains_key(e) || g.pending.contains_key(e)));
    }
}

/// What is written in a cycle cannot be read in the same cycle: a write
/// changes what no reader finds, until the next commit.
pub proof fn lemma_write_is_unseen_before_commit(
    f: Fabric,
    writer: NodeId,
    port: Port,
    value: isize,
    reader: NodeId,
    from: Port,
)
    ensures
        f.write(writer, port, value).read_value(reader, from) == f.read_value(reader, from),
{
}

/// A commit with nothing pending changes nothing, and a second commit right
/// after a first never does.
pub proof fn lemma_commit_idempotent(f: Fabric)
    ensures
        f.pending =~= Map::<PortId, isize>::empty() ==> f.commit() == f,
        f.commit().commit() == f.commit(),
{
    if f.pending =~= Map::<PortId, isize>::empty() {
        assert(f.commit().committed =~= f.committed);
    }
    assert(f.commit().commit().committed =~= f.commit().committed);
}

/// The view of one node onto the bus: the node reads and writes through it,
/// on its own edges only.
#[derive(Debug)]
pub struct IoBusView<'a> {
    pub bus: &'a mut IoBus,
    pub node: NodeId,
}

impl<'a> IoBusView<'a> {
    /// The state of the bus behind this view.
    pub open spec fn fabric(&self) -> Fabric {
        self.bus.fabric()
    }

    /// Makes the view of `node` onto `bus`.
    fn new(bus: &'a mut IoBus, node: NodeId) -> (v: IoBusView<'a>)
        ensures
            v.node == node,
            v.fabric() == old(bus).fabric(),
            *final(v.bus) == *final(bus),
    {
        IoBusView { bus: bus, node: node }
    }

    /// Reads in direction `port`. A value found on the input edge is taken
    /// off it, every other offer of its writer is withdrawn with it, and the
    /// writer stops waiting. Returns `None`, and changes nothing, where the
    /// node has no input edge there or the edge holds no committed value.
    pub fn read(&mut self, port: Port) -> (r: Option<isize>)
        ensures
            r == old(self).fabric().read_value(old(self).node, port),
            final(self).fabric() == old(self).fabric().read(old(self).node, port),
            old(self).fabric().wf() ==> final(self).fabric().wf(),
            final(self).node == old(self).node,
            *final(final(self).bus) == *final(old(self).bus),
    {
        self.bus.read(&self.node, port)
    }

    /// Writes `value` in direction `port`: the value is pending on the output
    /// edge there until the next commit, over any value pending before, and
    /// the node waits for a reader. Without an output edge in that direction
    /// nothing happens.
    pub fn write(&mut self, port: Port, value: isize)
        requires
            old(self).fabric().wf(),
        ensures
            final(self).fabric() == old(self).fabric().write(old(self).node, port, value),
            final(self).fabric().wf(),
            final(self).node == old(self).node,
            *final(final(self).bus) == *final(old(self).bus),
    {
        self.bus.write(&self.node, port, value);
    }

    /// Tells whether the node still waits for a reader of what it last wrote.
    pub fn is_blocked(&self) -> (r: bool)
        ensures
            r == self.fabric().is_blocked(self.node),
    {
        self.bus.is_blocked(&self.node)
    }
}

} // verus!
