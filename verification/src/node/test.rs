//! The nodes that feed a machine its input and check its output.

use super::{Node, TestNode, TestState};
use crate::image::{colors_of, Image, Picture};
use crate::io::{Fabric, IoBusView, NodeId};
use crate::types::Port;
use std::collections::VecDeque;
use vstd::prelude::*;

verus! {

/// Copies values into a queue, the first at the front.
fn queue_of(values: &Vec<isize>) -> (q: VecDeque<isize>)
    ensures
        q@ == values@,
{
    let mut q: VecDeque<isize> = VecDeque::new();
    let mut i: usize = 0;
    while i < values.len()
        invariant
            i <= values.len(),
            q@ == values@.take(i as int),
        decreases values.len() - i,
    {
        q.push_back(values[i]);
        assert(values@.take(i + 1) == values@.take(i as int).push(values@[i as int]));
        i += 1;
    }
    assert(values@.take(values@.len() as int) == values@);
    q
}

/// The state of an input node as a mathematical value.
#[verifier::ext_equal]
pub ghost struct InputState {
    /// The values still to be fed, the next one first.
    pub data: Seq<isize>,
    /// Whether the next value is on offer.
    pub blocked: bool,
}

/// An input node and the bus, taken together.
#[verifier::ext_equal]
pub ghost struct InputScene {
    pub node: InputState,
    pub bus: Fabric,
}

/// The node and the bus after one step of input node `id`: unless it has a
/// value on offer already, it offers the next one downwards.
pub open spec fn spec_input_step(s: InputState, f: Fabric, id: NodeId) -> InputScene {
    if !s.blocked && s.data.len() > 0 {
        InputScene {
            node: InputState { blocked: true, ..s },
            bus: f.write(id, Port::DOWN, s.data[0]),
        }
    } else {
        InputScene { node: s, bus: f }
    }
}

/// The node after the end of a cycle: if it does not wait for a reader, the
/// value at the front is done with and nothing is on offer.
pub open spec fn spec_input_sync(s: InputState, f: Fabric, id: NodeId) -> InputState {
    if !f.is_blocked(id) {
        InputState {
            data: if s.data.len() > 0 {
                s.data.subrange(1, s.data.len() as int)
            } else {
                s.data
            },
            blocked: false,
        }
    } else {
        s
    }
}

/// Feeds a list of values into the machine, one at a time.
#[derive(Debug)]
pub struct TestInputNode {
    test_data: VecDeque<isize>,
    blocked: bool,
}

impl View for TestInputNode {
    type V = InputState;

    closed spec fn view(&self) -> InputState {
        InputState { data: self.test_data@, blocked: self.blocked }
    }
}

impl TestInputNode {
    /// Makes a node that will feed `test_data`, the first value first.
    pub fn with_data(test_data: &Vec<isize>) -> (node: TestInputNode)
        ensures
            node@ == (InputState { data: test_data@, blocked: false }),
    {
        TestInputNode { test_data: queue_of(test_data), blocked: false }
    }
}

impl Node for TestInputNode {
    open spec fn inv(&self) -> bool {
        true
    }

    /// Offers the next value, unless one is on offer.
    fn step(&mut self, io: &mut IoBusView)
        ensures
            final(self)@ == spec_input_step(old(self)@, old(io).fabric(), old(io).node).node,
            final(io).fabric() == spec_input_step(old(self)@, old(io).fabric(), old(io).node).bus,
    {
        if !self.blocked {
            if self.test_data.len() > 0 {
                let val = self.test_data[0];
                io.write(Port::DOWN, val);
                self.blocked = true;
            }
        }
    }

    /// Moves on to the next value, once the machine has read this one.
    fn sync(&mut self, io: &mut IoBusView)
        ensures
            final(self)@ == spec_input_sync(old(self)@, old(io).fabric(), old(io).node),
            final(io).fabric() == old(io).fabric(),
    {
        if !io.is_blocked() {
            let _ = self.test_data.pop_front();
            self.blocked = false;
        }
    }

    /// Always stalled: an input node runs no program.
    fn is_stalled(&self) -> (r: bool)
        ensures
            r,
    {
        true
    }
}

/// The state of an output node as a mathematical value.
#[verifier::ext_equal]
pub ghost struct OutputState {
    /// The values still expected, the next one first.
    pub expected: Seq<isize>,
    /// The values that came, each after the value expected in its place.
    pub results: Seq<(isize, isize)>,
}

/// An output node and the bus, taken together.
#[verifier::ext_equal]
pub ghost struct OutputScene {
    pub node: OutputState,
    pub bus: Fabric,
}

impl OutputState {
    /// Whether every value that came was the one expected.
    pub open spec fn all_match(self) -> bool {
        forall|i: int| 0 <= i < self.results.len() ==> (#[trigger] self.results[i]).0 == self.results[i].1
    }

    /// The state: testing while values are expected; then passed if every
    /// value that came was the one expected, else failed.
    pub open spec fn state(self) -> TestState {
        if self.expected.len() > 0 {
            TestState::Testing
        } else if self.all_match() {
            TestState::Passed
        } else {
            TestState::Failed
        }
    }
}

/// The node and the bus after one step of output node `id`: it reads from
/// above, and sets a value it finds against the next one expected. A value
/// that comes when none is expected is read and dropped.
pub open spec fn spec_output_step(s: OutputState, f: Fabric, id: NodeId) -> OutputScene {
    match f.read_value(id, Port::UP) {
        Some(v) => OutputScene {
            node: if s.expected.len() > 0 {
                OutputState {
                    expected: s.expected.subrange(1, s.expected.len() as int),
                    results: s.results.push((s.expected[0], v)),
                }
            } else {
                s
            },
            bus: f.read(id, Port::UP),
        },
        None => OutputScene { node: s, bus: f },
    }
}

/// Checks what the machine puts out against a list of expected values.
#[derive(Debug)]
pub struct TestOutputNode {
    test_data: VecDeque<isize>,
    results: Vec<(isize, isize)>,
}

impl View for TestOutputNode {
    type V = OutputState;

    closed spec fn view(&self) -> OutputState {
        OutputState { expected: self.test_data@, results: self.results@ }
    }
}

impl TestOutputNode {
    /// Makes a node that expects `test_data`, the first value first.
    pub fn with_data(test_data: &Vec<isize>) -> (node: TestOutputNode)
        ensures
            node@ == (OutputState { expected: test_data@, results: Seq::empty() }),
    {
        TestOutputNode { test_data: queue_of(test_data), results: Vec::new() }
    }

    /// The values that came so far, each after the value expected in its
    /// place.
    pub fn results(&self) -> (r: &Vec<(isize, isize)>)
        ensures
            r@ == self@.results,
    {
        &self.results
    }
}

impl Node for TestOutputNode {
    open spec fn inv(&self) -> bool {
        true
    }

    /// Reads from above and records what came.
    fn step(&mut self, io: &mut IoBusView)
        ensures
            final(self)@ == spec_output_step(old(self)@, old(io).fabric(), old(io).node).node,
            final(io).fabric() == spec_output_step(old(self)@, old(io).fabric(), old(io).node).bus,
    {
        if let Some(val) = io.read(Port::UP) {
            if let Some(expected) = self.test_data.pop_front() {
                self.results.push((expected, val));
            }
        }
    }

    /// Changes nothing.
    fn sync(&mut self, io: &mut IoBusView)
        ensures
            final(self)@ == old(self)@,
            final(io).fabric() == old(io).fabric(),
    {
    }

    /// Always stalled: an output node runs no program.
    fn is_stalled(&self) -> (r: bool)
        ensures
            r,
    {
        true
    }
}

impl TestNode for TestOutputNode {
    /// The state of the test so far.
    fn state(&self) -> (r: TestState)
        ensures
            r == self@.state(),
    {
        if self.test_data.len() > 0 {
            TestState::Testing
        } else {
            let mut i: usize = 0;
            while i < self.results.len()
                invariant
                    i <= self.results.len(),
                    self.test_data@.len() == 0,
                    forall|k: int| 0 <= k < i ==> (#[trigger] self.results@[k]).0 == self.results@[k].1,
                decreases self.results.len() - i,
            {
                let (expected, actual) = self.results[i];
                if expected != actual {
                    assert(self@.results[i as int].0 != self@.results[i as int].1);
                    return TestState::Failed;
                }
                i += 1;
            }
            TestState::Passed
        }
    }
}

/// The state of an image node as a mathematical value.
#[verifier::ext_equal]
pub ghost struct ImageProbe {
    /// The picture that is expected.
    pub expected: Picture,
    /// The picture drawn so far.
    pub drawn: Picture,
}

/// An image node and the bus, taken together.
#[verifier::ext_equal]
pub ghost struct ImageScene {
    pub node: ImageProbe,
    pub bus: Fabric,
}

impl ImageProbe {
    /// The state: passed once the picture drawn is the one expected, and
    /// testing until then.
    pub open spec fn state(self) -> TestState {
        if self.expected.data == self.drawn.data {
            TestState::Passed
        } else {
            TestState::Testing
        }
    }
}

/// The node and the bus after one step of image node `id`: it reads from
/// above and hands a value it finds to the picture.
pub open spec fn spec_image_step(s: ImageProbe, f: Fabric, id: NodeId) -> ImageScene {
    match f.read_value(id, Port::UP) {
        Some(v) => ImageScene {
            node: ImageProbe { drawn: s.drawn.write(v), ..s },
            bus: f.read(id, Port::UP),
        },
        None => ImageScene { node: s, bus: f },
    }
}

/// Draws what the machine puts out and checks the picture against an
/// expected one.
#[derive(Debug)]
pub struct TestImageNode {
    test_image: Image,
    image: Image,
}

impl View for TestImageNode {
    type V = ImageProbe;

    closed spec fn view(&self) -> ImageProbe {
        ImageProbe { expected: self.test_image@, drawn: self.image@ }
    }
}

impl TestImageNode {
    /// Makes a node that expects the picture of the given size with one
    /// number in `data` for each pixel, and starts from a black one.
    pub fn with_data(data: &Vec<isize>, width: usize, height: usize) -> (node: TestImageNode)
        requires
            data@.len() == width * height,
        ensures
            node@ == (ImageProbe {
                expected: Picture::showing(colors_of(data@), width, height),
                drawn: Picture::blank(width, height),
            }),
            node.inv(),
    {
        assert(width * height == data.len());
        TestImageNode {
            test_image: Image::with_data(data, width, height),
            image: Image::new(width, height),
        }
    }

    /// The picture drawn so far.
    pub fn image(&self) -> (r: &Image)
        ensures
            r@ == self@.drawn,
    {
        &self.image
    }
}

impl Node for TestImageNode {
    /// Both pictures are well formed.
    open spec fn inv(&self) -> bool {
        self@.expected.wf() && self@.drawn.wf()
    }

    /// Reads from above and draws what came.
    fn step(&mut self, io: &mut IoBusView)
        ensures
            final(self)@ == spec_image_step(old(self)@, old(io).fabric(), old(io).node).node,
            final(io).fabric() == spec_image_step(old(self)@, old(io).fabric(), old(io).node).bus,
    {
        if let Some(val) = io.read(Port::UP) {
            self.image.write(val);
        }
    }

    /// Changes nothing.
    fn sync(&mut self, io: &mut IoBusView)
        ensures
            final(self)@ == old(self)@,
            final(io).fabric() == old(io).fabric(),
    {
    }

    /// Always stalled: an image node runs no program.
    fn is_stalled(&self) -> (r: bool)
        ensures
            r,
    {
        true
    }
}

impl TestNode for TestImageNode {
    /// The state of the test so far.
    fn state(&self) -> (r: TestState)
        ensures
            r == self@.state(),
    {
        if self.test_image.same_picture(&self.image) {
            TestState::Passed
        } else {
            TestState::Testing
        }
    }
}

} // verus!
