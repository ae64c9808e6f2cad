//! The node contract: the capability set every processing unit implements.
//!
//! A node exposes static metadata (name, logging flags, port counts and
//! types) and run-time behaviour: one-time initialization with a handle to
//! the event sink, synchronous processing of one inbound message, and
//! teardown of any background activity.  The engine is generic over this
//! trait; the built-in units under [`crate::nodes`] implement it inside the
//! library, and a host may bring further implementations of its own.

use vstd::prelude::*;

use crate::channel::EventSender;
use crate::errors::Error;
use crate::message::{MessageData, MessageType, TypeV};

verus! {

/// A node may produce one message, nothing, or signal a fatal error.
pub type NodeFunctionResult = Result<Option<MessageData>, Error>;

/// The identity and logging preferences every node carries.
#[derive(Debug, Default)]
pub struct NodeCommon {
    pub name: String,
    pub log_inputs: bool,
    pub log_outputs: bool,
}

impl NodeCommon {
    pub fn new(name: &str) -> (r: NodeCommon)
        ensures
            r.name@ == name@,
            !r.log_inputs,
            !r.log_outputs,
    {
        NodeCommon { name: name.to_owned(), log_inputs: false, log_outputs: false }
    }
}

/// The contract of one processing unit.
///
/// The `*_spec` functions describe the node's static shape; the executable
/// methods are bound to them, and mutation through `create`, `run` and
/// `destroy` never changes the shape.  `run` must not be called on an input
/// index at or beyond `num_inputs`.
pub trait Node: Sized {
    /// The node's unique name within a flow.
    spec fn name_spec(&self) -> Seq<char>;

    /// How many input ports the node declares.
    spec fn inputs_spec(&self) -> nat;

    /// How many output ports the node declares.
    spec fn outputs_spec(&self) -> nat;

    /// The declared type of an input port; `None` is an untyped port that
    /// accepts anything.
    spec fn input_type_spec(&self, index: int) -> Option<TypeV>;

    /// The declared type of an output port.
    spec fn output_type_spec(&self, index: int) -> TypeV;

    /// Whether inbound messages should be logged.
    spec fn log_inputs_spec(&self) -> bool;

    /// Whether produced messages should be logged.
    spec fn log_outputs_spec(&self) -> bool;

    /// The node's identity and logging preferences.
    fn common(&self) -> (c: &NodeCommon)
        ensures
            c.name@ == self.name_spec(),
            c.log_inputs == self.log_inputs_spec(),
            c.log_outputs == self.log_outputs_spec(),
    ;

    /// One-time initialization.  The node receives a thread-safe handle to
    /// the event sink, so that it may hand clones of it to background
    /// producers of its own.
    fn create(&mut self, event_sender: Option<&EventSender>)
        ensures
            final(self).name_spec() == old(self).name_spec(),
            final(self).inputs_spec() == old(self).inputs_spec(),
            final(self).outputs_spec() == old(self).outputs_spec(),
            final(self).log_inputs_spec() == old(self).log_inputs_spec(),
            final(self).log_outputs_spec() == old(self).log_outputs_spec(),
            forall|i: int|
                0 <= i < old(self).inputs_spec() ==> final(self).input_type_spec(i) == old(
                    self,
                ).input_type_spec(i),
            forall|i: int|
                0 <= i < old(self).outputs_spec() ==> final(self).output_type_spec(i) == old(
                    self,
                ).output_type_spec(i),
    ;

    /// Synchronous processing of one inbound message on one input port.
    fn run(&mut self, msg: &MessageData, input: usize) -> (r: NodeFunctionResult)
        requires
            input < old(self).inputs_spec(),
        ensures
            final(self).name_spec() == old(self).name_spec(),
            final(self).inputs_spec() == old(self).inputs_spec(),
            final(self).outputs_spec() == old(self).outputs_spec(),
            final(self).log_inputs_spec() == old(self).log_inputs_spec(),
            final(self).log_outputs_spec() == old(self).log_outputs_spec(),
            forall|i: int|
                0 <= i < old(self).inputs_spec() ==> final(self).input_type_spec(i) == old(
                    self,
                ).input_type_spec(i),
            forall|i: int|
                0 <= i < old(self).outputs_spec() ==> final(self).output_type_spec(i) == old(
                    self,
                ).output_type_spec(i),
    ;

    /// Stops and joins any background activity started in `create`; safe to
    /// call again after the activity has already finished.
    fn destroy(&mut self)
        ensures
            final(self).name_spec() == old(self).name_spec(),
            final(self).inputs_spec() == old(self).inputs_spec(),
            final(self).outputs_spec() == old(self).outputs_spec(),
            final(self).log_inputs_spec() == old(self).log_inputs_spec(),
            final(self).log_outputs_spec() == old(self).log_outputs_spec(),
            forall|i: int|
                0 <= i < old(self).inputs_spec() ==> final(self).input_type_spec(i) == old(
                    self,
                ).input_type_spec(i),
            forall|i: int|
                0 <= i < old(self).outputs_spec() ==> final(self).output_type_spec(i) == old(
                    self,
                ).output_type_spec(i),
    ;

    fn num_inputs(&self) -> (r: usize)
        ensures
            r == self.inputs_spec(),
    ;

    fn num_outputs(&self) -> (r: usize)
        ensures
            r == self.outputs_spec(),
    ;

    fn input_type(&self, index: usize) -> (r: Option<&MessageType>)
        requires
            index < self.inputs_spec(),
        ensures
            match r {
                Some(t) => self.input_type_spec(index as int) == Some(t@),
                None => self.input_type_spec(index as int) is None,
            },
    ;

    fn output_type(&self, index: usize) -> (r: &MessageType)
        requires
            index < self.outputs_spec(),
        ensures
            self.output_type_spec(index as int) == r@,
    ;
}

/// Two node states with the same static shape: the same name, port counts,
/// port types and logging preferences.  Initialization, processing and
/// teardown all preserve the shape.
pub open spec fn shape_eq<N: Node>(a: &N, b: &N) -> bool {
    &&& a.name_spec() == b.name_spec()
    &&& a.inputs_spec() == b.inputs_spec()
    &&& a.outputs_spec() == b.outputs_spec()
    &&& a.log_inputs_spec() == b.log_inputs_spec()
    &&& a.log_outputs_spec() == b.log_outputs_spec()
    &&& forall|i: int|
        0 <= i < a.inputs_spec() ==> a.input_type_spec(i) == b.input_type_spec(i)
    &&& forall|i: int|
        0 <= i < a.outputs_spec() ==> a.output_type_spec(i) == b.output_type_spec(i)
}

} // verus!
