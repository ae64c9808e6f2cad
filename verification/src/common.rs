//! Ports, events and connections: the vocabulary shared by the flow graph and
//! the execution engine.

use vstd::prelude::*;

use crate::conversion::Converter;
use crate::message::{DataV, MessageData, MessageType};

verus! {

/// A span of time in milliseconds.
#[derive(Debug, Clone, Copy, PartialEq, Eq, Structural, Default)]
pub struct DurationMsec(pub u64);

impl DurationMsec {
    /// Relies on Duration::from_millis: the standard-library span for the
    /// same number of milliseconds.
    #[verifier::external_body]
    pub fn to_duration(&self) -> std::time::Duration {
        std::time::Duration::from_millis(self.0)
    }
}

/// A message; what flows along connections.
pub type Message = MessageData;

/// Identifies one input or output slot of a named node.  The index defaults
/// to 0 when a graph description omits it.
#[derive(Debug)]
pub struct NodePort {
    pub name: String,
    pub index: usize,
}

impl NodePort {
    /// Two ports are the same slot when both the node name and the index agree.
    pub open spec fn same_port(self, other: NodePort) -> bool {
        self.name@ == other.name@ && self.index == other.index
    }

    pub fn port_eq(&self, other: &NodePort) -> (r: bool)
        ensures
            r == self.same_port(*other),
    {
        self.index == other.index && self.name == other.name
    }
}

/// A message on its way to one node's input port.
#[derive(Debug)]
pub struct MessageTo {
    pub message: MessageData,
    pub to: NodePort,
}

/// A message as produced at one node's output port.
#[derive(Debug)]
pub struct MessageFrom {
    pub message: MessageData,
    pub from: NodePort,
}

/// One unit of work routed through the event queue.  Events are created,
/// queued, consumed once, and discarded.
#[derive(Debug)]
pub enum Event {
    MessageTo(MessageTo),
    MessageFrom(MessageFrom),
    Log(String),
    Terminate,
}

/// A directed, typed edge from one node's output port to another node's input
/// port.  `conversion` and `dest_type` start out unset and are filled in
/// exactly once by the flow validator; a connection is ready for execution
/// only once both are set.
#[derive(Debug)]
pub struct Connection {
    pub source: NodePort,
    pub dest: NodePort,
    pub conversion: Option<Converter>,
    pub dest_type: Option<MessageType>,
}

impl Connection {
    /// A validated connection: converter and destination type are both known.
    pub open spec fn resolved(self) -> bool {
        self.conversion is Some && self.dest_type is Some
    }
}

/// Mathematical view of a `NodePort`.
pub struct PortV {
    pub name: Seq<char>,
    pub index: usize,
}

impl View for NodePort {
    type V = PortV;

    open spec fn view(&self) -> PortV {
        PortV { name: self.name@, index: self.index }
    }
}

/// Mathematical view of an `Event`.
pub enum EventV {
    MessageTo(DataV, PortV),
    MessageFrom(DataV, PortV),
    Log(Seq<char>),
    Terminate,
}

impl View for Event {
    type V = EventV;

    open spec fn view(&self) -> EventV {
        match *self {
            Event::MessageTo(ref mt) => EventV::MessageTo(mt.message@, mt.to@),
            Event::MessageFrom(ref mf) => EventV::MessageFrom(mf.message@, mf.from@),
            Event::Log(ref s) => EventV::Log(s@),
            Event::Terminate => EventV::Terminate,
        }
    }
}

/// The views of a sequence of events.
pub open spec fn events_view(s: Seq<Event>) -> Seq<EventV> {
    Seq::new(s.len(), |i: int| s[i]@)
}

} // verus!
