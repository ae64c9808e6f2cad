//! A sink unit that asks the flow to shut down as soon as it receives any
//! message.

use vstd::prelude::*;

use crate::channel::EventSender;
use crate::common::Event;
use crate::message::{MessageData, MessageType, TypeV};
use crate::node::{Node, NodeCommon, NodeFunctionResult};

verus! {

/// Emits a termination event into the queue on every inbound message.
#[derive(Debug)]
pub struct TerminateNode {
    pub common: NodeCommon,
    pub event_sender: Option<EventSender>,
}

impl TerminateNode {
    pub fn new(common: NodeCommon) -> (r: TerminateNode)
        ensures
            r.common == common,
    {
        TerminateNode { common, event_sender: None }
    }
}

impl Node for TerminateNode {
    open spec fn name_spec(&self) -> Seq<char> {
        self.common.name@
    }

    open spec fn inputs_spec(&self) -> nat {
        1
    }

    open spec fn outputs_spec(&self) -> nat {
        0
    }

    open spec fn input_type_spec(&self, index: int) -> Option<TypeV> {
        None
    }

    open spec fn output_type_spec(&self, index: int) -> TypeV {
        arbitrary()
    }

    open spec fn log_inputs_spec(&self) -> bool {
        self.common.log_inputs
    }

    open spec fn log_outputs_spec(&self) -> bool {
        self.common.log_outputs
    }

    fn common(&self) -> (c: &NodeCommon) {
        &self.common
    }

    fn create(&mut self, event_sender: Option<&EventSender>) {
        match event_sender {
            Some(s) => {
                self.event_sender = Some(s.duplicate());
            },
            None => {
                self.event_sender = None;
            },
        }
    }

    fn run(&mut self, _msg: &MessageData, _input: usize) -> (r: NodeFunctionResult) {
        if let Some(sender) = &self.event_sender {
            sender.send(Event::Terminate);
        }
        Ok(None)
    }

    fn destroy(&mut self) {
    }

    fn num_inputs(&self) -> (r: usize) {
        1
    }

    fn num_outputs(&self) -> (r: usize) {
        0
    }

    fn input_type(&self, _index: usize) -> (r: Option<&MessageType>) {
        None
    }

    fn output_type(&self, _index: usize) -> (r: &MessageType) {
        vstd::pervasive::unreached()
    }
}

} // verus!
