//! A sink unit that keeps every message it receives, for inspection.

use vstd::prelude::*;

use crate::channel::EventSender;
use crate::message::{data_view, MessageData, MessageType, TypeV};
use crate::node::{Node, NodeCommon, NodeFunctionResult};

verus! {

/// Accepts anything on its one untyped input and stores a copy.
#[derive(Debug)]
pub struct CaptureNode {
    pub common: NodeCommon,
    pub captured_messages: Vec<MessageData>,
}

impl CaptureNode {
    pub fn new(common: NodeCommon) -> (r: CaptureNode)
        ensures
            r.common == common,
            r.captured_messages@.len() == 0,
    {
        CaptureNode { common, captured_messages: Vec::new() }
    }

    /// Stores a copy of the message at the end of the capture list.
    pub fn capture(&mut self, msg: &MessageData)
        ensures
            final(self).captured_messages@.len() == old(self).captured_messages@.len() + 1,
            data_view(final(self).captured_messages@.last()) == msg@,
            forall|i: int| #![trigger old(self).captured_messages@[i]]
                0 <= i < old(self).captured_messages@.len()
                    ==> final(self).captured_messages@[i] == old(self).captured_messages@[i],
            final(self).common == old(self).common,
    {
        self.captured_messages.push(msg.deep_copy());
    }

    /// Everything captured so far, in arrival order.
    pub fn get_captured_messages(&self) -> (r: &Vec<MessageData>)
        ensures
            r == &self.captured_messages,
    {
        &self.captured_messages
    }
}

impl Node for CaptureNode {
    open spec fn name_spec(&self) -> Seq<char> {
        self.common.name@
    }

    open spec fn inputs_spec(&self) -> nat {
        1
    }

    open spec fn outputs_spec(&self) -> nat {
        0
    }

    open spec fn input_type_spec(&self, index: int) -> Option<TypeV> {
        None
    }

    open spec fn output_type_spec(&self, index: int) -> TypeV {
        arbitrary()
    }

    open spec fn log_inputs_spec(&self) -> bool {
        self.common.log_inputs
    }

    open spec fn log_outputs_spec(&self) -> bool {
        self.common.log_outputs
    }

    fn common(&self) -> (c: &NodeCommon) {
        &self.common
    }

    fn create(&mut self, _event_sender: Option<&EventSender>) {
    }

    fn run(&mut self, msg: &MessageData, _input: usize) -> (r: NodeFunctionResult) {
        self.capture(msg);
        Ok(None)
    }

    fn destroy(&mut self) {
    }

    fn num_inputs(&self) -> (r: usize) {
        1
    }

    fn num_outputs(&self) -> (r: usize) {
        0
    }

    fn input_type(&self, _index: usize) -> (r: Option<&MessageType>) {
        None
    }

    fn output_type(&self, _index: usize) -> (r: &MessageType) {
        vstd::pervasive::unreached()
    }
}

} // verus!
