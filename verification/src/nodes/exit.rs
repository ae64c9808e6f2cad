//! A sink unit that remembers that it was told to exit; the host polls it to
//! decide when to stop its loop.

use vstd::prelude::*;

use crate::channel::EventSender;
use crate::message::{MessageData, MessageType, TypeV};
use crate::node::{Node, NodeCommon, NodeFunctionResult};

verus! {

/// Raises its exit flag on the first inbound message.
#[derive(Debug)]
pub struct ExitNode {
    pub common: NodeCommon,
    pub should_exit: bool,
}

impl ExitNode {
    pub fn new(common: NodeCommon) -> (r: ExitNode)
        ensures
            r.common == common,
            !r.should_exit,
    {
        ExitNode { common, should_exit: false }
    }

    /// Whether any message has arrived since construction.
    pub fn get_should_exit(&self) -> (r: bool)
        ensures
            r == self.should_exit,
    {
        self.should_exit
    }
}

impl Node for ExitNode {
    open spec fn name_spec(&self) -> Seq<char> {
        self.common.name@
    }

    open spec fn inputs_spec(&self) -> nat {
        1
    }

    open spec fn outputs_spec(&self) -> nat {
        0
    }

    open spec fn input_type_spec(&self, index: int) -> Option<TypeV> {
        None
    }

    open spec fn output_type_spec(&self, index: int) -> TypeV {
        arbitrary()
    }

    open spec fn log_inputs_spec(&self) -> bool {
        self.common.log_inputs
    }

    open spec fn log_outputs_spec(&self) -> bool {
        self.common.log_outputs
    }

    fn common(&self) -> (c: &NodeCommon) {
        &self.common
    }

    fn create(&mut self, _event_sender: Option<&EventSender>) {
    }

    fn run(&mut self, _msg: &MessageData, _input: usize) -> (r: NodeFunctionResult) {
        self.should_exit = true;
        Ok(None)
    }

    fn destroy(&mut self) {
    }

    fn num_inputs(&self) -> (r: usize) {
        1
    }

    fn num_outputs(&self) -> (r: usize) {
        0
    }

    fn input_type(&self, _index: usize) -> (r: Option<&MessageType>) {
        None
    }

    fn output_type(&self, _index: usize) -> (r: &MessageType) {
        vstd::pervasive::unreached()
    }
}

} // verus!
