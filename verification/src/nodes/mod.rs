//! The built-in processing units, and the closed sum of them that a flow of
//! built-ins runs over.

use vstd::prelude::*;

pub mod append;
pub mod capture;
pub mod exit;
pub mod terminate;
pub mod ticker;

pub use append::AppendNode;
pub use capture::CaptureNode;
pub use exit::ExitNode;
pub use terminate::TerminateNode;
pub use ticker::{TickerNode, TickerState};

use crate::channel::EventSender;
use crate::message::{MessageData, MessageType, TypeV};
use crate::node::{Node, NodeCommon, NodeFunctionResult};

verus! {

/// One of the built-in processing units.  The engine is generic over the
/// node contract; this sum lets a flow hold the built-ins in one collection.
pub enum BuiltinNode {
    Append(AppendNode),
    Capture(CaptureNode),
    Exit(ExitNode),
    Terminate(TerminateNode),
    Ticker(TickerNode),
}

impl Node for BuiltinNode {
    open spec fn name_spec(&self) -> Seq<char> {
        match self {
            BuiltinNode::Append(n) => n.name_spec(),
            BuiltinNode::Capture(n) => n.name_spec(),
            BuiltinNode::Exit(n) => n.name_spec(),
            BuiltinNode::Terminate(n) => n.name_spec(),
            BuiltinNode::Ticker(n) => n.name_spec(),
        }
    }

    open spec fn inputs_spec(&self) -> nat {
        match self {
            BuiltinNode::Append(n) => n.inputs_spec(),
            BuiltinNode::Capture(n) => n.inputs_spec(),
            BuiltinNode::Exit(n) => n.inputs_spec(),
            BuiltinNode::Terminate(n) => n.inputs_spec(),
            BuiltinNode::Ticker(n) => n.inputs_spec(),
        }
    }

    open spec fn outputs_spec(&self) -> nat {
        match self {
            BuiltinNode::Append(n) => n.outputs_spec(),
            BuiltinNode::Capture(n) => n.outputs_spec(),
            BuiltinNode::Exit(n) => n.outputs_spec(),
            BuiltinNode::Terminate(n) => n.outputs_spec(),
            BuiltinNode::Ticker(n) => n.outputs_spec(),
        }
    }

    open spec fn input_type_spec(&self, index: int) -> Option<TypeV> {
        match self {
            BuiltinNode::Append(n) => n.input_type_spec(index),
            BuiltinNode::Capture(n) => n.input_type_spec(index),
            BuiltinNode::Exit(n) => n.input_type_spec(index),
            BuiltinNode::Terminate(n) => n.input_type_spec(index),
            BuiltinNode::Ticker(n) => n.input_type_spec(index),
        }
    }

    open spec fn output_type_spec(&self, index: int) -> TypeV {
        match self {
            BuiltinNode::Append(n) => n.output_type_spec(index),
            BuiltinNode::Capture(n) => n.output_type_spec(index),
            BuiltinNode::Exit(n) => n.output_type_spec(index),
            BuiltinNode::Terminate(n) => n.output_type_spec(index),
            BuiltinNode::Ticker(n) => n.output_type_spec(index),
        }
    }

    open spec fn log_inputs_spec(&self) -> bool {
        match self {
            BuiltinNode::Append(n) => n.log_inputs_spec(),
            BuiltinNode::Capture(n) => n.log_inputs_spec(),
            BuiltinNode::Exit(n) => n.log_inputs_spec(),
            BuiltinNode::Terminate(n) => n.log_inputs_spec(),
            BuiltinNode::Ticker(n) => n.log_inputs_spec(),
        }
    }

    open spec fn log_outputs_spec(&self) -> bool {
        match self {
            BuiltinNode::Append(n) => n.log_outputs_spec(),
            BuiltinNode::Capture(n) => n.log_outputs_spec(),
            BuiltinNode::Exit(n) => n.log_outputs_spec(),
            BuiltinNode::Terminate(n) => n.log_outputs_spec(),
            BuiltinNode::Ticker(n) => n.log_outputs_spec(),
        }
    }

    fn common(&self) -> (c: &NodeCommon) {
        match self {
            BuiltinNode::Append(n) => n.common(),
            BuiltinNode::Capture(n) => n.common(),
            BuiltinNode::Exit(n) => n.common(),
            BuiltinNode::Terminate(n) => n.common(),
            BuiltinNode::Ticker(n) => n.common(),
        }
    }

    fn create(&mut self, event_sender: Option<&EventSender>) {
        match self {
            BuiltinNode::Append(n) => n.create(event_sender),
            BuiltinNode::Capture(n) => n.create(event_sender),
            BuiltinNode::Exit(n) => n.create(event_sender),
            BuiltinNode::Terminate(n) => n.create(event_sender),
            BuiltinNode::Ticker(n) => n.create(event_sender),
        }
    }

    fn run(&mut self, msg: &MessageData, input: usize) -> (r: NodeFunctionResult) {
        match self {
            BuiltinNode::Append(n) => n.run(msg, input),
            BuiltinNode::Capture(n) => n.run(msg, input),
            BuiltinNode::Exit(n) => n.run(msg, input),
            BuiltinNode::Terminate(n) => n.run(msg, input),
            BuiltinNode::Ticker(n) => n.run(msg, input),
        }
    }

    fn destroy(&mut self) {
        match self {
            BuiltinNode::Append(n) => n.destroy(),
            BuiltinNode::Capture(n) => n.destroy(),
            BuiltinNode::Exit(n) => n.destroy(),
            BuiltinNode::Terminate(n) => n.destroy(),
            BuiltinNode::Ticker(n) => n.destroy(),
        }
    }

    fn num_inputs(&self) -> (r: usize) {
        match self {
            BuiltinNode::Append(n) => n.num_inputs(),
            BuiltinNode::Capture(n) => n.num_inputs(),
            BuiltinNode::Exit(n) => n.num_inputs(),
            BuiltinNode::Terminate(n) => n.num_inputs(),
            BuiltinNode::Ticker(n) => n.num_inputs(),
        }
    }

    fn num_outputs(&self) -> (r: usize) {
        match self {
            BuiltinNode::Append(n) => n.num_outputs(),
            BuiltinNode::Capture(n) => n.num_outputs(),
            BuiltinNode::Exit(n) => n.num_outputs(),
            BuiltinNode::Terminate(n) => n.num_outputs(),
            BuiltinNode::Ticker(n) => n.num_outputs(),
        }
    }

    fn input_type(&self, index: usize) -> (r: Option<&MessageType>) {
        match self {
            BuiltinNode::Append(n) => n.input_type(index),
            BuiltinNode::Capture(n) => n.input_type(index),
            BuiltinNode::Exit(n) => n.input_type(index),
            BuiltinNode::Terminate(n) => n.input_type(index),
            BuiltinNode::Ticker(n) => n.input_type(index),
        }
    }

    fn output_type(&self, index: usize) -> (r: &MessageType) {
        match self {
            BuiltinNode::Append(n) => n.output_type(index),
            BuiltinNode::Capture(n) => n.output_type(index),
            BuiltinNode::Exit(n) => n.output_type(index),
            BuiltinNode::Terminate(n) => n.output_type(index),
            BuiltinNode::Ticker(n) => n.output_type(index),
        }
    }
}

} // verus!
