//! A unit that appends a fixed suffix to every text message it receives.

use vstd::prelude::*;
use vstd::string::StringExecFns;

use crate::channel::EventSender;
use crate::errors::Error;
use crate::message::{DataV, MessageData, MessageType, Text, TextContentType, TypeV};
use crate::node::{Node, NodeCommon, NodeFunctionResult};

verus! {

/// Takes plain text in, and emits the text with `what_to_append` added.
#[derive(Debug)]
pub struct AppendNode {
    pub common: NodeCommon,
    pub what_to_append: String,
    pub port_type: MessageType,
}

impl AppendNode {
    pub fn new(common: NodeCommon, what_to_append: String) -> (r: AppendNode)
        ensures
            r.common == common,
            r.what_to_append == what_to_append,
            r.inputs_spec() == 1,
            r.outputs_spec() == 1,
            r.input_type_spec(0) == Some(TypeV::Text(TextContentType::Plain)),
            r.output_type_spec(0) == TypeV::Text(TextContentType::Plain),
    {
        AppendNode {
            common,
            what_to_append,
            port_type: MessageType::Text(TextContentType::Plain),
        }
    }

    /// The processing step: text comes back with the suffix appended, and
    /// anything that is not text is a fatal mismatch.
    pub fn append_to(&self, msg: &MessageData) -> (r: NodeFunctionResult)
        ensures
            match msg@ {
                DataV::Text(s, _) => (r matches Ok(m) && m matches Some(out) && out@
                    == DataV::Text(s + self.what_to_append@, TextContentType::Plain)),
                _ => r is Err,
            },
    {
        if let MessageData::Text(text) = msg {
            let mut value = text.value.clone();
            value.append(self.what_to_append.as_str());
            Ok(Some(MessageData::Text(Text { value, content_type: TextContentType::Plain })))
        } else {
            Err(Error::ConversionError("expected a text message".to_owned()))
        }
    }
}

impl Node for AppendNode {
    open spec fn name_spec(&self) -> Seq<char> {
        self.common.name@
    }

    open spec fn inputs_spec(&self) -> nat {
        1
    }

    open spec fn outputs_spec(&self) -> nat {
        1
    }

    open spec fn input_type_spec(&self, index: int) -> Option<TypeV> {
        Some(self.port_type@)
    }

    open spec fn output_type_spec(&self, index: int) -> TypeV {
        self.port_type@
    }

    open spec fn log_inputs_spec(&self) -> bool {
        self.common.log_inputs
    }

    open spec fn log_outputs_spec(&self) -> bool {
        self.common.log_outputs
    }

    fn common(&self) -> (c: &NodeCommon) {
        &self.common
    }

    fn create(&mut self, _event_sender: Option<&EventSender>) {
    }

    fn run(&mut self, msg: &MessageData, _input: usize) -> (r: NodeFunctionResult) {
        self.append_to(msg)
    }

    fn destroy(&mut self) {
    }

    fn num_inputs(&self) -> (r: usize) {
        1
    }

    fn num_outputs(&self) -> (r: usize) {
        1
    }

    fn input_type(&self, _index: usize) -> (r: Option<&MessageType>) {
        Some(&self.port_type)
    }

    fn output_type(&self, _index: usize) -> (r: &MessageType) {
        &self.port_type
    }
}

} // verus!
