//! A source unit that emits an increasing counter periodically, with an
//! optional bound on the number of ticks.
//!
//! The decision logic — which value the next tick carries, and when a
//! bounded ticker is done — lives in [`TickerState`] and is verified here.
//! The periodic producer thread itself (the sleep between ticks, the stop
//! signal and the join) is background activity that the host owns and
//! drives; it calls [`TickerState::tick`] once per period and sends the
//! produced message through its clone of the event sink.

use vstd::prelude::*;

use crate::channel::EventSender;
use crate::common::DurationMsec;
use crate::message::{MessageData, MessageType, TypeV};
use crate::node::{Node, NodeCommon, NodeFunctionResult};

verus! {

/// The decision state of a periodic counter source: the next value to emit,
/// and how many ticks remain before a bounded ticker stops on its own.
#[derive(Debug)]
pub struct TickerState {
    pub count: i64,
    pub remaining: Option<u64>,
}

impl TickerState {
    pub fn new(limit: Option<u64>) -> (r: TickerState)
        ensures
            r.count == 0,
            r.remaining == limit,
    {
        TickerState { count: 0, remaining: limit }
    }

    /// One tick: yields the message value to emit now and whether this tick
    /// was the last one of a bounded ticker.
    pub fn tick(&mut self) -> (r: (i64, bool))
        requires
            old(self).count < i64::MAX,
            old(self).remaining matches Some(l) ==> l > 0,
        ensures
            r.0 == old(self).count,
            final(self).count == old(self).count + 1,
            final(self).remaining == match old(self).remaining {
                Some(l) => Some((l - 1) as u64),
                None => None::<u64>,
            },
            r.1 == (final(self).remaining == Some(0u64)),
    {
        let value = self.count;
        self.count = self.count + 1;
        let done: bool;
        match self.remaining {
            Some(l) => {
                let left = l - 1;
                self.remaining = Some(left);
                done = left == 0;
            },
            None => {
                done = false;
            },
        }
        (value, done)
    }
}

/// The graph-facing shape of the ticker: no inputs, one integer output.
#[derive(Debug)]
pub struct TickerNode {
    pub common: NodeCommon,
    pub period: DurationMsec,
    pub limit: Option<u64>,
    pub out_type: MessageType,
}

impl TickerNode {
    pub fn new(common: NodeCommon, period: DurationMsec, limit: Option<u64>) -> (r: TickerNode)
        ensures
            r.common == common,
            r.period == period,
            r.limit == limit,
            r.inputs_spec() == 0,
            r.outputs_spec() == 1,
            r.output_type_spec(0) == TypeV::Int,
    {
        TickerNode { common, period, limit, out_type: MessageType::Int }
    }

    /// A fresh decision state for this ticker's bound.
    pub fn start_state(&self) -> (r: TickerState)
        ensures
            r.count == 0,
            r.remaining == self.limit,
    {
        TickerState::new(self.limit)
    }
}

impl Node for TickerNode {
    open spec fn name_spec(&self) -> Seq<char> {
        self.common.name@
    }

    open spec fn inputs_spec(&self) -> nat {
        0
    }

    open spec fn outputs_spec(&self) -> nat {
        1
    }

    open spec fn input_type_spec(&self, index: int) -> Option<TypeV> {
        arbitrary()
    }

    open spec fn output_type_spec(&self, index: int) -> TypeV {
        self.out_type@
    }

    open spec fn log_inputs_spec(&self) -> bool {
        self.common.log_inputs
    }

    open spec fn log_outputs_spec(&self) -> bool {
        self.common.log_outputs
    }

    fn common(&self) -> (c: &NodeCommon) {
        &self.common
    }

    fn create(&mut self, _event_sender: Option<&EventSender>) {
    }

    fn run(&mut self, _msg: &MessageData, _input: usize) -> (r: NodeFunctionResult) {
        vstd::pervasive::unreached()
    }

    fn destroy(&mut self) {
    }

    fn num_inputs(&self) -> (r: usize) {
        0
    }

    fn num_outputs(&self) -> (r: usize) {
        1
    }

    fn input_type(&self, _index: usize) -> (r: Option<&MessageType>) {
        vstd::pervasive::unreached()
    }

    fn output_type(&self, _index: usize) -> (r: &MessageType) {
        &self.out_type
    }
}

} // verus!
