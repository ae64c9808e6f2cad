//! The execution engine: owns the validated graph and the event queue,
//! drains one event at a time, invokes node logic synchronously, and
//! re-injects produced outputs as new events.
//!
//! The engine is a state machine: construction validates the graph and
//! initializes every node; each `run_once` call then either makes progress,
//! reports a timeout, reports cooperative termination, or fails fatally.
//! Per-message conversion failures are not fatal: the message is dropped and
//! the failure becomes a log event.

use vstd::prelude::*;
use vstd::string::StringExecFns;

use crate::channel::{event_channel, EventReceiver, EventSender};
use crate::common::{
    events_view, Connection, Event, EventV, MessageFrom, MessageTo, NodePort, PortV,
};
use crate::conversion::{apply, apply_spec};
use crate::errors::{Error, ErrorV};
use crate::flow_checker::{
    check_flow, check_spec, conn_check, conn_resolved_ok, find_conversions, resolve_spec,
};
use crate::message::{data_display, DataV, MessageData};
use crate::node::{shape_eq, Node};
use crate::node_util::{find_node, lemma_find_node_valid, node_by_name, node_by_name_mut};
use crate::numeric::dec_digits;

verus! {

/// How many in-flight events the queue holds before producers block.
pub const QUEUE_BOUND: usize = 10;

/// The text of each log line.
pub open spec fn log_view(s: Seq<String>) -> Seq<Seq<char>> {
    Seq::new(s.len(), |i: int| s[i]@)
}

/// Two node collections agree on every static shape.
pub open spec fn shapes_eq<N: Node>(a: Seq<N>, b: Seq<N>) -> bool {
    a.len() == b.len() && forall|i: int|
        0 <= i < a.len() ==> shape_eq(&(#[trigger] a[i]), &b[i])
}

proof fn lemma_find_node_shapes<N: Node>(a: Seq<N>, b: Seq<N>, name: Seq<char>)
    requires
        shapes_eq(a, b),
    ensures
        find_node(a, name) == find_node(b, name),
    decreases a.len(),
{
    if a.len() > 0 {
        assert(shape_eq(&a[0], &b[0]));
        assert(shapes_eq(a.drop_first(), b.drop_first())) by {
            assert forall|i: int|
                0 <= i < a.len() - 1 implies shape_eq(
                &(#[trigger] a.drop_first()[i]),
                &b.drop_first()[i],
            ) by {
                assert(a.drop_first()[i] == a[i + 1]);
                assert(b.drop_first()[i] == b[i + 1]);
                assert(shape_eq(&a[i + 1], &b[i + 1]));
            }
        }
        lemma_find_node_shapes(a.drop_first(), b.drop_first(), name);
    }
}

/// Validation and resolution only read node shapes, so they carry over to
/// any collection with the same shapes.
proof fn lemma_conn_shapes<N: Node>(a: Seq<N>, b: Seq<N>, c: Connection)
    requires
        shapes_eq(a, b),
    ensures
        conn_check(a, c) == conn_check(b, c),
        conn_resolved_ok(a, c) == conn_resolved_ok(b, c),
{
    lemma_find_node_shapes(a, b, c.source.name@);
    lemma_find_node_shapes(a, b, c.dest.name@);
    lemma_find_node_valid(a, c.source.name@);
    lemma_find_node_valid(a, c.dest.name@);
    match find_node(a, c.source.name@) {
        None => {},
        Some(si) => {
            assert(shape_eq(&a[si], &b[si]));
        },
    }
    match find_node(a, c.dest.name@) {
        None => {},
        Some(di) => {
            assert(shape_eq(&a[di], &b[di]));
        },
    }
}

/// The log line for a message arriving at a node's input.
pub open spec fn input_log_line(name: Seq<char>, index: usize, multi: bool, m: DataV) -> Seq<
    char,
> {
    if multi {
        "Input to "@ + name + "["@ + dec_digits(index as nat) + "]: "@ + data_display(m)
    } else {
        "Input to "@ + name + ": "@ + data_display(m)
    }
}

/// The log line for a message leaving a node's output.
pub open spec fn output_log_line(name: Seq<char>, index: usize, multi: bool, m: DataV) -> Seq<
    char,
> {
    if multi {
        "Output from "@ + name + "["@ + dec_digits(index as nat) + "]: "@ + data_display(m)
    } else {
        "Output from "@ + name + ": "@ + data_display(m)
    }
}

/// The event that one connection turns a produced message into: the
/// converted message addressed to the connection's destination, or a log
/// event when the conversion fails on this message.
pub open spec fn route_one_event(c: Connection, m: DataV) -> EventV {
    match apply_spec(c.conversion->Some_0, m, resolved_dest_type(c)) {
        Ok(nv) => EventV::MessageTo(nv, c.dest@),
        Err(_) => EventV::Log("Failed to convert"@),
    }
}

/// The destination type a connection was resolved with.
pub open spec fn resolved_dest_type(c: Connection) -> crate::message::TypeV {
    crate::message::type_view(c.dest_type->Some_0)
}

/// What fan-out produces for one message at one source port: one event per
/// matching connection, in connection order, each converted independently.
pub open spec fn route_from_spec(conns: Seq<Connection>, from: PortV, m: DataV) -> Seq<EventV>
    decreases conns.len(),
{
    if conns.len() == 0 {
        Seq::empty()
    } else {
        let rest = route_from_spec(conns.drop_last(), from, m);
        let c = conns.last();
        if c.source.name@ == from.name && c.source.index == from.index {
            rest + seq![route_one_event(c, m)]
        } else {
            rest
        }
    }
}

/// A graph of typed processing nodes under execution: the validated node
/// and connection collections, the two ends of the event queue, and the
/// lines handed to the host's logging sink.
#[derive(Debug)]
pub struct FlowState<N> {
    pub nodes: Vec<N>,
    pub connections: Vec<Connection>,
    pub receiver: EventReceiver,
    pub sender: EventSender,
    pub log_lines: Vec<String>,
}

/// Sends each event into the queue, in order.
fn send_all(sender: &EventSender, events: Vec<Event>) {
    let mut events = events;
    while events.len() > 0
        decreases events@.len(),
    {
        let e = events.remove(0);
        sender.send(e);
    }
}

impl<N: Node> FlowState<N> {
    /// Every connection is resolved against the node collection.
    pub open spec fn wf(self) -> bool {
        forall|i: int|
            0 <= i < self.connections@.len() ==> conn_resolved_ok(
                self.nodes@,
                #[trigger] self.connections@[i],
            )
    }

    /// Builds a validated flow from a node collection and a connection
    /// list: checks the structure of every connection, resolves a converter
    /// and destination type for each, and then initializes every node with
    /// a handle to the event sink.  A flow that fails either pass never
    /// starts.
    #[verifier::loop_isolation(false)]
    pub fn build(nodes: Vec<N>, connections: Vec<Connection>) -> (r: Result<FlowState<N>, Error>)
        ensures
            match r {
                Ok(f) => {
                    &&& check_spec(nodes@, connections@) is Ok
                    &&& resolve_spec(nodes@, connections@) is Ok
                    &&& f.wf()
                    &&& shapes_eq(nodes@, f.nodes@)
                    &&& f.connections@.len() == connections@.len()
                    &&& forall|i: int|
                        0 <= i < connections@.len() ==> {
                            &&& (#[trigger] f.connections@[i]).source@ == connections@[i].source@
                            &&& f.connections@[i].dest@ == connections@[i].dest@
                        }
                    &&& f.log_lines@.len() == 0
                },
                Err(e) => match check_spec(nodes@, connections@) {
                    Err(ce) => e@ == ce,
                    Ok(_) => resolve_spec(nodes@, connections@) == Err::<(), ErrorV>(e@),
                },
            },
    {
        let ghost nodes0 = nodes@;
        let ghost conns0 = connections@;
        let mut nodes = nodes;
        let mut connections = connections;
        check_flow(&nodes, &connections)?;
        find_conversions(&nodes, &mut connections)?;
        let ghost resolved = connections@;
        let (sender, receiver) = event_channel(QUEUE_BOUND);
        let n = nodes.len();
        let mut i: usize = 0;
        while i < n
            invariant
                n == nodes@.len(),
                i <= n,
                nodes0.len() == n,
                shapes_eq(nodes0, nodes@),
                connections@ == resolved,
            decreases n - i,
        {
            let ghost before = nodes@;
            let node = &mut nodes[i];
            node.create(Some(&sender));
            proof {
                assert forall|j: int|
                    0 <= j < n implies shape_eq(&(#[trigger] nodes0[j]), &nodes@[j]) by {
                    if j == i {
                    } else {
                        assert(nodes@[j] == before[j]);
                    }
                }
            }
            i += 1;
        }
        let f = FlowState { nodes, connections, receiver, sender, log_lines: Vec::new() };
        proof {
            assert forall|k: int|
                0 <= k < f.connections@.len() implies conn_resolved_ok(
                f.nodes@,
                #[trigger] f.connections@[k],
            ) by {
                lemma_conn_shapes(nodes0, f.nodes@, f.connections@[k]);
            }
        }
        Ok(f)
    }

    /// One routing step of the fan-out: for every connection leaving the
    /// producing port, the message is converted independently and addressed
    /// to the connection's destination; a conversion failure yields a log
    /// event in its place.  If the producing node asks for output logging,
    /// the message is logged first.
    #[verifier::loop_isolation(false)]
    pub fn route_message_from(&mut self, mf: &MessageFrom) -> (events: Vec<Event>)
        requires
            old(self).wf(),
        ensures
            final(self).wf(),
            final(self).nodes == old(self).nodes,
            final(self).connections == old(self).connections,
            final(self).sender == old(self).sender,
            final(self).receiver == old(self).receiver,
            events_view(events@) == route_from_spec(
                old(self).connections@,
                mf.from@,
                mf.message@,
            ),
            ({
                let pre = *old(self);
                let post = *final(self);
                match find_node(pre.nodes@, mf.from.name@) {
                    Some(si) => if pre.nodes@[si].log_outputs_spec() {
                        log_view(post.log_lines@) == log_view(pre.log_lines@).push(
                            output_log_line(
                                mf.from.name@,
                                mf.from.index,
                                pre.nodes@[si].outputs_spec() != 1,
                                mf.message@,
                            ),
                        )
                    } else {
                        post.log_lines@ == pre.log_lines@
                    },
                    None => post.log_lines@ == pre.log_lines@,
                }
            }),
    {
        let log_info: Option<(bool, usize)> = match node_by_name(&self.nodes, mf.from.name.as_str()) {
            Some(src_node) => Some((src_node.common().log_outputs, src_node.num_outputs())),
            None => None,
        };
        if let Some((log_outputs, outs)) = log_info {
            if log_outputs {
                let mut line = "Output from ".to_owned();
                line.append(mf.from.name.as_str());
                if outs != 1 {
                    line.append("[");
                    let digits = crate::numeric::u64_to_string(mf.from.index as u64);
                    line.append(digits.as_str());
                    line.append("]: ");
                } else {
                    line.append(": ");
                }
                let shown = mf.message.to_display_string();
                line.append(shown.as_str());
                self.log_lines.push(line);
            }
        }
        let ghost conns = self.connections@;
        let mut events: Vec<Event> = Vec::new();
        proof {
            assert(conns.take(0) =~= Seq::<Connection>::empty());
            assert(events_view(events@) =~= route_from_spec(
                conns.take(0),
                mf.from@,
                mf.message@,
            ));
        }
        let n = self.connections.len();
        let mut k: usize = 0;
        while k < n
            invariant
                old(self).wf(),
                k <= n,
                n == conns.len(),
                conns == self.connections@,
                self.nodes == old(self).nodes,
                events_view(events@) == route_from_spec(
                    conns.take(k as int),
                    mf.from@,
                    mf.message@,
                ),
            decreases n - k,
        {
            let ghost before = events@;
            let c = &self.connections[k];
            proof {
                assert(conn_resolved_ok(self.nodes@, conns[k as int]));
            }
            if c.source.name == mf.from.name && c.source.index == mf.from.index {
                let conv = match &c.conversion {
                    Some(cv) => cv,
                    None => vstd::pervasive::unreached(),
                };
                let dt = match &c.dest_type {
                    Some(t) => t,
                    None => vstd::pervasive::unreached(),
                };
                match apply(conv, &mf.message, dt) {
                    Ok(converted) => {
                        let to = NodePort { name: c.dest.name.clone(), index: c.dest.index };
                        events.push(Event::MessageTo(MessageTo { message: converted, to }));
                    },
                    Err(e) => {
                        events.push(Event::Log(e.to_display_string()));
                    },
                }
            }
            proof {
                assert(conns.take(k + 1).drop_last() =~= conns.take(k as int));
                assert(conns.take(k + 1).last() == conns[k as int]);
                assert(events_view(events@) =~= route_from_spec(
                    conns.take(k + 1),
                    mf.from@,
                    mf.message@,
                ));
            }
            k += 1;
        }
        proof {
            assert(conns.take(n as int) =~= conns);
        }
        events
    }

    /// One delivery step: the destination node processes the message
    /// synchronously, and anything it produces becomes a new event at the
    /// node's first output port.  If the destination asks for input
    /// logging, the message is logged first.  A destination that does not
    /// exist, an input index out of range, or a node signalling an error
    /// are all fatal.
    #[verifier::loop_isolation(false)]
    pub fn route_message_to(&mut self, mt: &MessageTo) -> (r: Result<Vec<Event>, Error>)
        requires
            old(self).wf(),
        ensures
            final(self).wf(),
            shapes_eq(old(self).nodes@, final(self).nodes@),
            final(self).connections == old(self).connections,
            final(self).sender == old(self).sender,
            final(self).receiver == old(self).receiver,
            ({
                let pre = *old(self);
                let post = *final(self);
                match find_node(pre.nodes@, mt.to.name@) {
                    None => r matches Err(e) && e@ == ErrorV::InvalidNodeName(mt.to.name@)
                        && post.log_lines@ == pre.log_lines@,
                    Some(di) => {
                        let node = pre.nodes@[di];
                        if mt.to.index >= node.inputs_spec() {
                            (r matches Err(e) && e@ == ErrorV::InvalidPortIndex(
                                mt.to.name@,
                                mt.to.index,
                            )) && post.log_lines@ == pre.log_lines@
                        } else {
                            let logged = if node.log_inputs_spec() {
                                log_view(pre.log_lines@).push(
                                    input_log_line(
                                        mt.to.name@,
                                        mt.to.index,
                                        node.inputs_spec() != 1,
                                        mt.message@,
                                    ),
                                )
                            } else {
                                log_view(pre.log_lines@)
                            };
                            &&& log_view(post.log_lines@) == logged
                            &&& (r matches Ok(events) ==> events@.len() <= 1 && (events@.len()
                                == 1 ==> (events@[0]@ matches EventV::MessageFrom(m, p)
                                && p.name == mt.to.name@ && p.index == 0)))
                        }
                    },
                }
            }),
    {
        let ghost nodes0 = self.nodes@;
        let log_info: Option<(bool, usize, usize)> = match node_by_name(
            &self.nodes,
            mt.to.name.as_str(),
        ) {
            Some(dst) => Some((dst.common().log_inputs, dst.num_inputs(), 0)),
            None => None,
        };
        match log_info {
            None => {
                return Err(Error::InvalidNodeName(mt.to.name.clone()));
            },
            Some((log_inputs, num_inputs, _)) => {
                if mt.to.index >= num_inputs {
                    return Err(Error::InvalidPortIndex(mt.to.name.clone(), mt.to.index));
                }
                if log_inputs {
                    let mut line = "Input to ".to_owned();
                    line.append(mt.to.name.as_str());
                    if num_inputs != 1 {
                        line.append("[");
                        let digits = crate::numeric::u64_to_string(mt.to.index as u64);
                        line.append(digits.as_str());
                        line.append("]: ");
                    } else {
                        line.append(": ");
                    }
                    let shown = mt.message.to_display_string();
                    line.append(shown.as_str());
                    self.log_lines.push(line);
                }
            },
        }
        let run_result = match node_by_name_mut(&mut self.nodes, mt.to.name.as_str()) {
            Some(dst_node) => dst_node.run(&mt.message, mt.to.index),
            None => vstd::pervasive::unreached(),
        };
        proof {
            let di = find_node(nodes0, mt.to.name@)->Some_0;
            lemma_find_node_valid(nodes0, mt.to.name@);
            assert forall|j: int|
                0 <= j < nodes0.len() implies shape_eq(
                &(#[trigger] nodes0[j]),
                &self.nodes@[j],
            ) by {
                if j != di {
                    assert(self.nodes@[j] == nodes0[j]);
                }
            }
            assert forall|k: int|
                0 <= k < self.connections@.len() implies conn_resolved_ok(
                self.nodes@,
                #[trigger] self.connections@[k],
            ) by {
                lemma_conn_shapes(nodes0, self.nodes@, self.connections@[k]);
            }
        }
        let mut events: Vec<Event> = Vec::new();
        match run_result {
            Ok(Some(msg)) => {
                let from = NodePort { name: mt.to.name.clone(), index: 0 };
                events.push(Event::MessageFrom(MessageFrom { message: msg, from }));
            },
            Ok(None) => {},
            Err(e) => {
                return Err(e);
            },
        }
        Ok(events)
    }

    /// Consumes one event: delivery and production events are routed, log
    /// events are appended to the host-facing log, and a termination event
    /// ends the loop distinctly from any failure.
    pub fn dispatch_event(&mut self, e: Event) -> (r: Result<(), Error>)
        requires
            old(self).wf(),
        ensures
            final(self).wf(),
            shapes_eq(old(self).nodes@, final(self).nodes@),
            final(self).connections == old(self).connections,
            e@ is Terminate ==> (r matches Err(err) && err@ == ErrorV::Terminate(
                "received termination message"@,
            )),
            e@ matches EventV::MessageTo(m, p) ==> ({
                let pre = *old(self);
                match find_node(pre.nodes@, p.name) {
                    None => r matches Err(err) && err@ == ErrorV::InvalidNodeName(p.name),
                    Some(di) => p.index >= pre.nodes@[di].inputs_spec() ==> (r matches Err(
                        err,
                    ) && err@ == ErrorV::InvalidPortIndex(p.name, p.index)),
                }
            }),
            e@ matches EventV::Log(s) ==> r is Ok && ({
                let pre = *old(self);
                let post = *final(self);
                log_view(post.log_lines@) == log_view(pre.log_lines@).push(s)
            }),
            e@ is MessageFrom ==> r is Ok,
    {
        match e {
            Event::MessageTo(mt) => {
                let events = self.route_message_to(&mt)?;
                send_all(&self.sender, events);
                Ok(())
            },
            Event::MessageFrom(mf) => {
                let events = self.route_message_from(&mf);
                send_all(&self.sender, events);
                Ok(())
            },
            Event::Log(line) => {
                self.log_lines.push(line);
                Ok(())
            },
            Event::Terminate => {
                Err(Error::Terminate("received termination message".to_owned()))
            },
        }
    }

    /// One step of the host loop: waits on the event queue up to `timeout`,
    /// then consumes the event that arrived, if any.  The result reports
    /// progress (`Ok`), an elapsed wait (`Timeout`), cooperative shutdown
    /// (`Terminate`), or a fatal error (anything else).
    pub fn run_once(&mut self, timeout: std::time::Duration) -> (r: Result<(), Error>)
        requires
            old(self).wf(),
        ensures
            final(self).wf(),
            shapes_eq(old(self).nodes@, final(self).nodes@),
            final(self).connections == old(self).connections,
    {
        let received = self.receiver.recv_timeout(timeout);
        match received {
            None => Err(Error::Timeout),
            Some(e) => self.dispatch_event(e),
        }
    }

    /// Enqueues a message as if `from_node` had just produced it on
    /// `output_index`.
    pub fn send(&mut self, message: &MessageData, from_node: &str, output_index: usize) -> (r:
        Result<(), Error>)
        ensures
            r is Ok,
            *final(self) == *old(self),
    {
        let from = NodePort { name: from_node.to_owned(), index: output_index };
        self.sender.send(
            Event::MessageFrom(MessageFrom { message: message.deep_copy(), from }),
        );
        Ok(())
    }

    /// The first node carrying `name`, if any.
    pub fn get_node_by_name(&self, name: &str) -> (r: Option<&N>)
        ensures
            match r {
                Some(n) => {
                    &&& find_node(self.nodes@, name@) is Some
                    &&& *n == self.nodes@[find_node(self.nodes@, name@)->Some_0]
                },
                None => find_node(self.nodes@, name@) is None,
            },
    {
        node_by_name(&self.nodes, name)
    }

    /// A mutable borrow of the first node carrying `name`, if any.
    pub fn get_node_by_name_mut(&mut self, name: &str) -> (r: Option<&mut N>)
        ensures
            final(self).connections == old(self).connections,
            final(self).log_lines == old(self).log_lines,
            match r {
                Some(n) => {
                    &&& find_node(old(self).nodes@, name@) is Some
                    &&& *n == old(self).nodes@[find_node(old(self).nodes@, name@)->Some_0]
                    &&& final(self).nodes@ == old(self).nodes@.update(
                        find_node(old(self).nodes@, name@)->Some_0,
                        *final(n),
                    )
                },
                None => {
                    &&& find_node(old(self).nodes@, name@) is None
                    &&& final(self).nodes@ == old(self).nodes@
                },
            },
    {
        node_by_name_mut(&mut self.nodes, name)
    }

    /// Invokes `destroy` on every node, so that all background activity is
    /// stopped and joined before the flow is discarded.  Safe to call
    /// again: node teardown tolerates already-finished activity.
    #[verifier::loop_isolation(false)]
    pub fn destroy(&mut self)
        ensures
            old(self).wf() ==> final(self).wf(),
            shapes_eq(old(self).nodes@, final(self).nodes@),
            final(self).connections == old(self).connections,
    {
        let ghost nodes0 = self.nodes@;
        let n = self.nodes.len();
        let mut i: usize = 0;
        while i < n
            invariant
                n == self.nodes@.len(),
                i <= n,
                shapes_eq(nodes0, self.nodes@),
                self.connections == old(self).connections,
            decreases n - i,
        {
            let ghost before = self.nodes@;
            let node = &mut self.nodes[i];
            node.destroy();
            proof {
                assert forall|j: int|
                    0 <= j < n implies shape_eq(&(#[trigger] nodes0[j]), &self.nodes@[j]) by {
                    if j == i {
                    } else {
                        assert(self.nodes@[j] == before[j]);
                    }
                }
            }
            i += 1;
        }
        proof {
            if old(self).wf() {
                assert forall|k: int|
                    0 <= k < self.connections@.len() implies conn_resolved_ok(
                    self.nodes@,
                    #[trigger] self.connections@[k],
                ) by {
                    lemma_conn_shapes(nodes0, self.nodes@, self.connections@[k]);
                }
            }
        }
    }

    /// How many nodes the flow holds.
    pub fn node_count(&self) -> (r: usize)
        ensures
            r == self.nodes@.len(),
    {
        self.nodes.len()
    }

    /// How many connections the flow holds.
    pub fn connection_count(&self) -> (r: usize)
        ensures
            r == self.connections@.len(),
    {
        self.connections.len()
    }

    /// Another handle to the event sink, for the host to hand to background
    /// producers of its own.
    pub fn sink(&self) -> EventSender {
        self.sender.duplicate()
    }

    /// The lines handed to the host's logging sink so far.
    pub fn get_log_lines(&self) -> (r: &Vec<String>)
        ensures
            r == &self.log_lines,
    {
        &self.log_lines
    }
}

/// How many connections leave one port.
pub open spec fn matching_count(conns: Seq<Connection>, from: PortV) -> int
    decreases conns.len(),
{
    if conns.len() == 0 {
        0
    } else {
        matching_count(conns.drop_last(), from) + if conns.last().source.name@ == from.name
            && conns.last().source.index == from.index {
            1int
        } else {
            0int
        }
    }
}

/// The best-effort fan-out law: routing one message produces exactly one
/// event for every connection leaving the producing port — a conversion that
/// fails on one edge becomes that edge's log event and never silences the
/// other edges.
pub proof fn lemma_fanout_complete(conns: Seq<Connection>, from: PortV, m: DataV)
    ensures
        route_from_spec(conns, from, m).len() == matching_count(conns, from),
    decreases conns.len(),
{
    if conns.len() > 0 {
        lemma_fanout_complete(conns.drop_last(), from, m);
    }
}

} // verus!
