use std::time::Duration;

use notred::common::{Connection, DurationMsec, Event, MessageTo, NodePort};
use notred::errors::Error;
use notred::flow::FlowState;
use notred::message::{Binary, BinaryContentType, MessageData};
use notred::node::{Node, NodeCommon};
use notred::nodes::{AppendNode, BuiltinNode, CaptureNode, TerminateNode, TickerNode};

fn port(name: &str, index: usize) -> NodePort {
    NodePort { name: name.to_string(), index }
}

fn connection(src: &str, dst: &str) -> Connection {
    Connection { source: port(src, 0), dest: port(dst, 0), conversion: None, dest_type: None }
}

fn ticker(name: &str, period_ms: u64, limit: Option<u64>) -> BuiltinNode {
    BuiltinNode::Ticker(TickerNode::new(NodeCommon::new(name), DurationMsec(period_ms), limit))
}

fn append(name: &str, suffix: &str) -> BuiltinNode {
    BuiltinNode::Append(AppendNode::new(NodeCommon::new(name), suffix.to_string()))
}

fn capture(name: &str) -> BuiltinNode {
    BuiltinNode::Capture(CaptureNode::new(NodeCommon::new(name)))
}

fn terminate(name: &str) -> BuiltinNode {
    BuiltinNode::Terminate(TerminateNode::new(NodeCommon::new(name)))
}

// The graph of the original end-to-end scenario: a bounded periodic source
// feeding two append nodes in series and in parallel into a capturing sink.
// The single tick a period-50 limit-1 ticker would produce is injected
// directly, so the run is deterministic.
#[test]
fn test_create_flow() {
    let nodes = vec![
        ticker("ticker1", 50, Some(1)),
        append("append1", " test"),
        append("append2", " test2"),
        capture("capture1"),
    ];
    let connections = vec![
        connection("ticker1", "append1"),
        connection("ticker1", "append2"),
        connection("append1", "append2"),
        connection("append2", "capture1"),
    ];

    let mut flow = FlowState::build(nodes, connections).unwrap();
    assert_eq!(flow.connection_count(), 4);
    assert_eq!(flow.node_count(), 4);

    flow.send(&MessageData::Int(0), "ticker1", 0).unwrap();

    for _i in 1..10 {
        let res = flow.run_once(Duration::from_millis(100));
        if let Ok(()) = res {
            continue;
        }
        if let Err(Error::Timeout) = res {
            continue;
        }
        res.unwrap();
    }

    let capture_node = match flow.get_node_by_name("capture1").unwrap() {
        BuiltinNode::Capture(c) => c,
        _ => panic!("expected the capture node"),
    };
    let msgs = capture_node.get_captured_messages();
    assert_eq!(msgs.len(), 2);
    assert!(msgs.contains(&MessageData::from_str("0 test2")));
    assert!(msgs.contains(&MessageData::from_str("0 test test2")));
}

#[test]
fn test_make_append_node() {
    let mut n = append("node1", " test");
    assert_eq!(n.common().name, "node1");
    let out = n.run(&MessageData::from_str("this is"), 0).unwrap().unwrap();
    assert_eq!(out.as_text().unwrap(), "this is test");
}

#[test]
fn test_make_ticker_node() {
    let n = ticker("node1", 500, None);
    assert_eq!(n.common().name, "node1");
    let ticker_node = match &n {
        BuiltinNode::Ticker(t) => t,
        _ => unreachable!(),
    };
    assert_eq!(ticker_node.period.to_duration(), Duration::from_millis(500));
    // In 1200 milliseconds a 500-millisecond ticker fires twice.
    let mut state = ticker_node.start_state();
    let (v0, done0) = state.tick();
    let (v1, done1) = state.tick();
    assert_eq!((v0, v1), (0, 1));
    assert!(!done0 && !done1);
    assert_eq!(state.count, 2);
}

#[test]
fn test_bounded_ticker_state() {
    let node = TickerNode::new(NodeCommon::new("t"), DurationMsec(50), Some(1));
    let mut state = node.start_state();
    let (value, done) = state.tick();
    assert_eq!(value, 0);
    assert!(done);
}

// A flow containing a node that emits a termination event on any input
// makes the host loop exit cleanly, not through a panic or a fatal error.
#[test]
fn test_terminate_stops_flow() {
    let nodes = vec![ticker("ticker1", 50, Some(1)), terminate("stop")];
    let connections = vec![connection("ticker1", "stop")];
    let mut flow = FlowState::build(nodes, connections).unwrap();

    flow.send(&MessageData::Int(0), "ticker1", 0).unwrap();

    let mut terminated = false;
    for _i in 0..10 {
        match flow.run_once(Duration::from_millis(100)) {
            Ok(()) => continue,
            Err(Error::Timeout) => continue,
            Err(Error::Terminate(_)) => {
                terminated = true;
                break;
            }
            Err(e) => panic!("unexpected error: {}", e.to_display_string()),
        }
    }
    assert!(terminated);
}

#[test]
fn test_unknown_node_name_rejected() {
    let nodes = vec![ticker("ticker1", 50, None)];
    let connections = vec![connection("ticker1", "missing")];
    match FlowState::<BuiltinNode>::build(nodes, connections) {
        Err(Error::InvalidNodeName(name)) => assert_eq!(name, "missing"),
        other => panic!("expected an invalid-node-name error, got {:?}", other.is_ok()),
    }
}

// The port-index boundary: an index equal to the declared count is invalid,
// the index just below it is valid.
#[test]
fn test_port_index_boundary() {
    let nodes = vec![ticker("ticker1", 50, None), capture("capture1")];
    let mut bad = connection("ticker1", "capture1");
    bad.source.index = 1;
    match FlowState::<BuiltinNode>::build(nodes, vec![bad]) {
        Err(Error::InvalidPortIndex(name, index)) => {
            assert_eq!(name, "ticker1");
            assert_eq!(index, 1);
        }
        other => panic!("expected an invalid-port-index error, got {:?}", other.is_ok()),
    }

    let nodes = vec![ticker("ticker1", 50, None), capture("capture1")];
    let good = connection("ticker1", "capture1");
    assert!(FlowState::build(nodes, vec![good]).is_ok());
}

#[test]
fn test_timeout_is_not_fatal() {
    let nodes = vec![capture("capture1")];
    let mut flow = FlowState::build(nodes, vec![]).unwrap();
    match flow.run_once(Duration::from_millis(10)) {
        Err(Error::Timeout) => {}
        _ => panic!("an empty queue should time out"),
    }
}

// A conversion that fails on one message is logged and dropped; the flow
// keeps running.
#[test]
fn test_conversion_failure_is_logged() {
    let nodes = vec![ticker("ticker1", 50, None), append("append1", "!")];
    let connections = vec![connection("ticker1", "append1")];
    let mut flow = FlowState::build(nodes, connections).unwrap();

    // The connection was resolved for integers; a text message cannot go
    // through its numeric rendering step.
    flow.send(&MessageData::from_str("aaa"), "ticker1", 0).unwrap();

    for _i in 0..5 {
        match flow.run_once(Duration::from_millis(50)) {
            Ok(()) => continue,
            Err(Error::Timeout) => break,
            Err(e) => panic!("unexpected error: {}", e.to_display_string()),
        }
    }
    let lines = flow.get_log_lines();
    assert!(lines.iter().any(|l| l == "Failed to convert"));
}

// Tearing a flow down twice is safe.
#[test]
fn test_destroy_twice() {
    let nodes = vec![ticker("ticker1", 50, Some(1)), capture("capture1")];
    let connections = vec![connection("ticker1", "capture1")];
    let mut flow = FlowState::build(nodes, connections).unwrap();
    flow.destroy();
    flow.destroy();
}

#[test]
fn test_input_logging() {
    let mut common = NodeCommon::new("capture1");
    common.log_inputs = true;
    let nodes = vec![
        ticker("ticker1", 50, None),
        BuiltinNode::Capture(CaptureNode::new(common)),
    ];
    let connections = vec![connection("ticker1", "capture1")];
    let mut flow = FlowState::build(nodes, connections).unwrap();
    flow.send(&MessageData::Int(5), "ticker1", 0).unwrap();
    for _i in 0..5 {
        match flow.run_once(Duration::from_millis(50)) {
            Ok(()) => continue,
            _ => break,
        }
    }
    let lines = flow.get_log_lines();
    assert!(lines.iter().any(|l| l == "Input to capture1: 5"), "log: {:?}", lines);
}

// A message addressed to a node that is not in the graph is fatal, as is a
// node signalling an error from its processing step.
#[test]
fn test_fatal_runtime_errors() {
    let nodes = vec![ticker("ticker1", 50, None), append("append1", "!")];
    let connections = vec![connection("ticker1", "append1")];
    let mut flow = FlowState::build(nodes, connections).unwrap();

    let ghost_event = Event::MessageTo(MessageTo {
        message: MessageData::Int(1),
        to: port("ghost", 0),
    });
    match flow.dispatch_event(ghost_event) {
        Err(Error::InvalidNodeName(name)) => assert_eq!(name, "ghost"),
        _ => panic!("an unknown destination is fatal"),
    }

    let bad_index = Event::MessageTo(MessageTo {
        message: MessageData::from_str("x"),
        to: port("append1", 1),
    });
    match flow.dispatch_event(bad_index) {
        Err(Error::InvalidPortIndex(name, index)) => {
            assert_eq!(name, "append1");
            assert_eq!(index, 1);
        }
        _ => panic!("an out-of-range input index is fatal"),
    }

    let mismatched = Event::MessageTo(MessageTo {
        message: MessageData::Binary(Binary {
            value: vec![1],
            content_type: BinaryContentType::Unknown,
        }),
        to: port("append1", 0),
    });
    match flow.dispatch_event(mismatched) {
        Err(Error::ConversionError(_)) => {}
        _ => panic!("a node signalling an error is fatal"),
    }
}

#[test]
fn test_output_logging() {
    let mut common = NodeCommon::new("ticker1");
    common.log_outputs = true;
    let nodes = vec![
        BuiltinNode::Ticker(TickerNode::new(common, DurationMsec(50), None)),
        capture("capture1"),
    ];
    let connections = vec![connection("ticker1", "capture1")];
    let mut flow = FlowState::build(nodes, connections).unwrap();
    flow.send(&MessageData::Int(7), "ticker1", 0).unwrap();
    for _i in 0..5 {
        match flow.run_once(Duration::from_millis(50)) {
            Ok(()) => continue,
            _ => break,
        }
    }
    let lines = flow.get_log_lines();
    assert!(lines.iter().any(|l| l == "Output from ticker1: 7"), "log: {:?}", lines);
}
