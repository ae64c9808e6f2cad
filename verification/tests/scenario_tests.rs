// End-to-end scenarios driven through the shared event sink, exactly as a
// host-side producer would feed the engine: the ticker's decision state
// yields each tick, and the tick goes through the real bounded queue.

use std::time::Duration;

use notred::channel::EventSender;
use notred::common::{Connection, DurationMsec, Event, MessageFrom, NodePort};
use notred::errors::Error;
use notred::flow::FlowState;
use notred::message::MessageData;
use notred::node::NodeCommon;
use notred::nodes::{AppendNode, BuiltinNode, CaptureNode, TickerNode, TickerState};

fn port(name: &str) -> NodePort {
    NodePort { name: name.to_string(), index: 0 }
}

fn connection(src: &str, dst: &str) -> Connection {
    Connection { source: port(src), dest: port(dst), conversion: None, dest_type: None }
}

// One tick of a producer: what the background thread of a ticker sends.
fn produce_tick(state: &mut TickerState, name: &str, sender: &EventSender) -> bool {
    let (value, done) = state.tick();
    sender.send(Event::MessageFrom(MessageFrom {
        message: MessageData::Int(value),
        from: NodePort { name: name.to_string(), index: 0 },
    }));
    done
}

// A bounded periodic source (period 50 milliseconds, limit 1) feeds two
// append nodes in series and in parallel into a capturing sink; after a
// sufficiently long run with timeout-driven retries, the sink holds exactly
// the two expected strings, whatever the arrival order of the branches.
#[test]
fn test_periodic_source_scenario() {
    let ticker = TickerNode::new(NodeCommon::new("ticker1"), DurationMsec(50), Some(1));
    let mut producer_state = ticker.start_state();
    let nodes = vec![
        BuiltinNode::Ticker(ticker),
        BuiltinNode::Append(AppendNode::new(NodeCommon::new("append1"), " test".to_string())),
        BuiltinNode::Append(AppendNode::new(NodeCommon::new("append2"), " test2".to_string())),
        BuiltinNode::Capture(CaptureNode::new(NodeCommon::new("capture1"))),
    ];
    let connections = vec![
        connection("ticker1", "append1"),
        connection("ticker1", "append2"),
        connection("append1", "append2"),
        connection("append2", "capture1"),
    ];

    let mut flow = FlowState::build(nodes, connections).unwrap();
    let sink = flow.sink();

    // The bounded producer runs to its limit of one tick.
    let done = produce_tick(&mut producer_state, "ticker1", &sink);
    assert!(done);

    let mut idle = 0;
    while idle < 3 {
        match flow.run_once(Duration::from_millis(50)) {
            Ok(()) => idle = 0,
            Err(Error::Timeout) => idle += 1,
            Err(e) => panic!("unexpected error: {}", e.to_display_string()),
        }
    }

    let capture_node = match flow.get_node_by_name("capture1").unwrap() {
        BuiltinNode::Capture(c) => c,
        _ => unreachable!(),
    };
    let msgs = capture_node.get_captured_messages();
    assert_eq!(msgs.len(), 2);
    assert!(msgs.contains(&MessageData::from_str("0 test2")));
    assert!(msgs.contains(&MessageData::from_str("0 test test2")));

    flow.destroy();
}

// Two producers sharing the sink fan into one flow; the engine sees their
// events in queue arrival order and all of them are delivered.
#[test]
fn test_two_producers_share_sink() {
    let nodes = vec![
        BuiltinNode::Ticker(TickerNode::new(NodeCommon::new("t1"), DurationMsec(10), Some(2))),
        BuiltinNode::Ticker(TickerNode::new(NodeCommon::new("t2"), DurationMsec(10), Some(1))),
        BuiltinNode::Capture(CaptureNode::new(NodeCommon::new("capture1"))),
    ];
    let connections = vec![connection("t1", "capture1"), connection("t2", "capture1")];
    let mut flow = FlowState::build(nodes, connections).unwrap();

    let sink_one = flow.sink();
    let sink_two = sink_one.duplicate();
    let mut s1 = TickerState::new(Some(2));
    let mut s2 = TickerState::new(Some(1));
    assert!(!produce_tick(&mut s1, "t1", &sink_one));
    assert!(produce_tick(&mut s2, "t2", &sink_two));
    assert!(produce_tick(&mut s1, "t1", &sink_one));

    let mut idle = 0;
    while idle < 3 {
        match flow.run_once(Duration::from_millis(20)) {
            Ok(()) => idle = 0,
            Err(Error::Timeout) => idle += 1,
            Err(e) => panic!("unexpected error: {}", e.to_display_string()),
        }
    }

    let capture_node = match flow.get_node_by_name("capture1").unwrap() {
        BuiltinNode::Capture(c) => c,
        _ => unreachable!(),
    };
    let msgs = capture_node.get_captured_messages();
    assert_eq!(msgs.len(), 3);
    assert_eq!(msgs[0], MessageData::Int(0));
    assert_eq!(msgs[1], MessageData::Int(0));
    assert_eq!(msgs[2], MessageData::Int(1));

    flow.destroy();
}
