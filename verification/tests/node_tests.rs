use notred::errors::Error;
use notred::message::{MessageData, MessageType, TextContentType};
use notred::node::{Node, NodeCommon};
use notred::nodes::{AppendNode, CaptureNode, ExitNode};

#[test]
fn test_node_common() {
    let c = NodeCommon::new("n1");
    assert_eq!(c.name, "n1");
    assert!(!c.log_inputs);
    assert!(!c.log_outputs);
}

#[test]
fn test_append_node_shape() {
    let n = AppendNode::new(NodeCommon::new("a"), "!".to_string());
    assert_eq!(n.num_inputs(), 1);
    assert_eq!(n.num_outputs(), 1);
    assert_eq!(n.input_type(0), Some(&MessageType::Text(TextContentType::Plain)));
    assert_eq!(n.output_type(0), &MessageType::Text(TextContentType::Plain));
}

#[test]
fn test_append_node_rejects_non_text() {
    let mut n = AppendNode::new(NodeCommon::new("a"), "!".to_string());
    match n.run(&MessageData::Int(3), 0) {
        Err(Error::ConversionError(_)) => {}
        _ => panic!("a non-text message is a fatal mismatch"),
    }
}

#[test]
fn test_capture_node_keeps_order() {
    let mut n = CaptureNode::new(NodeCommon::new("c"));
    assert_eq!(n.num_inputs(), 1);
    assert_eq!(n.num_outputs(), 0);
    assert!(n.input_type(0).is_none());
    n.run(&MessageData::Int(1), 0).unwrap();
    n.run(&MessageData::from_str("x"), 0).unwrap();
    let msgs = n.get_captured_messages();
    assert_eq!(msgs.len(), 2);
    assert_eq!(msgs[0], MessageData::Int(1));
    assert_eq!(msgs[1], MessageData::from_str("x"));
}

#[test]
fn test_exit_node() {
    let mut n = ExitNode::new(NodeCommon::new("e"));
    assert!(!n.get_should_exit());
    n.run(&MessageData::from_str("anything"), 0).unwrap();
    assert!(n.get_should_exit());
    n.destroy();
    n.destroy();
    assert!(n.get_should_exit());
}

#[test]
fn test_error_display() {
    assert_eq!(
        Error::InvalidNodeName("x".to_string()).to_display_string(),
        "Invalid node name: x"
    );
    assert_eq!(
        Error::InvalidPortIndex("x".to_string(), 3).to_display_string(),
        "Invalid port index (x.3)"
    );
    assert_eq!(
        Error::Terminate("done".to_string()).to_display_string(),
        "Execution terminated: done"
    );
    assert_eq!(
        Error::ConversionError("why".to_string()).to_display_string(),
        "Conversion error: why"
    );
}

#[test]
fn test_message_display() {
    assert_eq!(MessageData::from_str("hi").to_display_string(), "\"hi\"");
    assert_eq!(MessageData::Int(-5).to_display_string(), "-5");
    assert_eq!(MessageType::Int.to_display_string(), "integer");
    assert_eq!(
        MessageType::Text(TextContentType::Json).to_display_string(),
        "text/json"
    );
}
