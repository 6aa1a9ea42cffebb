use dora_node_api::node::{
    DoraNode, DrainEvent, DrainStep, NodeError, NodeRunConfig, OutputCheck,
};
use dora_node_api::sample::DataMessage;
use dora_node_api::tracker::DropToken;
use dora_node_api::ZERO_COPY_THRESHOLD;

fn node_with_outputs(outputs: &[&str]) -> DoraNode {
    let config = NodeRunConfig::new(
        vec!["in".to_string()],
        outputs.iter().map(|s| s.to_string()).collect(),
    );
    DoraNode::new(
        "node".to_string(),
        "flow".to_string(),
        config,
        Ok(serde_yaml::Value::Null),
    )
}

#[test]
fn inline_send_of_sixteen_bytes() {
    let mut node = node_with_outputs(&["a"]);
    assert_eq!(node.validate_output(&"a".to_string()), OutputCheck::Active);
    let mut sample = node.allocate_data_sample(16).unwrap();
    assert!(!sample.is_shared());
    assert_eq!(sample.len(), 16);
    let data: Vec<u8> = (0..16).collect();
    assert!(sample.write_inline(&data));
    let out = node
        .send_output_sample("a".to_string(), Some(sample), DropToken { id: 1001 }, &vec![], false)
        .unwrap()
        .expect("active output");
    assert_eq!(out.output_id, "a");
    assert!(out.retained.is_none());
    match out.data {
        Some(DataMessage::Vec(_)) => {}
        _ => panic!("expected an inline payload"),
    }
    node.record_sent(out.retained);
    assert_eq!(node.outstanding_regions(), 0);
}

#[test]
fn inline_sample_starts_zeroed_and_keeps_written_bytes() {
    let mut node = node_with_outputs(&["a"]);
    let mut sample = node.allocate_data_sample(4).unwrap();
    assert_eq!(sample.inline_data(), Some(vec![0, 0, 0, 0]));
    assert!(sample.write_inline(&[7, 8]));
    assert_eq!(sample.inline_data(), Some(vec![7, 8, 0, 0]));
}

#[test]
fn threshold_decides_sample_kind() {
    let mut node = node_with_outputs(&["a"]);
    let small = node.allocate_data_sample(ZERO_COPY_THRESHOLD - 1).unwrap();
    assert!(!small.is_shared());
    let empty = node.allocate_data_sample(0).unwrap();
    assert!(!empty.is_shared());
    assert_eq!(empty.len(), 0);
    let large = node.allocate_data_sample(ZERO_COPY_THRESHOLD).unwrap();
    assert!(large.is_shared());
    assert_eq!(large.len(), ZERO_COPY_THRESHOLD);
}

#[test]
fn shared_send_is_recycled_after_its_token_returns() {
    let mut node = node_with_outputs(&["a"]);
    let mut sample = node.allocate_data_sample(8192).unwrap();
    assert!(sample.is_shared());
    let os_id = sample.region().unwrap().os_id();
    let out = node
        .send_output_sample("a".to_string(), Some(sample), DropToken { id: 1002 }, &vec![], false)
        .unwrap()
        .expect("active output");
    let token = match &out.data {
        Some(DataMessage::SharedMemory { shared_memory_id, len, drop_token }) => {
            assert_eq!(shared_memory_id, &os_id);
            assert_eq!(*len, 8192);
            *drop_token
        }
        _ => panic!("expected a shared-memory payload"),
    };
    assert_eq!(out.retained.as_ref().map(|k| k.token()), Some(token));
    node.record_sent(out.retained);
    assert_eq!(node.outstanding_regions(), 1);

    node.handle_finished_drop_tokens(&vec![token], false).unwrap();
    assert_eq!(node.outstanding_regions(), 0);
    assert_eq!(node.cached_regions(), 1);

    let mut again = node.allocate_data_sample(8192).unwrap();
    assert_eq!(node.cached_regions(), 0);
    assert_eq!(again.region().unwrap().os_id(), os_id);
    assert!(!node.is_outstanding(token));
    let out = node
        .send_output_sample("a".to_string(), Some(again), DropToken { id: 1003 }, &vec![], false)
        .unwrap()
        .expect("active output");
    let second = out.retained.as_ref().map(|k| k.token()).unwrap();
    assert_ne!(second, token);
    node.record_sent(out.retained);
    assert_eq!(node.outstanding_regions(), 1);
}

#[test]
fn unknown_output_warns_once() {
    let mut node = node_with_outputs(&["a"]);
    let b = "b".to_string();
    assert_eq!(node.validate_output(&b), OutputCheck::IgnoredWarn);
    assert_eq!(node.validate_output(&b), OutputCheck::IgnoredQuiet);
    assert_eq!(node.validate_output(&b), OutputCheck::IgnoredQuiet);
    assert_eq!(node.validate_output(&"c".to_string()), OutputCheck::IgnoredWarn);
}

#[test]
fn close_then_send_is_ignored() {
    let mut node = node_with_outputs(&["a", "b"]);
    assert!(node.close_outputs(&vec!["a".to_string()]).is_ok());
    let a = "a".to_string();
    assert_eq!(node.validate_output(&a), OutputCheck::IgnoredWarn);
    assert_eq!(node.validate_output(&a), OutputCheck::IgnoredQuiet);
    assert_eq!(node.validate_output(&"b".to_string()), OutputCheck::Active);
}

#[test]
fn close_unknown_output_fails() {
    let mut node = node_with_outputs(&["a", "b"]);
    match node.close_outputs(&vec!["b".to_string(), "x".to_string(), "a".to_string()]) {
        Err(NodeError::UnknownOutput(id)) => assert_eq!(id, "x"),
        _ => panic!("expected an unknown output"),
    }
    // "b" was closed before the failure, "a" was not reached
    assert_eq!(node.validate_output(&"b".to_string()), OutputCheck::IgnoredWarn);
    assert_eq!(node.validate_output(&"a".to_string()), OutputCheck::Active);
}

#[test]
fn closing_an_output_twice_fails() {
    let mut node = node_with_outputs(&["a"]);
    match node.close_outputs(&vec!["a".to_string(), "a".to_string()]) {
        Err(NodeError::UnknownOutput(id)) => assert_eq!(id, "a"),
        _ => panic!("expected an unknown output"),
    }
}

#[test]
fn disconnected_drop_stream_is_an_error() {
    let mut node = node_with_outputs(&["a"]);
    assert!(matches!(
        node.handle_finished_drop_tokens(&vec![DropToken { id: 5 }], true),
        Err(NodeError::ChannelClosed)
    ));
    assert!(node.handle_finished_drop_tokens(&vec![DropToken { id: 5 }], false).is_ok());
    assert!(matches!(
        node.send_output_sample("a".to_string(), None, DropToken { id: 1004 }, &vec![], true),
        Err(NodeError::ChannelClosed)
    ));
}

#[test]
fn empty_sample_sends_empty_payload() {
    let mut node = node_with_outputs(&["a"]);
    let out = node
        .send_output_sample("a".to_string(), None, DropToken { id: 1005 }, &vec![], false)
        .unwrap()
        .expect("active output");
    assert!(out.data.is_none());
    assert!(out.retained.is_none());
}

#[test]
fn invalid_descriptor_is_reported() {
    let config = NodeRunConfig::new(vec![], vec!["a".to_string()]);
    let node = DoraNode::new(
        "n".to_string(),
        "f".to_string(),
        config,
        Err("bad yaml".to_string()),
    );
    match node.dataflow_descriptor() {
        Err(NodeError::DescriptorUnavailable(msg)) => assert_eq!(msg, "bad yaml"),
        _ => panic!("expected an unavailable descriptor"),
    }
    assert_eq!(node.id(), "n");
    assert_eq!(node.dataflow_id(), "f");
}

#[test]
fn valid_descriptor_is_returned() {
    let node = node_with_outputs(&["a"]);
    assert!(matches!(node.dataflow_descriptor(), Ok(serde_yaml::Value::Null)));
}

#[test]
fn shutdown_with_stuck_consumer_gives_up_after_timeout() {
    let mut node = node_with_outputs(&["a"]);
    let mut tokens = Vec::new();
    for i in 0..3u64 {
        let sample = node.allocate_data_sample(ZERO_COPY_THRESHOLD).unwrap();
        let out = node
            .send_output_sample("a".to_string(), Some(sample), DropToken { id: 1006 + i }, &vec![], false)
            .unwrap()
            .expect("active output");
        tokens.push(out.retained.as_ref().unwrap().token());
        node.record_sent(out.retained);
    }
    assert_eq!(node.outstanding_regions(), 3);
    let closed = node.take_outputs();
    assert_eq!(closed, vec!["a".to_string()]);
    assert_eq!(node.validate_output(&"a".to_string()), OutputCheck::IgnoredWarn);
    assert_eq!(node.drain_step(DrainEvent::Token(tokens[0])), DrainStep::Continue);
    assert_eq!(
        node.drain_step(DrainEvent::Timeout),
        DrainStep::GaveUp { outstanding: 2 }
    );
    assert_eq!(node.cached_regions(), 0);
}

#[test]
fn shutdown_drain_finishes_when_all_tokens_return() {
    let mut node = node_with_outputs(&["a"]);
    let sample = node.allocate_data_sample(ZERO_COPY_THRESHOLD).unwrap();
    let out = node
        .send_output_sample("a".to_string(), Some(sample), DropToken { id: 1007 }, &vec![], false)
        .unwrap()
        .expect("active output");
    let token = out.retained.as_ref().unwrap().token();
    node.record_sent(out.retained);
    assert_eq!(node.drain_step(DrainEvent::Token(DropToken { id: token.id + 100 })), DrainStep::Continue);
    assert_eq!(node.drain_step(DrainEvent::Token(token)), DrainStep::Done);
    assert_eq!(node.outstanding_regions(), 0);
    assert_eq!(
        node.drain_step(DrainEvent::Disconnected),
        DrainStep::GaveUp { outstanding: 0 }
    );
}

#[test]
fn unknown_drop_token_changes_nothing() {
    let mut node = node_with_outputs(&["a"]);
    assert!(node.handle_finished_drop_tokens(&vec![DropToken { id: 42 }], false).is_ok());
    assert_eq!(node.outstanding_regions(), 0);
    assert_eq!(node.cached_regions(), 0);
}

#[test]
fn shared_region_has_requested_capacity() {
    let mut node = node_with_outputs(&["a"]);
    let mut sample = node.allocate_data_sample(10_000).unwrap();
    assert_eq!(sample.len(), 10_000);
    assert!(sample.region().unwrap().len() >= 10_000);
}

#[test]
fn smaller_shared_sample_reuses_larger_cached_region() {
    let mut node = node_with_outputs(&["a"]);
    let mut sample = node.allocate_data_sample(8192).unwrap();
    let os_id = sample.region().unwrap().os_id();
    let out = node
        .send_output_sample("a".to_string(), Some(sample), DropToken { id: 1008 }, &vec![], false)
        .unwrap()
        .expect("active output");
    let token = out.retained.as_ref().unwrap().token();
    node.record_sent(out.retained);
    // the token comes back with the next send
    let out = node
        .send_output_sample("a".to_string(), None, DropToken { id: 1009 }, &vec![token], false)
        .unwrap()
        .expect("active output");
    assert!(out.data.is_none());
    assert_eq!(node.cached_regions(), 1);
    let mut smaller = node.allocate_data_sample(5000).unwrap();
    assert_eq!(smaller.len(), 5000);
    let region = smaller.region().unwrap();
    assert_eq!(region.os_id(), os_id);
    assert_eq!(region.len(), 8192);
    assert_eq!(node.cached_regions(), 0);
}

#[test]
fn sample_kind_names_backing_store() {
    let mut node = node_with_outputs(&["a"]);
    assert_eq!(node.allocate_data_sample(8).unwrap().kind(), "Vec");
    assert_eq!(node.allocate_data_sample(ZERO_COPY_THRESHOLD).unwrap().kind(), "SharedMemory");
}

#[test]
fn send_to_closed_output_is_ignored_without_draining() {
    let mut node = node_with_outputs(&["a", "b"]);
    let sample = node.allocate_data_sample(ZERO_COPY_THRESHOLD).unwrap();
    let out = node
        .send_output_sample("a".to_string(), Some(sample), DropToken { id: 1 }, &vec![], false)
        .unwrap()
        .expect("active output");
    node.record_sent(out.retained);
    node.close_outputs(&vec!["a".to_string()]).unwrap();
    // the returned token is not consumed by an ignored send
    let ignored = node
        .send_output_sample("a".to_string(), None, DropToken { id: 2 }, &vec![DropToken { id: 1 }], true)
        .unwrap();
    assert!(ignored.is_none());
    assert_eq!(node.outstanding_regions(), 1);
    assert_eq!(node.validate_output(&"a".to_string()), OutputCheck::IgnoredQuiet);
    let unknown = node
        .send_output_sample("zzz".to_string(), None, DropToken { id: 3 }, &vec![], false)
        .unwrap();
    assert!(unknown.is_none());
    assert_eq!(node.validate_output(&"zzz".to_string()), OutputCheck::IgnoredQuiet);
}

#[test]
fn finalized_shared_payload_names_its_region() {
    let mut node = node_with_outputs(&["a"]);
    let sample = node.allocate_data_sample(ZERO_COPY_THRESHOLD + 1).unwrap();
    let os_id = sample.region().unwrap().os_id();
    assert!(!os_id.is_empty());
    let (data, kept) = sample.finalize(DropToken { id: 9 });
    let (region, token) = kept.expect("a shared sample keeps its region");
    assert_eq!(token, DropToken { id: 9 });
    assert_eq!(region.os_id(), os_id);
    match data {
        DataMessage::SharedMemory { shared_memory_id, len, drop_token } => {
            assert_eq!(shared_memory_id, os_id);
            assert_eq!(len, ZERO_COPY_THRESHOLD + 1);
            assert_eq!(drop_token, DropToken { id: 9 });
        }
        _ => panic!("expected a shared-memory payload"),
    }
}

#[test]
fn node_reports_its_identity_and_inputs() {
    let node = node_with_outputs(&["a"]);
    assert_eq!(node.id(), "node");
    assert_eq!(node.dataflow_id(), "flow");
    assert!(node.node_config().inputs.contains(&"in".to_string()));
    assert!(node.node_config().outputs.contains(&"a".to_string()));
}
