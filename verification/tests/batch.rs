use pubsub_core::batch::{resolve_response, Batch, BundledMessage};
use pubsub_core::message::Message;
use pubsub_core::options::BatchingOptions;

fn bundled(data: &str, ticket: u32) -> BundledMessage<u32> {
    BundledMessage { msg: Message::new().set_data(data.as_bytes().to_vec()), tx: ticket }
}

#[test]
fn test_push_and_flush_batch() {
    let mut batch = Batch::new("topic".len() as u32, BatchingOptions::default());
    assert!(batch.is_empty());
    batch.push(bundled("hello", 1));
    assert_eq!(batch.len(), 1);
    batch.push(bundled(", ", 2));
    assert_eq!(batch.len(), 2);
    batch.push(bundled("world", 3));
    assert_eq!(batch.len(), 3);

    let sent = batch.flush();
    assert_eq!(batch.len(), 0);
    assert_eq!(sent.len(), 3);
    let tickets: Vec<u32> = sent.into_messages().into_iter().map(|m| m.tx).collect();
    assert_eq!(tickets, vec![1, 2, 3]);
}

#[test]
fn test_size() {
    let topic = "topic";
    let mut batch: Batch<u32> = Batch::new(topic.len() as u32, BatchingOptions::default());
    let mut expected = topic.len();
    assert_eq!(batch.size(), expected as u32);

    let data_only = bundled("message_data_only", 0);
    expected += data_only.msg.data.len();
    batch.push(data_only);
    assert_eq!(batch.size(), expected as u32);

    let with_ordering = BundledMessage {
        msg: Message::new().set_ordering_key("ordering_key".to_string()),
        tx: 1,
    };
    expected += with_ordering.msg.ordering_key.len();
    batch.push(with_ordering);
    assert_eq!(batch.size(), expected as u32);

    let with_attributes = BundledMessage {
        msg: Message::new().set_attributes(vec![
            ("k1".to_string(), "v1".to_string()),
            ("key2".to_string(), "value2".to_string()),
        ]),
        tx: 2,
    };
    expected += 14;
    batch.push(with_attributes);
    assert_eq!(batch.size(), expected as u32);

    let _sent = batch.flush();
    assert_eq!(batch.size(), "topic".len() as u32);
}

#[test]
fn message_size_counts_utf8_bytes() {
    let m = Message::new()
        .set_data(vec![1, 2, 3])
        .set_ordering_key("é".to_string())
        .set_attributes(vec![("ü".to_string(), "x".to_string())]);
    assert_eq!(Batch::<u32>::message_size(&m), 3 + 2 + 2 + 1);
}

#[test]
fn thresholds() {
    let options = BatchingOptions::new().set_message_count_threshold(2).set_byte_threshold(20);
    let mut batch = Batch::new(5, options);
    assert!(!batch.at_threshold());
    let next = bundled("0123456789", 0);
    assert!(batch.can_add(&next));
    batch.push(next);
    assert_eq!(batch.size(), 15);
    assert!(!batch.at_threshold());
    let big = bundled("0123456789", 1);
    assert!(!batch.can_add(&big));
    let small = bundled("01234", 2);
    assert!(batch.can_add(&small));
    batch.push(small);
    // Two messages reach the count threshold, and 20 bytes the byte threshold.
    assert!(batch.at_threshold());
}

#[test]
fn resolve_success_pairs_ids_in_order() {
    let r = resolve_response(vec!['a', 'b', 'c'], Some(vec!["m1".to_string(), "m2".to_string(), "m3".to_string()]));
    assert_eq!(
        r.delivered,
        vec![('a', "m1".to_string()), ('b', "m2".to_string()), ('c', "m3".to_string())]
    );
    assert!(r.failed.is_empty());
    assert!(r.unanswered.is_empty());
}

#[test]
fn resolve_success_with_fewer_ids() {
    let r = resolve_response(vec![1, 2, 3], Some(vec!["x".to_string()]));
    assert_eq!(r.delivered, vec![(1, "x".to_string())]);
    assert!(r.failed.is_empty());
    assert_eq!(r.unanswered, vec![2, 3]);
}

#[test]
fn resolve_success_with_extra_ids() {
    let r = resolve_response(vec![7], Some(vec!["x".to_string(), "y".to_string()]));
    assert_eq!(r.delivered, vec![(7, "x".to_string())]);
    assert!(r.unanswered.is_empty());
}

#[test]
fn resolve_error_fails_every_ticket() {
    let r = resolve_response(vec![1, 2], None);
    assert!(r.delivered.is_empty());
    assert_eq!(r.failed, vec![1, 2]);
    assert!(r.unanswered.is_empty());
}
