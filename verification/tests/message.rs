use pubsub_core::message::Message;

fn attr(k: &str, v: &str) -> (String, String) {
    (k.to_string(), v.to_string())
}

#[test]
fn new_message_is_empty() {
    let m = Message::new();
    assert!(m.data.is_empty());
    assert!(m.attributes.is_empty());
    assert!(m.message_id.is_empty());
    assert!(m.publish_time.is_none());
    assert!(m.ordering_key.is_empty());
}

#[test]
fn set_data_and_ordering_key() {
    let m = Message::new()
        .set_data(b"example".to_vec())
        .set_ordering_key("key".to_string());
    assert_eq!(m.data, b"example".to_vec());
    assert_eq!(m.ordering_key, "key");
}

#[test]
fn set_attributes_later_pair_wins() {
    let m = Message::new().set_attributes(vec![
        attr("key0", "abc"),
        attr("key1", "xyz"),
        attr("key0", "def"),
    ]);
    assert_eq!(m.attributes.len(), 2);
    let mut pairs = m.attributes.clone();
    pairs.sort();
    assert_eq!(pairs, vec![attr("key0", "def"), attr("key1", "xyz")]);
}

#[test]
fn set_attributes_replaces_previous() {
    let m = Message::new()
        .set_attributes(vec![attr("a", "1")])
        .set_attributes(vec![attr("b", "2")]);
    assert_eq!(m.attributes, vec![attr("b", "2")]);
}
