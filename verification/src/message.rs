//! The message that publishers send and subscribers receive.
use vstd::prelude::*;
use vstd::utf8::encode_utf8;

verus! {

/// A point in time, as seconds and nanoseconds since the Unix epoch.
#[derive(Clone, Copy, Debug, PartialEq, Eq, Structural)]
pub struct Timestamp {
    pub seconds: i64,
    pub nanos: i32,
}

/// A message that is published by publishers and consumed by subscribers. The
/// message must contain either a non-empty data field or at least one attribute.
///
/// Attributes are held as `(key, value)` pairs in which no key occurs twice.
#[derive(Clone, Debug)]
#[non_exhaustive]
pub struct Message {
    /// Optional. The message data field. If this field is empty, the message must
    /// contain at least one attribute.
    pub data: Vec<u8>,
    /// Optional. Attributes for this message. If this field is empty, the message
    /// must contain non-empty data.
    pub attributes: Vec<(String, String)>,
    /// ID of this message, assigned by the server when the message is published.
    pub message_id: String,
    /// The time at which the message was published.
    pub publish_time: Option<Timestamp>,
    /// If non-empty, identifies related messages for which publish order
    /// should be respected.
    pub ordering_key: String,
}

/// Length in bytes of the UTF-8 encoding of a string, as `str::len` reports it.
pub open spec fn text_len(s: String) -> usize {
    encode_utf8(s@).len() as usize
}

/// No key occurs twice among the attribute pairs.
pub open spec fn keys_unique(attrs: Seq<(String, String)>) -> bool {
    forall|i: int, j: int|
        0 <= i < attrs.len() && 0 <= j < attrs.len() && i != j ==> #[trigger] attrs[i].0@
            != #[trigger] attrs[j].0@
}

/// The map that results from inserting the pairs in order, a later pair
/// replacing an earlier one with the same key.
pub open spec fn attributes_map(attrs: Seq<(String, String)>) -> Map<Seq<char>, Seq<char>>
    decreases attrs.len(),
{
    if attrs.len() == 0 {
        Map::empty()
    } else {
        attributes_map(attrs.drop_last()).insert(attrs.last().0@, attrs.last().1@)
    }
}

/// Sum, over the attribute pairs, of the byte lengths of key and value.
pub open spec fn attributes_len(attrs: Seq<(String, String)>) -> int
    decreases attrs.len(),
{
    if attrs.len() == 0 {
        0
    } else {
        attributes_len(attrs.drop_last()) + text_len(attrs.last().0) + text_len(attrs.last().1)
    }
}

/// Estimated size of a message: data, ordering key, and attribute keys and values.
pub open spec fn message_size(m: Message) -> int {
    m.data.len() + text_len(m.ordering_key) + attributes_len(m.attributes@)
}

/// A key is mapped exactly when some pair carries it.
pub proof fn lemma_attributes_map_dom(attrs: Seq<(String, String)>, k: Seq<char>)
    ensures
        attributes_map(attrs).dom().contains(k) <==> exists|i: int|
            0 <= i < attrs.len() && #[trigger] attrs[i].0@ == k,
    decreases attrs.len(),
{
    if attrs.len() > 0 {
        let init = attrs.drop_last();
        lemma_attributes_map_dom(init, k);
        if attributes_map(attrs).dom().contains(k) && attrs.last().0@ != k {
            let i = choose|i: int| 0 <= i < init.len() && #[trigger] init[i].0@ == k;
            assert(attrs[i].0@ == k);
        }
        if exists|i: int| 0 <= i < attrs.len() && #[trigger] attrs[i].0@ == k {
            let i = choose|i: int| 0 <= i < attrs.len() && #[trigger] attrs[i].0@ == k;
            if i < attrs.len() - 1 {
                assert(init[i].0@ == k);
            }
        }
    }
}

/// With unique keys, each pair's key maps to that pair's value.
pub proof fn lemma_attributes_map_value(attrs: Seq<(String, String)>, j: int)
    requires
        keys_unique(attrs),
        0 <= j < attrs.len(),
    ensures
        attributes_map(attrs).dom().contains(attrs[j].0@),
        attributes_map(attrs)[attrs[j].0@] == attrs[j].1@,
    decreases attrs.len(),
{
    let init = attrs.drop_last();
    if j < attrs.len() - 1 {
        assert(keys_unique(init)) by {
            assert forall|a: int, b: int|
                0 <= a < init.len() && 0 <= b < init.len() && a != b implies #[trigger] init[a].0@
                != #[trigger] init[b].0@ by {
                assert(init[a] == attrs[a] && init[b] == attrs[b]);
            }
        }
        lemma_attributes_map_value(init, j);
        assert(attrs[j] == init[j]);
        assert(attrs[j].0@ != attrs[attrs.len() - 1].0@);
    }
}

/// Replacing the value of an existing key is an insert into the map.
pub proof fn lemma_attributes_map_update(
    attrs: Seq<(String, String)>,
    j: int,
    pair: (String, String),
)
    requires
        keys_unique(attrs),
        0 <= j < attrs.len(),
        attrs[j].0@ == pair.0@,
    ensures
        keys_unique(attrs.update(j, pair)),
        attributes_map(attrs.update(j, pair)) == attributes_map(attrs).insert(pair.0@, pair.1@),
{
    let upd = attrs.update(j, pair);
    assert(keys_unique(upd)) by {
        assert forall|a: int, b: int|
            0 <= a < upd.len() && 0 <= b < upd.len() && a != b implies #[trigger] upd[a].0@
            != #[trigger] upd[b].0@ by {
            assert(upd[a].0@ == attrs[a].0@);
            assert(upd[b].0@ == attrs[b].0@);
        }
    }
    let lhs = attributes_map(upd);
    let rhs = attributes_map(attrs).insert(pair.0@, pair.1@);
    assert forall|k: Seq<char>| lhs.dom().contains(k) <==> rhs.dom().contains(k) by {
        lemma_attributes_map_dom(upd, k);
        lemma_attributes_map_dom(attrs, k);
        if exists|i: int| 0 <= i < upd.len() && #[trigger] upd[i].0@ == k {
            let i = choose|i: int| 0 <= i < upd.len() && #[trigger] upd[i].0@ == k;
            assert(attrs[i].0@ == k);
        }
        if exists|i: int| 0 <= i < attrs.len() && #[trigger] attrs[i].0@ == k {
            let i = choose|i: int| 0 <= i < attrs.len() && #[trigger] attrs[i].0@ == k;
            assert(upd[i].0@ == k);
        }
    }
    assert forall|k: Seq<char>| #[trigger] lhs.dom().contains(k) implies lhs[k] == rhs[k] by {
        lemma_attributes_map_dom(upd, k);
        let i = choose|i: int| 0 <= i < upd.len() && #[trigger] upd[i].0@ == k;
        lemma_attributes_map_value(upd, i);
        if i != j {
            lemma_attributes_map_value(attrs, i);
            assert(upd[i] == attrs[i]);
        }
    }
    assert(lhs =~= rhs);
}

/// Appending a pair whose key is new keeps the keys unique.
proof fn lemma_push_new_key(attrs: Seq<(String, String)>, pair: (String, String))
    requires
        keys_unique(attrs),
        !attributes_map(attrs).dom().contains(pair.0@),
    ensures
        keys_unique(attrs.push(pair)),
        attributes_map(attrs.push(pair)) == attributes_map(attrs).insert(pair.0@, pair.1@),
{
    let p = attrs.push(pair);
    assert(p.drop_last() == attrs);
    lemma_attributes_map_dom(attrs, pair.0@);
    assert forall|a: int, b: int|
        0 <= a < p.len() && 0 <= b < p.len() && a != b implies #[trigger] p[a].0@
        != #[trigger] p[b].0@ by {
        if a < attrs.len() && b < attrs.len() {
            assert(p[a] == attrs[a] && p[b] == attrs[b]);
        } else if a < attrs.len() {
            assert(p[a] == attrs[a]);
        } else {
            assert(p[b] == attrs[b]);
        }
    }
}

/// The position of the pair with key `key`, if any.
fn find_attribute(attrs: &Vec<(String, String)>, key: &String) -> (pos: Option<usize>)
    ensures
        match pos {
            Some(j) => j < attrs.len() && attrs@[j as int].0@ == key@,
            None => forall|i: int| 0 <= i < attrs.len() ==> #[trigger] attrs@[i].0@ != key@,
        },
{
    let mut i: usize = 0;
    while i < attrs.len()
        invariant
            i <= attrs.len(),
            forall|a: int| 0 <= a < i ==> #[trigger] attrs@[a].0@ != key@,
        decreases attrs.len() - i,
    {
        if attrs[i].0 == *key {
            return Some(i);
        }
        i = i + 1;
    }
    None
}

impl Message {
    /// The attributes hold no key twice.
    pub open spec fn wf(&self) -> bool {
        keys_unique(self.attributes@)
    }

    /// A message with no data, no attributes, no id, no publish time and no ordering key.
    pub fn new() -> (m: Self)
        ensures
            m.wf(),
            m.data@.len() == 0,
            m.attributes@.len() == 0,
            m.message_id@.len() == 0,
            m.publish_time.is_none(),
            m.ordering_key@.len() == 0,
    {
        Message {
            data: Vec::new(),
            attributes: Vec::new(),
            message_id: String::new(),
            publish_time: None,
            ordering_key: String::new(),
        }
    }

    /// Sets the value of [data][Message::data].
    pub fn set_data(self, v: Vec<u8>) -> (m: Self)
        ensures
            m == (Message { data: v, ..self }),
    {
        let mut s = self;
        s.data = v;
        s
    }

    /// Sets the value of [attributes][Message::attributes].
    ///
    /// The pairs are inserted in order; a later pair replaces an earlier one
    /// with the same key.
    pub fn set_attributes(self, v: Vec<(String, String)>) -> (m: Self)
        ensures
            keys_unique(m.attributes@),
            attributes_map(m.attributes@) == attributes_map(v@),
            m.data == self.data,
            m.message_id == self.message_id,
            m.publish_time == self.publish_time,
            m.ordering_key == self.ordering_key,
    {
        let mut out: Vec<(String, String)> = Vec::new();
        let mut i: usize = 0;
        while i < v.len()
            invariant
                i <= v.len(),
                keys_unique(out@),
                attributes_map(out@) == attributes_map(v@.take(i as int)),
            decreases v.len() - i,
        {
            let key = v[i].0.clone();
            let value = v[i].1.clone();
            let ghost before = out@;
            let pair = (key, value);
            match find_attribute(&out, &pair.0) {
                Some(j) => {
                    proof {
                        lemma_attributes_map_update(before, j as int, pair);
                    }
                    out.set(j, pair);
                },
                None => {
                    proof {
                        lemma_attributes_map_dom(before, pair.0@);
                        lemma_push_new_key(before, pair);
                    }
                    out.push(pair);
                },
            }
            assert(v@.take(i as int + 1).drop_last() == v@.take(i as int));
            i = i + 1;
        }
        assert(v@.take(v.len() as int) == v@);
        let mut s = self;
        s.attributes = out;
        s
    }

    /// Sets the value of [ordering_key][Message::ordering_key].
    pub fn set_ordering_key(self, v: String) -> (m: Self)
        ensures
            m == (Message { ordering_key: v, ..self }),
    {
        let mut s = self;
        s.ordering_key = v;
        s
    }
}

} // verus!
