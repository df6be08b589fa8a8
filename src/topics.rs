//! The closed set of logical channels and the topic strings they travel under.

use vstd::prelude::*;
use vstd::utf8::*;
use vstd::string::*;

verus! {

/// The most bytes that a topic string may take.
pub const MAX_TOPIC_BYTES: usize = 48;

/// A logical channel of the telemetry pipeline.
#[derive(Debug, Clone, Copy, PartialEq, Eq, Structural)]
pub enum MqttTopics {
    Acceleration,
    CommandSender,
}

/// The topic string of each logical channel.
pub open spec fn topic_text(t: MqttTopics) -> Seq<char> {
    match t {
        MqttTopics::Acceleration => seq!['a', 'c', 'c', 'e', 'l', 'e', 'r', 'a', 't', 'i', 'o', 'n'],
        MqttTopics::CommandSender => seq![
            'c', 'o', 'm', 'm', 'a', 'n', 'd', '_', 's', 'e', 'n', 'd', 'e', 'r',
        ],
    }
}

/// The channel whose topic string is `s`, if any.
pub open spec fn topic_of_text(s: Seq<char>) -> Option<MqttTopics> {
    if s == topic_text(MqttTopics::Acceleration) {
        Some(MqttTopics::Acceleration)
    } else if s == topic_text(MqttTopics::CommandSender) {
        Some(MqttTopics::CommandSender)
    } else {
        None
    }
}

/// Every topic string is non-empty ASCII of at most `MAX_TOPIC_BYTES` bytes,
/// and no two channels share one.
pub proof fn lemma_topic_text_bounded(t: MqttTopics)
    ensures
        topic_text(t).len() > 0,
        is_ascii_chars(topic_text(t)),
        encode_utf8(topic_text(t)).len() == topic_text(t).len(),
        encode_utf8(topic_text(t)).len() <= MAX_TOPIC_BYTES,
        topic_of_text(topic_text(t)) == Some(t),
{
    assert(is_ascii_chars(topic_text(t)));
    is_ascii_chars_encode_utf8(topic_text(t));
    assert(topic_text(MqttTopics::Acceleration) != topic_text(MqttTopics::CommandSender)) by {
        assert(topic_text(MqttTopics::Acceleration).len() != topic_text(MqttTopics::CommandSender).len());
    }
}

/// Whether two strings hold the same characters.
pub fn same_text(a: &str, b: &str) -> (r: bool)
    ensures
        r == (a@ == b@),
{
    let x: &[u8] = a.as_bytes();
    let y: &[u8] = b.as_bytes();
    proof {
        encode_utf8_decode_utf8(a@);
        encode_utf8_decode_utf8(b@);
    }
    if x.len() != y.len() {
        return false;
    }
    let mut i: usize = 0;
    while i < x.len()
        invariant
            0 <= i <= x@.len(),
            x@.len() == y@.len(),
            x@ == encode_utf8(a@),
            y@ == encode_utf8(b@),
            forall|j: int| 0 <= j < i ==> x@[j] == y@[j],
        decreases x@.len() - i,
    {
        if x[i] != y[i] {
            assert(x@[i as int] != y@[i as int]);
            return false;
        }
        i = i + 1;
    }
    assert(x@ =~= y@);
    true
}

impl MqttTopics {
    /// The topic string of this channel, as a string slice.
    pub fn as_str(&self) -> (r: &'static str)
        ensures
            r@ == topic_text(*self),
    {
        match self {
            MqttTopics::Acceleration => {
                let s = "acceleration";
                proof {
                    reveal_strlit("acceleration");
                }
                assert(s@ =~= topic_text(*self));
                s
            },
            MqttTopics::CommandSender => {
                let s = "command_sender";
                proof {
                    reveal_strlit("command_sender");
                }
                assert(s@ =~= topic_text(*self));
                s
            },
        }
    }

    /// The topic string of this channel.
    pub fn to_string(&self) -> (r: String)
        ensures
            r@ == topic_text(*self),
            r@.len() > 0,
            encode_utf8(r@).len() <= MAX_TOPIC_BYTES,
    {
        proof {
            lemma_topic_text_bounded(*self);
        }
        self.as_str().to_owned()
    }

    /// The channel whose topic string is `s`, or `None` for a topic that no
    /// channel uses.
    pub fn from_wire(s: &str) -> (r: Option<MqttTopics>)
        ensures
            r == topic_of_text(s@),
    {
        if same_text(s, MqttTopics::Acceleration.as_str()) {
            Some(MqttTopics::Acceleration)
        } else if same_text(s, MqttTopics::CommandSender.as_str()) {
            Some(MqttTopics::CommandSender)
        } else {
            None
        }
    }
}

} // verus!
