//! The unit of telemetry that producers queue and the publisher sends, and
//! its wire text.

use vstd::prelude::*;
use vstd::utf8::*;
use crate::format_string::{show, concat_parts, lemma_concat_parts_push, lemma_bytes_of_concat, FormatError};
use crate::topics::{MqttTopics, topic_text, lemma_topic_text_bounded};

verus! {

/// The most bytes that the wire text of one envelope may take.
pub const MAX_PAYLOAD_BYTES: usize = 512;

/// One observation: the channel it belongs to, which producer made it, and a
/// boolean reading.
#[derive(Debug, Clone, Copy, PartialEq, Eq, Structural)]
pub struct Envelope {
    pub topic: MqttTopics,
    pub task_id: u8,
    pub status: bool,
}

/// The character of a decimal digit.
pub open spec fn digit_char(d: nat) -> char {
    if d == 0 { '0' } else if d == 1 { '1' } else if d == 2 { '2' } else if d == 3 { '3' }
    else if d == 4 { '4' } else if d == 5 { '5' } else if d == 6 { '6' } else if d == 7 { '7' }
    else if d == 8 { '8' } else { '9' }
}

/// The decimal digits of `n`, without leading zeros.
pub open spec fn decimal(n: nat) -> Seq<char>
    decreases n,
{
    if n < 10 {
        seq![digit_char(n)]
    } else {
        decimal(n / 10) + seq![digit_char(n % 10)]
    }
}

pub open spec fn text_head() -> Seq<char> {
    "{\"header\":{\"topic\":\""@
}

pub open spec fn text_tag() -> Seq<char> {
    "\",\"task_id\":"@
}

pub open spec fn text_status() -> Seq<char> {
    "},\"status\":"@
}

pub open spec fn text_bool(b: bool) -> Seq<char> {
    if b { "true"@ } else { "false"@ }
}

pub open spec fn text_tail() -> Seq<char> {
    "}"@
}

/// The wire text of an envelope:
/// `{"header":{"topic":"<topic>","task_id":<tag>},"status":<true|false>}`.
pub open spec fn envelope_text(e: Envelope) -> Seq<char> {
    text_head() + topic_text(e.topic) + text_tag() + decimal(e.task_id as nat) + text_status()
        + text_bool(e.status) + text_tail()
}

proof fn lemma_decimal_ascii(n: nat)
    ensures
        is_ascii_chars(decimal(n)),
        n < 10 ==> decimal(n).len() == 1,
        n >= 10 ==> decimal(n).len() == decimal(n / 10).len() + 1,
        n < 1000 ==> decimal(n).len() <= 3,
    decreases n,
{
    if n >= 10 {
        lemma_decimal_ascii(n / 10);
        let a = decimal(n / 10);
        let b = seq![digit_char(n % 10)];
        assert(decimal(n) == a + b);
        assert forall|i: int| 0 <= i < (a + b).len() implies '\0' <= #[trigger] (a + b)[i] <= '\u{7f}' by {
            if i < a.len() {
                assert((a + b)[i] == a[i]);
            }
        }
        if n < 1000 {
            assert(n / 10 < 100);
            if n / 10 >= 10 {
                lemma_decimal_ascii(n / 10 / 10);
                assert(n / 10 / 10 < 10);
            }
        }
    }
}

/// The wire text of every envelope is ASCII and fits `MAX_PAYLOAD_BYTES`
/// bytes, so serializing an envelope never fails.
pub proof fn lemma_envelope_text_fits(e: Envelope)
    ensures
        is_ascii_chars(envelope_text(e)),
        encode_utf8(envelope_text(e)).len() <= MAX_PAYLOAD_BYTES,
{
    reveal_strlit("{\"header\":{\"topic\":\"");
    reveal_strlit("\",\"task_id\":");
    reveal_strlit("},\"status\":");
    reveal_strlit("}");
    reveal_strlit("true");
    reveal_strlit("false");
    lemma_topic_text_bounded(e.topic);
    lemma_decimal_ascii(e.task_id as nat);
    let t = envelope_text(e);
    assert(text_head().len() == 20);
    assert(text_tag().len() == 12);
    assert(text_status().len() == 11);
    assert(text_bool(e.status).len() <= 5);
    assert(text_tail().len() == 1);
    assert(topic_text(e.topic).len() <= 48);
    assert(is_ascii_chars(text_head()));
    assert(is_ascii_chars(text_tag()));
    assert(is_ascii_chars(text_status()));
    assert(is_ascii_chars(text_bool(e.status)));
    assert(is_ascii_chars(text_tail()));
    assert forall|i: int| 0 <= i < t.len() implies '\0' <= #[trigger] t[i] <= '\u{7f}' by {
        let a = text_head();
        let b = topic_text(e.topic);
        let c = text_tag();
        let d = decimal(e.task_id as nat);
        let f = text_status();
        let g = text_bool(e.status);
        let h = text_tail();
        assert(t == a + b + c + d + f + g + h);
        if i < a.len() {
            assert(t[i] == a[i]);
        } else if i < a.len() + b.len() {
            assert(t[i] == b[i - a.len()]);
        } else if i < a.len() + b.len() + c.len() {
            assert(t[i] == c[i - a.len() - b.len()]);
        } else if i < a.len() + b.len() + c.len() + d.len() {
            assert(t[i] == d[i - a.len() - b.len() - c.len()]);
        } else if i < a.len() + b.len() + c.len() + d.len() + f.len() {
            assert(t[i] == f[i - a.len() - b.len() - c.len() - d.len()]);
        } else if i < a.len() + b.len() + c.len() + d.len() + f.len() + g.len() {
            assert(t[i] == g[i - a.len() - b.len() - c.len() - d.len() - f.len()]);
        } else {
            assert(t[i] == h[i - a.len() - b.len() - c.len() - d.len() - f.len() - g.len()]);
        }
    }
    is_ascii_chars_encode_utf8(t);
}

fn digit_str(d: u8) -> (r: &'static str)
    requires
        d < 10,
    ensures
        r@ == seq![digit_char(d as nat)],
{
    let s = if d == 0 { "0" } else if d == 1 { "1" } else if d == 2 { "2" } else if d == 3 { "3" }
        else if d == 4 { "4" } else if d == 5 { "5" } else if d == 6 { "6" } else if d == 7 { "7" }
        else if d == 8 { "8" } else { "9" };
    proof {
        reveal_strlit("0"); reveal_strlit("1"); reveal_strlit("2"); reveal_strlit("3");
        reveal_strlit("4"); reveal_strlit("5"); reveal_strlit("6"); reveal_strlit("7");
        reveal_strlit("8"); reveal_strlit("9");
    }
    assert(s@ =~= seq![digit_char(d as nat)]);
    s
}

/// Appends the decimal digits of `n` to `parts`, one part per digit.
fn push_decimal(parts: &mut Vec<&'static str>, n: u8)
    ensures
        concat_parts(final(parts)@) == concat_parts(old(parts)@) + decimal(n as nat),
    decreases n,
{
    if n >= 10 {
        push_decimal(parts, n / 10);
    }
    let ghost mid = parts@;
    parts.push(digit_str(n % 10));
    assert(parts@.drop_last() == mid);
}

/// The producer that made an envelope.
#[derive(Debug, Clone, Copy, PartialEq, Eq, Structural)]
pub enum Source {
    /// Samples the push button every debounce interval.
    Button,
    /// The main loop's heartbeat, once a second.
    MainLoop,
    /// A heartbeat every five seconds.
    FiveSeconds,
}

/// The tag that an envelope carries for its producer.
pub open spec fn source_tag(s: Source) -> u8 {
    match s {
        Source::Button => 0,
        Source::MainLoop => 1,
        Source::FiveSeconds => 2,
    }
}

impl Source {
    /// The tag that envelopes of this producer carry.
    pub fn task_id(&self) -> (r: u8)
        ensures
            r == source_tag(*self),
    {
        match self {
            Source::Button => 0,
            Source::MainLoop => 1,
            Source::FiveSeconds => 2,
        }
    }

    /// The producer whose tag is `id`, if any.
    pub fn from_task_id(id: u8) -> (r: Option<Source>)
        ensures
            r matches Some(s) ==> source_tag(s) == id,
            r is None <==> id > 2,
    {
        if id == 0 {
            Some(Source::Button)
        } else if id == 1 {
            Some(Source::MainLoop)
        } else if id == 2 {
            Some(Source::FiveSeconds)
        } else {
            None
        }
    }
}

impl Envelope {
    /// An observation of `source` on the acceleration channel. Heartbeats
    /// carry `false`; the button carries its reading.
    pub fn observe(source: Source, reading: bool) -> (r: Envelope)
        ensures
            r.topic == MqttTopics::Acceleration,
            r.task_id == source_tag(source),
            r.status == (source == Source::Button && reading),
    {
        let status = match source {
            Source::Button => reading,
            _ => false,
        };
        Envelope { topic: MqttTopics::Acceleration, task_id: source.task_id(), status }
    }

    /// The wire text of this envelope, written into a buffer of
    /// `MAX_PAYLOAD_BYTES` bytes; `FormatError` when it does not fit, which
    /// no envelope's text fails to do.
    pub fn serialize(&self) -> (r: Result<String, FormatError>)
        ensures
            r is Ok <==> encode_utf8(envelope_text(*self)).len() <= MAX_PAYLOAD_BYTES,
            r is Ok ==> r->Ok_0@ == envelope_text(*self),
            r is Ok,
    {
        proof {
            lemma_envelope_text_fits(*self);
        }
        let mut buffer: Vec<u8> = Vec::new();
        let mut i: usize = 0;
        while i < MAX_PAYLOAD_BYTES
            invariant
                0 <= i <= MAX_PAYLOAD_BYTES,
                buffer@.len() == i,
            decreases MAX_PAYLOAD_BYTES - i,
        {
            buffer.push(0u8);
            i = i + 1;
        }
        let mut parts: Vec<&'static str> = Vec::new();
        let head = "{\"header\":{\"topic\":\"";
        let tag = "\",\"task_id\":";
        let status = "},\"status\":";
        let tail = "}";
        let flag = if self.status { "true" } else { "false" };
        proof {
            reveal_strlit("{\"header\":{\"topic\":\"");
            reveal_strlit("\",\"task_id\":");
            reveal_strlit("},\"status\":");
            reveal_strlit("}");
            reveal_strlit("true");
            reveal_strlit("false");
            lemma_concat_parts_push(parts@, head);
        }
        parts.push(head);
        let topic = self.topic.as_str();
        proof {
            lemma_concat_parts_push(parts@, topic);
        }
        parts.push(topic);
        proof {
            lemma_concat_parts_push(parts@, tag);
        }
        parts.push(tag);
        push_decimal(&mut parts, self.task_id);
        proof {
            lemma_concat_parts_push(parts@, status);
        }
        parts.push(status);
        proof {
            lemma_concat_parts_push(parts@, flag);
        }
        parts.push(flag);
        proof {
            lemma_concat_parts_push(parts@, tail);
        }
        parts.push(tail);
        assert(concat_parts(parts@) =~= envelope_text(*self));
        proof {
            lemma_bytes_of_concat(parts@);
        }
        show(&mut buffer, parts.as_slice())
    }
}

} // verus!
