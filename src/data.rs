//! The data channel: encoded element bytes multiplexed by stream key, with
//! writes under one key kept in the order they were made.

use vstd::prelude::*;

verus! {

/// Names one logical flow of bytes: the bundle's instruction and the
/// transform that produces or consumes them.
#[derive(Clone, Copy, Debug, PartialEq, Eq, Structural)]
pub struct StreamKey {
    pub instruction_id: u64,
    pub transform_id: u64,
}

/// One chunk of bytes, or the end of a stream.
#[derive(Debug)]
pub enum Payload {
    Data(Vec<u8>),
    End,
}

/// The mathematical value of a payload: `None` marks the end of a stream.
pub open spec fn payload_value(p: Payload) -> Option<Seq<u8>> {
    match p {
        Payload::Data(b) => Some(b@),
        Payload::End => None,
    }
}

/// The outbound side of the channel: every message written, in order.
#[derive(Debug)]
pub struct DataChannel {
    messages: Vec<(StreamKey, Payload)>,
}

impl View for DataChannel {
    type V = Seq<(StreamKey, Option<Seq<u8>>)>;

    closed spec fn view(&self) -> Seq<(StreamKey, Option<Seq<u8>>)> {
        Seq::new(
            self.messages@.len(),
            |i: int| (self.messages@[i].0, payload_value(self.messages@[i].1)),
        )
    }
}

/// The payloads written under `key`, in the order written.
pub open spec fn stream_of(msgs: Seq<(StreamKey, Option<Seq<u8>>)>, key: StreamKey) -> Seq<
    Option<Seq<u8>>,
>
    decreases msgs.len(),
{
    if msgs.len() == 0 {
        Seq::empty()
    } else if msgs.last().0 == key {
        stream_of(msgs.drop_last(), key).push(msgs.last().1)
    } else {
        stream_of(msgs.drop_last(), key)
    }
}

/// What a reader of the stream under `key` receives from `msgs`: the bytes
/// written under it up to its end marker, and whether that marker came.
pub open spec fn received(msgs: Seq<(StreamKey, Option<Seq<u8>>)>, key: StreamKey) -> (Seq<u8>, bool)
    decreases msgs.len(),
{
    if msgs.len() == 0 {
        (Seq::empty(), false)
    } else if msgs[0].0 != key {
        received(msgs.drop_first(), key)
    } else {
        match msgs[0].1 {
            None => (Seq::empty(), true),
            Some(b) => {
                let rest = received(msgs.drop_first(), key);
                (b + rest.0, rest.1)
            },
        }
    }
}

impl DataChannel {
    pub fn new() -> (r: DataChannel)
        ensures
            r@.len() == 0,
    {
        DataChannel { messages: Vec::new() }
    }

    /// Writes `bytes` under `key`; nothing is dropped.
    pub fn write(&mut self, key: StreamKey, bytes: Vec<u8>)
        ensures
            final(self)@ == old(self)@.push((key, Some(bytes@))),
    {
        let ghost b = bytes@;
        self.messages.push((key, Payload::Data(bytes)));
        assert(final(self)@ =~= old(self)@.push((key, Some(b))));
    }

    /// Marks the end of the stream under `key`.
    pub fn close(&mut self, key: StreamKey)
        ensures
            final(self)@ == old(self)@.push((key, None::<Seq<u8>>)),
    {
        self.messages.push((key, Payload::End));
        assert(final(self)@ =~= old(self)@.push((key, None::<Seq<u8>>)));
    }

    /// Demultiplexes the stream under `key`: its bytes in write order, up to
    /// its end marker, and whether the marker has come.
    pub fn receive(&self, key: StreamKey) -> (r: (Vec<u8>, bool))
        ensures
            (r.0@, r.1) == received(self@, key),
    {
        let mut out: Vec<u8> = Vec::new();
        let mut i: usize = 0;
        proof {
            assert(self@.subrange(0, self@.len() as int) =~= self@);
            assert(out@ + received(self@, key).0 =~= received(self@, key).0);
        }
        while i < self.messages.len()
            invariant
                i <= self@.len(),
                self@.len() == self.messages@.len(),
                received(self@, key) == (
                    out@ + received(self@.subrange(i as int, self@.len() as int), key).0,
                    received(self@.subrange(i as int, self@.len() as int), key).1,
                ),
            decreases self@.len() - i,
        {
            let ghost sub = self@.subrange(i as int, self@.len() as int);
            let ghost next = self@.subrange(i + 1, self@.len() as int);
            proof {
                assert(sub.drop_first() =~= next);
                assert(sub[0] == self@[i as int]);
            }
            let m = &self.messages[i];
            if m.0 == key {
                match &m.1 {
                    Payload::End => {
                        proof {
                            assert(out@ + Seq::<u8>::empty() =~= out@);
                        }
                        return (out, true);
                    },
                    Payload::Data(b) => {
                        let ghost before = out@;
                        let mut j: usize = 0;
                        while j < b.len()
                            invariant
                                j <= b@.len(),
                                out@ == before + b@.take(j as int),
                            decreases b@.len() - j,
                        {
                            out.push(b[j]);
                            j = j + 1;
                            proof {
                                assert(b@.take(j as int) =~= b@.take(j - 1) + seq![b@[j - 1]]);
                            }
                        }
                        proof {
                            assert(b@.take(j as int) =~= b@);
                            assert(before + (b@ + received(next, key).0) =~= out@ + received(next, key).0);
                        }
                    },
                }
            }
            i = i + 1;
        }
        proof {
            assert(self@.subrange(i as int, self@.len() as int) =~= Seq::<(StreamKey, Option<Seq<u8>>)>::empty());
            assert(out@ + Seq::<u8>::empty() =~= out@);
        }
        (out, false)
    }

    pub fn len(&self) -> (r: usize)
        ensures
            r == self@.len(),
    {
        self.messages.len()
    }

    /// The key and bytes of message `i`; `None` for an end marker.
    pub fn message(&self, i: usize) -> (r: (StreamKey, Option<&Vec<u8>>))
        requires
            i < self@.len(),
        ensures
            r.0 == self@[i as int].0,
            match r.1 {
                Some(b) => self@[i as int].1 == Some(b@),
                None => self@[i as int].1 is None,
            },
    {
        let m = &self.messages[i];
        match &m.1 {
            Payload::Data(b) => (m.0, Some(b)),
            Payload::End => (m.0, None),
        }
    }
}

/// A write under one key adds its bytes to the end of that key's stream and
/// leaves every other key's stream as it was.
pub proof fn lemma_write_keeps_order(
    msgs: Seq<(StreamKey, Option<Seq<u8>>)>,
    key: StreamKey,
    bytes: Seq<u8>,
    other: StreamKey,
)
    ensures
        stream_of(msgs.push((key, Some(bytes))), key) == stream_of(msgs, key).push(Some(bytes)),
        other != key ==> stream_of(msgs.push((key, Some(bytes))), other) == stream_of(msgs, other),
{
    assert(msgs.push((key, Some(bytes))).drop_last() =~= msgs);
}

} // verus!
