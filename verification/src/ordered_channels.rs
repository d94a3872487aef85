//! Reliable ordered packets: each in-order channel keeps a queue of packets
//! that are sent one after another over its own stream, each framed by its
//! length.

use vstd::prelude::*;

use std::collections::VecDeque;

use crate::network_types::NetworkInOrderChannel;

verus! {

/// Number of bidirectional streams that the implementations should support
/// (if bidi streams are enabled).
pub const NUM_BIDI_STREAMS: u32 = 10;

/// The queues of packets waiting on the in-order channels of a connection.
pub struct InOrderChannels {
    keys: Vec<NetworkInOrderChannel>,
    queues: Vec<VecDeque<Vec<u8>>>,
}

impl InOrderChannels {
    pub closed spec fn wf(&self) -> bool {
        &&& self.keys@.len() == self.queues@.len()
        &&& self.keys@.no_duplicates()
        &&& self.keys@.len() <= NUM_BIDI_STREAMS
        &&& !self.keys@.contains(NetworkInOrderChannel::Global) ==> self.keys@.len() < NUM_BIDI_STREAMS
    }

    /// Where the queue of channel `c` is kept.
    closed spec fn slot_of(&self, c: NetworkInOrderChannel) -> int {
        choose|i: int| 0 <= i < self.keys@.len() && self.keys@[i] == c
    }

    proof fn lemma_slot(&self, i: int)
        requires
            self.wf(),
            0 <= i < self.keys@.len(),
        ensures
            self.slot_of(self.keys@[i]) == i,
    {
        let c = self.keys@[i];
        let j = self.slot_of(c);
        assert(0 <= j < self.keys@.len() && self.keys@[j] == c);
    }

    /// The queued packets of each channel that exists.
    pub closed spec fn view_map(&self) -> Map<NetworkInOrderChannel, Seq<Vec<u8>>> {
        Map::new(
            |c: NetworkInOrderChannel| self.keys@.contains(c),
            |c: NetworkInOrderChannel| self.queues@[self.slot_of(c)]@,
        )
    }

    pub fn new() -> (r: Self)
        ensures
            r.wf(),
            r.view_map() == Map::<NetworkInOrderChannel, Seq<Vec<u8>>>::empty(),
            r.view_map().dom().len() == 0,
    {
        let r = InOrderChannels { keys: Vec::new(), queues: Vec::new() };
        assert(r.view_map() =~= Map::<NetworkInOrderChannel, Seq<Vec<u8>>>::empty());
        r
    }

    fn find(&self, c: NetworkInOrderChannel) -> (r: Option<usize>)
        requires
            self.wf(),
        ensures
            match r {
                Some(i) => i < self.keys@.len() && self.keys@[i as int] == c && self.slot_of(c) == i,
                None => !self.keys@.contains(c),
            },
    {
        let mut i: usize = 0;
        while i < self.keys.len()
            invariant
                self.wf(),
                i <= self.keys@.len(),
                forall|j: int| 0 <= j < i ==> self.keys@[j] != c,
            decreases self.keys.len() - i,
        {
            if self.keys[i] == c {
                proof {
                    self.lemma_slot(i as int);
                }
                return Some(i);
            }
            i = i + 1;
        }
        None
    }

    /// The channel a packet for `channel` is queued on: once the streams
    /// run out (one is kept for the global channel) everything goes to the
    /// global channel.
    pub open spec fn spec_channel_for(
        channels: Map<NetworkInOrderChannel, Seq<Vec<u8>>>,
        channel: NetworkInOrderChannel,
    ) -> NetworkInOrderChannel {
        let reserved: int = if channels.contains_key(NetworkInOrderChannel::Global) {
            0
        } else {
            1
        };
        if channels.dom().len() >= NUM_BIDI_STREAMS - reserved {
            NetworkInOrderChannel::Global
        } else {
            channel
        }
    }

    proof fn lemma_dom_len(&self)
        requires
            self.wf(),
        ensures
            self.view_map().dom() == self.keys@.to_set(),
            self.view_map().dom().len() == self.keys@.len(),
    {
        assert(self.view_map().dom() =~= self.keys@.to_set());
        self.keys@.unique_seq_to_set();
    }

    /// A connection never has more in-order channels than bidirectional
    /// streams, and without the global channel one stream stays free for it.
    pub proof fn lemma_channel_bound(&self)
        requires
            self.wf(),
        ensures
            self.view_map().dom().finite(),
            self.view_map().dom().len() <= NUM_BIDI_STREAMS,
            !self.view_map().contains_key(NetworkInOrderChannel::Global)
                ==> self.view_map().dom().len() < NUM_BIDI_STREAMS,
    {
        self.lemma_dom_len();
        assert(self.view_map().dom().contains(NetworkInOrderChannel::Global) <==> self.keys@.contains(
            NetworkInOrderChannel::Global,
        ));
    }

    /// Queues `data` on `channel`, or on the global channel when no stream
    /// is left for a new channel.
    pub fn push_ordered_reliable_packet_in_order(
        &mut self,
        data: Vec<u8>,
        channel: NetworkInOrderChannel,
    )
        requires
            old(self).wf(),
        ensures
            final(self).wf(),
            ({
                let c = Self::spec_channel_for(old(self).view_map(), channel);
                let q = if old(self).view_map().contains_key(c) {
                    old(self).view_map()[c]
                } else {
                    Seq::empty()
                };
                final(self).view_map() == old(self).view_map().insert(c, q.push(data))
            }),
    {
        proof {
            self.lemma_dom_len();
        }
        let has_global = self.find(NetworkInOrderChannel::Global).is_some();
        let reserved_channels: usize = if has_global {
            0
        } else {
            1
        };
        let channel = if self.keys.len() >= NUM_BIDI_STREAMS as usize - reserved_channels {
            NetworkInOrderChannel::Global
        } else {
            channel
        };
        let ghost old_map = self.view_map();
        match self.find(channel) {
            Some(i) => {
                self.queues[i].push_back(data);
                proof {
                    assert forall|c: NetworkInOrderChannel| #[trigger]
                        self.view_map().contains_key(c) implies self.view_map()[c]
                        == old_map.insert(channel, old_map[channel].push(data))[c] by {
                        let k = old(self).slot_of(c);
                        old(self).lemma_slot(k);
                        self.lemma_slot(k);
                    }
                    assert(self.view_map() =~= old_map.insert(channel, old_map[channel].push(data)));
                }
            },
            None => {
                let mut q = VecDeque::new();
                q.push_back(data);
                self.keys.push(channel);
                self.queues.push(q);
                proof {
                    let n = old(self).keys@.len() as int;
                    assert(self.keys@[n] == channel);
                    assert forall|a: int, b: int|
                        0 <= a < self.keys@.len() && 0 <= b < self.keys@.len() && a != b implies self.keys@[a] != self.keys@[b] by {
                        if b == n {
                            assert(old(self).keys@.contains(self.keys@[a])) by {
                                assert(old(self).keys@[a] == self.keys@[a]);
                            }
                        } else if a == n {
                            assert(old(self).keys@.contains(self.keys@[b])) by {
                                assert(old(self).keys@[b] == self.keys@[b]);
                            }
                        }
                    }
                    assert(self.keys@.no_duplicates());
                    if !self.keys@.contains(NetworkInOrderChannel::Global) {
                        assert(channel != NetworkInOrderChannel::Global);
                        assert(!old(self).keys@.contains(NetworkInOrderChannel::Global)) by {
                            if old(self).keys@.contains(NetworkInOrderChannel::Global) {
                                let k = choose|k: int| 0 <= k < old(self).keys@.len() && old(self).keys@[k] == NetworkInOrderChannel::Global;
                                assert(self.keys@[k] == NetworkInOrderChannel::Global);
                            }
                        }
                    } else if channel != NetworkInOrderChannel::Global {
                        assert(old(self).keys@.contains(NetworkInOrderChannel::Global)) by {
                            let k = choose|k: int| 0 <= k < self.keys@.len() && self.keys@[k] == NetworkInOrderChannel::Global;
                            assert(k != n);
                            assert(old(self).keys@[k] == NetworkInOrderChannel::Global);
                        }
                    }
                    assert(self.wf());
                    assert forall|c: NetworkInOrderChannel| #[trigger]
                        self.view_map().contains_key(c) implies self.view_map()[c]
                        == old_map.insert(channel, seq![data])[c] by {
                        if c == channel {
                            self.lemma_slot(n);
                        } else {
                            let k = old(self).slot_of(c);
                            old(self).lemma_slot(k);
                            self.lemma_slot(k);
                        }
                    }
                    assert forall|c: NetworkInOrderChannel| #[trigger] old_map.insert(
                            channel,
                            seq![data],
                        ).contains_key(c) implies self.view_map().contains_key(c) by {
                        if c != channel {
                            assert(old(self).keys@.contains(c));
                            let k = choose|k: int| 0 <= k < old(self).keys@.len() && old(self).keys@[k] == c;
                            assert(self.keys@[k] == c);
                        } else {
                            assert(self.keys@[n] == c);
                        }
                    }
                    assert(self.view_map() =~= old_map.insert(channel, seq![data]));
                    assert(Seq::<Vec<u8>>::empty().push(data) =~= seq![data]);
                }
            },
        }
    }

    /// Takes the next packet to send on `channel` (or, if that channel does
    /// not exist, on the global channel).
    pub fn take_one_ordered_reliable(&mut self, channel: NetworkInOrderChannel) -> (r: Result<
        Vec<u8>,
        OrderedSendError,
    >)
        requires
            old(self).wf(),
        ensures
            final(self).wf(),
            ({
                let m = old(self).view_map();
                let c = if m.contains_key(channel) {
                    channel
                } else {
                    NetworkInOrderChannel::Global
                };
                if !m.contains_key(c) {
                    r == Err::<Vec<u8>, _>(OrderedSendError::ChannelMissing) && final(self).view_map()
                        == m
                } else if m[c].len() == 0 {
                    r == Err::<Vec<u8>, _>(OrderedSendError::NoPacketQueued) && final(self).view_map()
                        == m
                } else {
                    r == Ok::<Vec<u8>, OrderedSendError>(m[c][0]) && final(self).view_map()
                        == m.insert(c, m[c].drop_first())
                }
            }),
    {
        let slot = match self.find(channel) {
            Some(i) => Some(i),
            None => self.find(NetworkInOrderChannel::Global),
        };
        let ghost old_map = self.view_map();
        match slot {
            None => Err(OrderedSendError::ChannelMissing),
            Some(i) => {
                let ghost c = self.keys@[i as int];
                match self.queues[i].pop_front() {
                    None => {
                        proof {
                            assert(self.view_map() =~= old_map);
                        }
                        Err(OrderedSendError::NoPacketQueued)
                    },
                    Some(p) => {
                        proof {
                            assert forall|k: NetworkInOrderChannel| #[trigger]
                                self.view_map().contains_key(k) implies self.view_map()[k]
                                == old_map.insert(c, old_map[c].drop_first())[k] by {
                                let s = old(self).slot_of(k);
                                old(self).lemma_slot(s);
                                self.lemma_slot(s);
                            }
                            assert(self.view_map() =~= old_map.insert(c, old_map[c].drop_first()));
                        }
                        Ok(p)
                    },
                }
            },
        }
    }
}

/// Why no ordered packet could be taken.
#[derive(Debug, Clone, Copy, PartialEq, Eq, Structural)]
pub enum OrderedSendError {
    /// Channel did not exist.
    ChannelMissing,
    /// No packet was queued.
    NoPacketQueued,
}

/// The little-endian bytes of a packet length.
pub open spec fn le_bytes(n: u64) -> Seq<u8> {
    seq![
        (n & 0xff) as u8,
        ((n >> 8u64) & 0xff) as u8,
        ((n >> 16u64) & 0xff) as u8,
        ((n >> 24u64) & 0xff) as u8,
        ((n >> 32u64) & 0xff) as u8,
        ((n >> 40u64) & 0xff) as u8,
        ((n >> 48u64) & 0xff) as u8,
        ((n >> 56u64) & 0xff) as u8,
    ]
}

/// The number whose little-endian bytes are the first eight of `b`.
pub open spec fn from_le_bytes(b: Seq<u8>) -> u64 {
    (b[0] as u64) | ((b[1] as u64) << 8u64) | ((b[2] as u64) << 16u64) | ((b[3] as u64) << 24u64)
        | ((b[4] as u64) << 32u64) | ((b[5] as u64) << 40u64) | ((b[6] as u64) << 48u64) | ((
    b[7] as u64) << 56u64)
}

proof fn lemma_le_roundtrip(n: u64)
    ensures
        from_le_bytes(le_bytes(n)) == n,
{
    let b = le_bytes(n);
    let (b0, b1, b2, b3, b4, b5, b6, b7) = (b[0], b[1], b[2], b[3], b[4], b[5], b[6], b[7]);
    assert(b0 == (n & 0xff) as u8);
    assert(b7 == ((n >> 56u64) & 0xff) as u8);
    assert((b0 as u64) | ((b1 as u64) << 8u64) | ((b2 as u64) << 16u64) | ((b3 as u64) << 24u64)
        | ((b4 as u64) << 32u64) | ((b5 as u64) << 40u64) | ((b6 as u64) << 48u64) | ((b7 as u64)
        << 56u64) == n) by (bit_vector)
        requires
            b0 == (n & 0xff) as u8,
            b1 == ((n >> 8u64) & 0xff) as u8,
            b2 == ((n >> 16u64) & 0xff) as u8,
            b3 == ((n >> 24u64) & 0xff) as u8,
            b4 == ((n >> 32u64) & 0xff) as u8,
            b5 == ((n >> 40u64) & 0xff) as u8,
            b6 == ((n >> 48u64) & 0xff) as u8,
            b7 == ((n >> 56u64) & 0xff) as u8,
    ;
}

/// A packet as it goes over an ordered stream: its length as eight
/// little-endian bytes, then its bytes.
pub open spec fn spec_frame(packet: Seq<u8>) -> Seq<u8> {
    le_bytes(packet.len() as u64) + packet
}

/// Frames a packet for an ordered stream.
pub fn frame_ordered_packet(packet: &[u8]) -> (r: Vec<u8>)
    ensures
        r@ == spec_frame(packet@),
{
    let n = packet.len() as u64;
    let mut r: Vec<u8> = Vec::new();
    r.push((n & 0xff) as u8);
    r.push(((n >> 8) & 0xff) as u8);
    r.push(((n >> 16) & 0xff) as u8);
    r.push(((n >> 24) & 0xff) as u8);
    r.push(((n >> 32) & 0xff) as u8);
    r.push(((n >> 40) & 0xff) as u8);
    r.push(((n >> 48) & 0xff) as u8);
    r.push(((n >> 56) & 0xff) as u8);
    assert(r@ =~= le_bytes(n));
    let mut i: usize = 0;
    while i < packet.len()
        invariant
            i <= packet@.len(),
            r@ == le_bytes(n) + packet@.take(i as int),
        decreases packet.len() - i,
    {
        r.push(packet[i]);
        i = i + 1;
        assert(r@ =~= le_bytes(n) + packet@.take(i as int));
    }
    assert(packet@.take(packet@.len() as int) =~= packet@);
    r
}

/// What reading one framed packet from the start of a buffer gives.
#[derive(Debug, PartialEq, Eq)]
pub enum FrameDecode {
    /// More bytes are needed.
    Incomplete,
    /// read size exceeded max length.
    TooLarge,
    /// A whole packet, and how many bytes of the buffer it took.
    Packet { data: Vec<u8>, consumed: usize },
}

/// The packet read from the start of `buf`, refusing lengths beyond the
/// stream window: `None` while incomplete, `Some(Err(()))` when too large.
pub open spec fn spec_decode(buf: Seq<u8>, stream_window: usize) -> Option<Result<Seq<u8>, ()>> {
    if buf.len() < 8 {
        None
    } else if from_le_bytes(buf) > stream_window {
        Some(Err(()))
    } else if buf.len() - 8 < from_le_bytes(buf) {
        None
    } else {
        Some(Ok(buf.subrange(8, 8 + from_le_bytes(buf) as int)))
    }
}

/// Reads one framed packet from the start of `buf`.
pub fn decode_ordered_frame(buf: &[u8], stream_window: usize) -> (r: FrameDecode)
    ensures
        match spec_decode(buf@, stream_window) {
            None => r is Incomplete,
            Some(Err(())) => r is TooLarge,
            Some(Ok(p)) => r matches FrameDecode::Packet { data, consumed } && data@ == p
                && consumed == 8 + p.len(),
        },
{
    if buf.len() < 8 {
        return FrameDecode::Incomplete;
    }
    let len: u64 = (buf[0] as u64) | ((buf[1] as u64) << 8) | ((buf[2] as u64) << 16) | ((
    buf[3] as u64) << 24) | ((buf[4] as u64) << 32) | ((buf[5] as u64) << 40) | ((buf[6] as u64)
        << 48) | ((buf[7] as u64) << 56);
    assert(len == from_le_bytes(buf@));
    if len > stream_window as u64 {
        return FrameDecode::TooLarge;
    }
    let len = len as usize;
    if buf.len() - 8 < len {
        return FrameDecode::Incomplete;
    }
    let mut data: Vec<u8> = Vec::new();
    let mut i: usize = 0;
    while i < len
        invariant
            i <= len,
            8 + len <= buf@.len(),
            buf@.len() == buf.len(),
            data@ == buf@.subrange(8, 8 + i as int),
        decreases len - i,
    {
        data.push(buf[8 + i]);
        i = i + 1;
        assert(data@ =~= buf@.subrange(8, 8 + i as int));
    }
    FrameDecode::Packet { data, consumed: 8 + len }
}

/// Reading a framed packet gives the packet back: for a packet within the
/// stream window, the frame followed by anything decodes to that packet and
/// takes exactly the frame.
pub proof fn lemma_frame_roundtrip(packet: Seq<u8>, rest: Seq<u8>, stream_window: usize)
    requires
        packet.len() <= stream_window,
    ensures
        spec_decode(spec_frame(packet) + rest, stream_window) == Some(
            Ok::<Seq<u8>, ()>(packet),
        ),
{
    let n = packet.len() as u64;
    let buf = spec_frame(packet) + rest;
    lemma_le_roundtrip(n);
    assert(from_le_bytes(buf) == from_le_bytes(le_bytes(n))) by {
        assert(buf[0] == le_bytes(n)[0]);
        assert(buf[1] == le_bytes(n)[1]);
        assert(buf[2] == le_bytes(n)[2]);
        assert(buf[3] == le_bytes(n)[3]);
        assert(buf[4] == le_bytes(n)[4]);
        assert(buf[5] == le_bytes(n)[5]);
        assert(buf[6] == le_bytes(n)[6]);
        assert(buf[7] == le_bytes(n)[7]);
    }
    assert(buf.subrange(8, 8 + packet.len() as int) =~= packet);
}

/// What reading an ordered stream gives, frame by frame.
pub enum StreamRead {
    Packet(Seq<u8>),
    /// read size exceeded max length; reading stops
    TooLarge,
    /// the stream ended (or holds only part of a frame); reading stops
    End,
}

/// Reading the framed packets of `buf` one after another with
/// [`decode_ordered_frame`] until it ends or a frame is too large.
pub open spec fn spec_read_stream(buf: Seq<u8>, stream_window: usize) -> Seq<StreamRead>
    decreases buf.len(),
{
    match spec_decode(buf, stream_window) {
        Some(Ok(p)) => if 8 + p.len() <= buf.len() {
            seq![StreamRead::Packet(p)] + spec_read_stream(buf.skip(8 + p.len() as int), stream_window)
        } else {
            seq![StreamRead::End]
        },
        Some(Err(())) => seq![StreamRead::TooLarge],
        None => seq![StreamRead::End],
    }
}

/// The frames of `packets`, one after another.
pub open spec fn spec_frames(packets: Seq<Seq<u8>>) -> Seq<u8>
    decreases packets.len(),
{
    if packets.len() == 0 {
        Seq::empty()
    } else {
        spec_frame(packets[0]) + spec_frames(packets.drop_first())
    }
}

/// A stream of framed packets, each within the stream window, reads back
/// as those packets in order, then the end of the stream.
#[verifier::spinoff_prover]
#[verifier::rlimit(40)]
pub proof fn lemma_read_stream(packets: Seq<Seq<u8>>, stream_window: usize)
    requires
        forall|i: int| 0 <= i < packets.len() ==> #[trigger] packets[i].len() <= stream_window,
    ensures
        spec_read_stream(spec_frames(packets), stream_window) == packets.map_values(
            |p: Seq<u8>| StreamRead::Packet(p),
        ).push(StreamRead::End),
    decreases packets.len(),
{
    let buf = spec_frames(packets);
    if packets.len() == 0 {
        assert(spec_decode(buf, stream_window) is None);
        assert(packets.map_values(|p: Seq<u8>| StreamRead::Packet(p)).push(StreamRead::End) =~= seq![
            StreamRead::End,
        ]);
    } else {
        let p = packets[0];
        let rest = packets.drop_first();
        assert(p.len() <= stream_window);
        assert(buf == spec_frame(p) + spec_frames(rest));
        lemma_frame_roundtrip(p, spec_frames(rest), stream_window);
        assert(spec_decode(buf, stream_window) == Some(Ok::<Seq<u8>, ()>(p)));
        assert(spec_frame(p).len() == 8 + p.len());
        assert(buf.skip(8 + p.len() as int) =~= spec_frames(rest));
        assert forall|i: int| 0 <= i < rest.len() implies #[trigger] rest[i].len() <= stream_window by {
            assert(rest[i] == packets[i + 1]);
        }
        lemma_read_stream(rest, stream_window);
        assert(packets.map_values(|q: Seq<u8>| StreamRead::Packet(q)).push(StreamRead::End) =~= seq![
            StreamRead::Packet(p),
        ] + rest.map_values(|q: Seq<u8>| StreamRead::Packet(q)).push(StreamRead::End));
    }
}

/// A frame longer than the stream window stops the reading with an error,
/// whatever follows.
pub proof fn lemma_read_stream_too_large(packet: Seq<u8>, rest: Seq<u8>, stream_window: usize)
    requires
        packet.len() > stream_window,
        packet.len() <= u64::MAX,
    ensures
        spec_read_stream(spec_frame(packet) + rest, stream_window) == seq![StreamRead::TooLarge],
{
    let n = packet.len() as u64;
    let buf = spec_frame(packet) + rest;
    lemma_le_roundtrip(n);
    assert(from_le_bytes(buf) == from_le_bytes(le_bytes(n))) by {
        assert(buf[0] == le_bytes(n)[0]);
        assert(buf[1] == le_bytes(n)[1]);
        assert(buf[2] == le_bytes(n)[2]);
        assert(buf[3] == le_bytes(n)[3]);
        assert(buf[4] == le_bytes(n)[4]);
        assert(buf[5] == le_bytes(n)[5]);
        assert(buf[6] == le_bytes(n)[6]);
        assert(buf[7] == le_bytes(n)[7]);
    }
}

} // verus!
