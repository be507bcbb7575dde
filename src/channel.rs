//! The two-party channel: the party's role, the framing of every message,
//! and the byte and round-trip counters.
//!
//! The stream itself belongs to the caller. An exchange is one symmetric
//! round trip: `exchange_bytes` frames the outgoing payload and says whether
//! to send it before or after reading the peer's frame, and
//! `complete_exchange` takes the payload that was read.
use vstd::bytes::{spec_u64_to_le_bytes, u64_from_le_bytes, u64_to_le_bytes};
use vstd::prelude::*;

verus! {

/// Length of the header that precedes every payload.
pub const HEADER_BYTES: usize = 8;

/// Cumulative traffic of a channel.
#[derive(Clone, Copy, Debug)]
pub struct ChannelStats {
    pub bytes_sent: usize,
    pub bytes_recv: usize,
    pub exchanges: usize,
}

/// One party's end of the channel.
pub struct Channel {
    /// Whether a stream is attached.
    pub connected: bool,
    /// Whether a frame has been sent or planned whose reply is not in yet.
    pub pending: bool,
    /// The first party sends before it receives; the second the other way round.
    pub talk_first: bool,
    pub bytes_sent: usize,
    pub bytes_recv: usize,
    pub exchanges: usize,
}

/// What the caller does for one exchange: write `frame` to the stream, and
/// read one frame from it, in the order `send_first` gives.
pub struct ExchangePlan {
    pub frame: Vec<u8>,
    pub send_first: bool,
}

/// The frame of a payload: its length as 8 little-endian bytes, then the
/// payload.
pub open spec fn frame_of(payload: Seq<u8>) -> Seq<u8> {
    spec_u64_to_le_bytes(payload.len() as u64) + payload
}

impl Channel {
    /// A channel with no stream and zero counters.
    pub fn new() -> (r: Channel)
        ensures
            !r.connected,
            !r.pending,
            !r.talk_first,
            r.bytes_sent == 0,
            r.bytes_recv == 0,
            r.exchanges == 0,
    {
        Channel {
            connected: false,
            pending: false,
            talk_first: false,
            bytes_sent: 0,
            bytes_recv: 0,
            exchanges: 0,
        }
    }
}

/// Records that a stream to the peer is attached, and the party's role.
/// A channel is initialised once.
pub fn init(ch: &mut Channel, talk_first: bool)
    requires
        !old(ch).connected,
    ensures
        final(ch).connected,
        !final(ch).pending,
        final(ch).talk_first == talk_first,
        final(ch).bytes_sent == old(ch).bytes_sent,
        final(ch).bytes_recv == old(ch).bytes_recv,
        final(ch).exchanges == old(ch).exchanges,
{
    ch.connected = true;
    ch.pending = false;
    ch.talk_first = talk_first;
}

/// Is this the first party?
pub fn am_first(ch: &Channel) -> (r: bool)
    ensures
        r == ch.talk_first,
{
    ch.talk_first
}

/// Starts a round trip that sends `payload`: counts the exchange and the
/// bytes sent, header included, and returns the frame and the order.
pub fn exchange_bytes(ch: &mut Channel, payload: &Vec<u8>) -> (r: ExchangePlan)
    requires
        old(ch).connected,
        !old(ch).pending,
        old(ch).exchanges < usize::MAX,
        old(ch).bytes_sent + HEADER_BYTES + payload@.len() <= usize::MAX,
    ensures
        r.frame@ == frame_of(payload@),
        r.send_first == old(ch).talk_first,
        final(ch).connected,
        final(ch).pending,
        final(ch).talk_first == old(ch).talk_first,
        final(ch).exchanges == old(ch).exchanges + 1,
        final(ch).bytes_sent == old(ch).bytes_sent + HEADER_BYTES + payload@.len(),
        final(ch).bytes_recv == old(ch).bytes_recv,
{
    let mut frame = u64_to_le_bytes(payload.len() as u64);
    let mut i: usize = 0;
    while i < payload.len()
        invariant
            0 <= i <= payload@.len(),
            frame@ == spec_u64_to_le_bytes(payload@.len() as u64) + payload@.subrange(0, i as int),
        decreases payload@.len() - i,
    {
        frame.push(payload[i]);
        i = i + 1;
        proof {
            assert(payload@.subrange(0, i as int) =~= payload@.subrange(0, i - 1).push(
                payload@[i - 1],
            ));
        }
    }
    assert(payload@.subrange(0, payload@.len() as int) =~= payload@);
    ch.exchanges = ch.exchanges + 1;
    ch.bytes_sent = ch.bytes_sent + HEADER_BYTES + payload.len();
    ch.pending = true;
    ExchangePlan { frame, send_first: ch.talk_first }
}

/// The payload length a received header announces.
pub fn frame_len(header: &[u8; 8]) -> (r: u64)
    ensures
        spec_u64_to_le_bytes(r) == header@,
{
    proof {
        vstd::bytes::lemma_auto_spec_u64_to_from_le_bytes();
    }
    u64_from_le_bytes(header.as_slice())
}

/// Ends the round trip begun by `exchange_bytes`, with the payload read
/// from the peer's frame; counts the bytes received, header included.
pub fn complete_exchange(ch: &mut Channel, payload: Vec<u8>) -> (r: Vec<u8>)
    requires
        old(ch).pending,
        old(ch).bytes_recv + HEADER_BYTES + payload@.len() <= usize::MAX,
    ensures
        r@ == payload@,
        !final(ch).pending,
        final(ch).connected == old(ch).connected,
        final(ch).talk_first == old(ch).talk_first,
        final(ch).exchanges == old(ch).exchanges,
        final(ch).bytes_sent == old(ch).bytes_sent,
        final(ch).bytes_recv == old(ch).bytes_recv + HEADER_BYTES + payload@.len(),
{
    ch.bytes_recv = ch.bytes_recv + HEADER_BYTES + payload.len();
    ch.pending = false;
    payload
}

/// Detaches the stream; the counters stay.
pub fn deinit(ch: &mut Channel)
    ensures
        !final(ch).connected,
        !final(ch).pending,
        final(ch).talk_first == old(ch).talk_first,
        final(ch).bytes_sent == old(ch).bytes_sent,
        final(ch).bytes_recv == old(ch).bytes_recv,
        final(ch).exchanges == old(ch).exchanges,
{
    ch.connected = false;
    ch.pending = false;
}

/// The counters.
pub fn stats(ch: &Channel) -> (r: ChannelStats)
    ensures
        r.bytes_sent == ch.bytes_sent,
        r.bytes_recv == ch.bytes_recv,
        r.exchanges == ch.exchanges,
{
    ChannelStats { bytes_sent: ch.bytes_sent, bytes_recv: ch.bytes_recv, exchanges: ch.exchanges }
}

} // verus!
