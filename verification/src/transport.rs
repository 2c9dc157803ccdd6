//! How messages travel between replicas.
//!
//! On a connection each message is a frame: a magic number, a version and the
//! length of the message, four bytes each and high byte first, then the message
//! itself as protobuf bytes. The magic number turns away clients that speak
//! something else.

#[allow(unused_imports)]
use crate::bytes;
use crate::bytes::{push_u32_be, read_u32_be};
#[allow(unused_imports)]
use crate::proto;
#[allow(unused_imports)]
use crate::proto::MessageView;
use crate::proto::{parse_message, write_message, RaftMessage};
#[allow(unused_imports)]
use crate::text;
use crate::text::push_decimal;
use protobuf::ProtobufError;
use std::collections::{HashMap, HashSet};
use vstd::prelude::*;

verus! {

pub const FRAME_MAGIC: u32 = 0xC8EA_AF01;

pub const FRAME_VERSION: u32 = 1;

/// The longest message that is framed.
pub const FRAME_MAX_LEN: u32 = 0x100_0000;

// ---------------------------------------------------------------------------
// Frames
// ---------------------------------------------------------------------------

/// What is wrong with a frame.
#[derive(Debug, Clone, Copy, PartialEq, Eq, Structural)]
pub enum FrameError {
    BadMagic(u32),
    BadVersion(u32),
    TooLarge(u64),
    /// The connection ended inside a frame.
    UnexpectedEof,
}

/// A hexadecimal digit, upper case.
pub open spec fn hex_digit(d: nat) -> char {
    if d < 10 {
        (48 + d) as char
    } else {
        (55 + d) as char
    }
}

/// The low `width` hexadecimal digits of a number.
pub open spec fn hex(n: nat, width: nat) -> Seq<char>
    decreases width,
{
    if width == 0 {
        Seq::empty()
    } else {
        hex(n / 16, (width - 1) as nat).push(hex_digit(n % 16))
    }
}

/// The last of the hexadecimal digits of a number is that of its ones, and the others are the
/// digits of its sixteens. The digits beyond 9 are capital letters.
pub proof fn law_hex(sixteens: nat, ones: nat, width: nat)
    requires
        ones < 16,
    ensures
        hex(16 * sixteens + ones, width + 1) == hex(sixteens, width).push(hex_digit(ones)),
        hex(ones, 0).len() == 0,
        ones < 10 ==> hex_digit(ones) as int == '0' as int + ones,
        ones >= 10 ==> hex_digit(ones) as int == 'A' as int + ones - 10,
{
    let n = 16 * sixteens + ones;
    assert(n / 16 == sixteens && n % 16 == ones);
}

fn push_hex(s: &mut String, n: u32, width: usize)
    ensures
        final(s)@ == old(s)@ + hex(n as nat, width as nat),
    decreases width,
{
    if width > 0 {
        push_hex(s, n / 16, width - 1);
        let d: u8 = (n % 16) as u8;
        let c: u8 = if d < 10 {
            48 + d
        } else {
            55 + d
        };
        s.push(c as char);
    }
    assert(s@ =~= old(s)@ + hex(n as nat, width as nat));
}

pub open spec fn frame_message(e: FrameError) -> Seq<char> {
    match e {
        FrameError::BadMagic(m) => "bad raft frame magic 0x"@ + hex(m as nat, 8),
        FrameError::BadVersion(v) => "raft frame version mismatch: got "@ + text::decimal(v as nat)
            + ", want "@ + text::decimal(FRAME_VERSION as nat),
        FrameError::TooLarge(n) => "raft frame too large: "@ + text::decimal(n as nat) + " bytes"@,
        FrameError::UnexpectedEof => "early eof"@,
    }
}

impl FrameError {
    /// The error in words.
    pub fn message(&self) -> (r: String)
        ensures
            r@ == frame_message(*self),
    {
        match self {
            FrameError::BadMagic(m) => {
                let mut s: String = "bad raft frame magic 0x".to_owned();
                push_hex(&mut s, *m, 8);
                s
            },
            FrameError::BadVersion(v) => {
                let mut s: String = "raft frame version mismatch: got ".to_owned();
                push_decimal(&mut s, *v as u128);
                s.push_str(", want ");
                push_decimal(&mut s, FRAME_VERSION as u128);
                s
            },
            FrameError::TooLarge(n) => {
                let mut s: String = "raft frame too large: ".to_owned();
                push_decimal(&mut s, *n as u128);
                s.push_str(" bytes");
                s
            },
            FrameError::UnexpectedEof => "early eof".to_owned(),
        }
    }
}

/// A frame around some bytes.
pub open spec fn frame(payload: Seq<u8>) -> Seq<u8> {
    bytes::be_bytes(FRAME_MAGIC as nat, 4) + bytes::be_bytes(FRAME_VERSION as nat, 4)
        + bytes::be_bytes(payload.len(), 4) + payload
}

/// Frames the bytes of a message.
pub fn encode_frame(payload: &[u8]) -> (r: Result<Vec<u8>, FrameError>)
    ensures
        match r {
            Ok(out) => payload@.len() <= FRAME_MAX_LEN && out@ == frame(payload@),
            Err(e) => payload@.len() > FRAME_MAX_LEN && e == FrameError::TooLarge(
                payload@.len() as u64,
            ),
        },
        r is Ok <==> payload@.len() <= 0x100_0000,
{
    if payload.len() > FRAME_MAX_LEN as usize {
        return Err(FrameError::TooLarge(payload.len() as u64));
    }
    let mut out: Vec<u8> = Vec::new();
    push_u32_be(&mut out, FRAME_MAGIC);
    push_u32_be(&mut out, FRAME_VERSION);
    push_u32_be(&mut out, payload.len() as u32);
    out.extend_from_slice(payload);
    assert(out@ =~= frame(payload@));
    Ok(out)
}

/// Which part of a frame is read next.
#[derive(Debug, Clone, Copy, PartialEq, Eq, Structural)]
pub enum FrameReader {
    Magic,
    Version,
    Length,
    Payload(u32),
}

/// What came of a part of a frame.
#[derive(Debug, PartialEq, Eq)]
pub enum FrameEvent {
    /// The frame goes on.
    More,
    /// The frame is complete.
    Frame(Vec<u8>),
}

pub enum FrameEventView {
    More,
    Frame(Seq<u8>),
}

impl View for FrameEvent {
    type V = FrameEventView;

    open spec fn view(&self) -> FrameEventView {
        match self {
            FrameEvent::More => FrameEventView::More,
            FrameEvent::Frame(b) => FrameEventView::Frame(b@),
        }
    }
}

/// The number of bytes of the part that is read next.
pub open spec fn part_len(r: FrameReader) -> nat {
    match r {
        FrameReader::Payload(n) => n as nat,
        _ => 4,
    }
}

/// What comes of the bytes of a part, and which part is next.
pub open spec fn read_part(r: FrameReader, part: Seq<u8>) -> (
    FrameReader,
    Result<FrameEventView, FrameError>,
) {
    let n = bytes::be_value(part) as u32;
    match r {
        FrameReader::Magic => if n != FRAME_MAGIC {
            (r, Err(FrameError::BadMagic(n)))
        } else {
            (FrameReader::Version, Ok(FrameEventView::More))
        },
        FrameReader::Version => if n != FRAME_VERSION {
            (r, Err(FrameError::BadVersion(n)))
        } else {
            (FrameReader::Length, Ok(FrameEventView::More))
        },
        FrameReader::Length => if n > FRAME_MAX_LEN {
            (r, Err(FrameError::TooLarge(n as u64)))
        } else {
            (FrameReader::Payload(n), Ok(FrameEventView::More))
        },
        FrameReader::Payload(_) => (FrameReader::Magic, Ok(FrameEventView::Frame(part))),
    }
}

impl FrameReader {
    /// Begins with the first frame of a connection.
    pub fn new() -> (r: FrameReader)
        ensures
            r == FrameReader::Magic,
    {
        FrameReader::Magic
    }

    /// The number of bytes to read next.
    pub fn wanted(&self) -> (n: usize)
        ensures
            n == part_len(*self),
    {
        match self {
            FrameReader::Payload(n) => *n as usize,
            _ => 4,
        }
    }

    /// Goes on with the bytes that were wanted.
    pub fn feed(&mut self, part: Vec<u8>) -> (r: Result<FrameEvent, FrameError>)
        requires
            part@.len() == part_len(*old(self)),
        ensures
            *final(self) == read_part(*old(self), part@).0,
            match read_part(*old(self), part@).1 {
                Ok(event) => r matches Ok(e) && e@ == event,
                Err(error) => r matches Err(e) && e == error,
            },
    {
        match *self {
            FrameReader::Payload(_) => {
                *self = FrameReader::Magic;
                Ok(FrameEvent::Frame(part))
            },
            at => {
                let n: u32 = read_u32_be(part.as_slice(), 0);
                assert(part@.subrange(0, 4) =~= part@);
                match at {
                    FrameReader::Magic => {
                        if n != FRAME_MAGIC {
                            return Err(FrameError::BadMagic(n));
                        }
                        *self = FrameReader::Version;
                    },
                    FrameReader::Version => {
                        if n != FRAME_VERSION {
                            return Err(FrameError::BadVersion(n));
                        }
                        *self = FrameReader::Length;
                    },
                    _ => {
                        if n > FRAME_MAX_LEN {
                            return Err(FrameError::TooLarge(n as u64));
                        }
                        *self = FrameReader::Payload(n);
                    },
                }
                Ok(FrameEvent::More)
            },
        }
    }

    /// Whether the connection may end here: only before a frame.
    pub fn eof(&self) -> (r: Result<(), FrameError>)
        ensures
            match r {
                Ok(_) => *self == FrameReader::Magic,
                Err(e) => *self != FrameReader::Magic && e == FrameError::UnexpectedEof,
            },
    {
        match self {
            FrameReader::Magic => Ok(()),
            _ => Err(FrameError::UnexpectedEof),
        }
    }
}

/// Reading a frame part by part gives back the bytes that were framed, and
/// leaves the reader before the next frame.
pub proof fn law_frame_round_trip(payload: Seq<u8>)
    requires
        payload.len() <= FRAME_MAX_LEN,
    ensures
        ({
            let f = frame(payload);
            let (a, x) = read_part(FrameReader::Magic, f.subrange(0, 4));
            let (b, y) = read_part(a, f.subrange(4, 8));
            let (c, z) = read_part(b, f.subrange(8, 12));
            let (d, end) = read_part(c, f.skip(12));
            &&& x == Ok::<FrameEventView, FrameError>(FrameEventView::More)
            &&& y == Ok::<FrameEventView, FrameError>(FrameEventView::More)
            &&& z == Ok::<FrameEventView, FrameError>(FrameEventView::More)
            &&& part_len(c) == f.skip(12).len()
            &&& end == Ok::<FrameEventView, FrameError>(FrameEventView::Frame(payload))
            &&& d == FrameReader::Magic
        }),
{
    let f = frame(payload);
    bytes::lemma_powers();
    bytes::lemma_be_bytes_len(FRAME_MAGIC as nat, 4);
    bytes::lemma_be_bytes_len(FRAME_VERSION as nat, 4);
    bytes::lemma_be_bytes_len(payload.len(), 4);
    bytes::law_be_value_of_bytes(FRAME_MAGIC as nat, 4);
    bytes::law_be_value_of_bytes(FRAME_VERSION as nat, 4);
    bytes::law_be_value_of_bytes(payload.len(), 4);
    assert(f.subrange(0, 4) =~= bytes::be_bytes(FRAME_MAGIC as nat, 4));
    assert(f.subrange(4, 8) =~= bytes::be_bytes(FRAME_VERSION as nat, 4));
    assert(f.subrange(8, 12) =~= bytes::be_bytes(payload.len(), 4));
    assert(f.skip(12) =~= payload);
}

/// Every message of up to sixteen mebibytes fits a frame, and a reader refuses a longer one
/// before it reads it.
pub proof fn law_frame_limit(payload: Seq<u8>, part: Seq<u8>)
    requires
        payload.len() <= 0x100_0000,
        part.len() == 4,
    ensures
        read_part(FrameReader::Length, frame(payload).subrange(8, 12)) == (
            FrameReader::Payload(payload.len() as u32),
            Ok::<FrameEventView, FrameError>(FrameEventView::More),
        ),
        bytes::be_value(part) > 0x100_0000 <==> read_part(FrameReader::Length, part).1 is Err,
        bytes::be_value(part) > 0x100_0000 ==> read_part(FrameReader::Length, part) == (
            FrameReader::Length,
            Err::<FrameEventView, FrameError>(FrameError::TooLarge(bytes::be_value(part) as u64)),
        ),
{
    law_frame_round_trip(payload);
    bytes::lemma_powers();
    bytes::lemma_be_value_bound(part);
    bytes::lemma_be_bytes_len(payload.len(), 4);
    bytes::law_be_value_of_bytes(payload.len(), 4);
    bytes::lemma_be_bytes_len(FRAME_MAGIC as nat, 4);
    bytes::lemma_be_bytes_len(FRAME_VERSION as nat, 4);
    assert(frame(payload).subrange(8, 12) =~= bytes::be_bytes(payload.len(), 4));
}

/// A reader takes nothing for the beginning of a frame but what frames begin with: other
/// bytes are refused, and the reader goes no further.
pub proof fn law_only_frames_are_read(payload: Seq<u8>, part: Seq<u8>)
    requires
        part.len() == 4,
    ensures
        part == frame(payload).subrange(0, 4) <==> read_part(FrameReader::Magic, part).1 is Ok,
        part == frame(payload).subrange(4, 8) <==> read_part(FrameReader::Version, part).1 is Ok,
        read_part(FrameReader::Magic, part).1 matches Err(e) ==> e == FrameError::BadMagic(
            bytes::be_value(part) as u32,
        ) && read_part(FrameReader::Magic, part).0 is Magic,
        read_part(FrameReader::Version, part).1 matches Err(e) ==> e == FrameError::BadVersion(
            bytes::be_value(part) as u32,
        ) && read_part(FrameReader::Version, part).0 is Version,
        frame(payload).subrange(0, 4) == seq![0xC8u8, 0xEA, 0xAF, 0x01],
        frame(payload).subrange(4, 8) == seq![0u8, 0, 0, 1],
{
    let f = frame(payload);
    bytes::lemma_powers();
    bytes::lemma_be_bytes_len(FRAME_MAGIC as nat, 4);
    bytes::lemma_be_bytes_len(FRAME_VERSION as nat, 4);
    bytes::lemma_be_bytes_len(payload.len(), 4);
    bytes::law_be_value_of_bytes(FRAME_MAGIC as nat, 4);
    bytes::law_be_value_of_bytes(FRAME_VERSION as nat, 4);
    bytes::lemma_be_value_bound(part);
    bytes::law_be_bytes_of_value(part);
    assert(f.subrange(0, 4) =~= bytes::be_bytes(FRAME_MAGIC as nat, 4));
    assert(f.subrange(4, 8) =~= bytes::be_bytes(FRAME_VERSION as nat, 4));
    reveal_with_fuel(bytes::be_bytes, 5);
    assert(bytes::be_bytes(FRAME_MAGIC as nat, 4) =~= seq![0xC8u8, 0xEA, 0xAF, 0x01]);
    assert(bytes::be_bytes(FRAME_VERSION as nat, 4) =~= seq![0u8, 0, 0, 1]);
}

/// What is received is what was sent: reading the frame around the bytes of a message gives
/// bytes that hold that message.
pub proof fn law_message_arrives(m: MessageView, payload: Seq<u8>)
    requires
        proto::message_parsed(payload) == Some(m),
        payload.len() <= FRAME_MAX_LEN,
    ensures
        read_part(FrameReader::Payload(payload.len() as u32), frame(payload).skip(12)).1 matches Ok(
            FrameEventView::Frame(b),
        ) && proto::message_parsed(b) == Some(m),
{
    law_frame_round_trip(payload);
}

/// The message in a frame. A malformed one is passed over; the connection goes
/// on.
pub fn receive(payload: &[u8]) -> (r: Result<RaftMessage, ProtobufError>)
    ensures
        match r {
            Ok(m) => proto::message_parsed(payload@) == Some(m@),
            Err(_) => proto::message_parsed(payload@) is None,
        },
{
    parse_message(payload)
}

// ---------------------------------------------------------------------------
// Replicas in one process
// ---------------------------------------------------------------------------

/// Routes messages between replicas in one process. `H` is what a message is
/// handed to.
///
/// A replica that is taken off the network neither receives nor is heard: if it
/// were still heard, its heartbeats would keep the others from electing a
/// leader.
pub struct LocalLoopback<H> {
    peers: HashMap<u64, H>,
    silenced: HashSet<u64>,
}

impl<H> LocalLoopback<H> {
    /// The replicas that can receive.
    pub closed spec fn peers(self) -> Map<u64, H> {
        self.peers@
    }

    /// The replicas that were taken off the network.
    pub closed spec fn silenced(self) -> Set<u64> {
        self.silenced@
    }

    pub fn new() -> (r: LocalLoopback<H>)
        ensures
            r.peers() == Map::<u64, H>::empty(),
            r.silenced() == Set::<u64>::empty(),
    {
        broadcast use vstd::std_specs::hash::group_hash_axioms;

        LocalLoopback { peers: HashMap::new(), silenced: HashSet::new() }
    }

    /// Puts a replica on the network, or back on it.
    pub fn register(&mut self, node_id: u64, inbound: H)
        ensures
            final(self).peers() == old(self).peers().insert(node_id, inbound),
            final(self).silenced() == old(self).silenced().remove(node_id),
    {
        broadcast use vstd::std_specs::hash::group_hash_axioms;

        self.peers.insert(node_id, inbound);
        self.silenced.remove(&node_id);
    }

    /// Takes a replica off the network.
    pub fn unregister(&mut self, node_id: u64)
        ensures
            final(self).peers() == old(self).peers().remove(node_id),
            final(self).silenced() == old(self).silenced().insert(node_id),
    {
        broadcast use vstd::std_specs::hash::group_hash_axioms;

        self.peers.remove(&node_id);
        self.silenced.insert(node_id);
    }

    /// Where a message goes: nowhere if either end is off the network or the
    /// receiver is not known.
    pub fn route(&self, from: u64, to: u64) -> (r: Option<&H>)
        ensures
            r == (match routed(self.peers(), self.silenced(), from, to) {
                Some(h) => Some(&h),
                None => None,
            }),
    {
        broadcast use vstd::std_specs::hash::group_hash_axioms;

        if self.silenced.contains(&from) || self.silenced.contains(&to) {
            return None;
        }
        self.peers.get(&to)
    }

    /// What a message is to be handed to, if to anything.
    pub fn send(&self, msg: &RaftMessage) -> (r: Option<&H>)
        ensures
            r == (match routed(
                self.peers(),
                self.silenced(),
                msg.from,
                msg.to,
            ) {
                Some(h) => Some(&h),
                None => None,
            }),
    {
        self.route(msg.from, msg.to)
    }
}

/// What receives a message from `from` to `to`.
pub open spec fn routed<H>(peers: Map<u64, H>, silenced: Set<u64>, from: u64, to: u64) -> Option<H> {
    if silenced.contains(from) || silenced.contains(to) || !peers.dom().contains(to) {
        None
    } else {
        Some(peers[to])
    }
}

/// A replica that was taken off the network neither receives nor is heard, and
/// the others reach each other as before. Put back, it receives, and is heard
/// by the others.
pub proof fn law_partition<H>(peers: Map<u64, H>, silenced: Set<u64>, node: u64, other: u64, h: H)
    ensures
        routed(peers.remove(node), silenced.insert(node), node, other) is None,
        routed(peers.remove(node), silenced.insert(node), other, node) is None,
        forall|a: u64, b: u64|
            a != node && b != node ==> #[trigger] routed(
                peers.remove(node),
                silenced.insert(node),
                a,
                b,
            ) == routed(peers, silenced, a, b),
        !silenced.contains(other) ==> routed(
            peers.insert(node, h),
            silenced.remove(node),
            other,
            node,
        ) == Some(h),
        !silenced.contains(other) && peers.dom().contains(other) && other != node ==> routed(
            peers.insert(node, h),
            silenced.remove(node),
            node,
            other,
        ) == Some(peers[other]),
{
}

/// A message reaches the replica that it is addressed to and no other; one to a replica that
/// is not known goes nowhere.
pub proof fn law_routed_to_its_receiver<H>(
    peers: Map<u64, H>,
    silenced: Set<u64>,
    from: u64,
    to: u64,
)
    ensures
        routed(peers, silenced, from, to) matches Some(h) ==> peers.dom().contains(to) && h
            == peers[to],
        !peers.dom().contains(to) ==> routed(peers, silenced, from, to) is None,
        peers.dom().contains(to) && silenced.is_empty() ==> routed(peers, silenced, from, to)
            == Some(peers[to]),
{
    if silenced.is_empty() {
        assert(!silenced.contains(from) && !silenced.contains(to));
    }
}

// ---------------------------------------------------------------------------
// Replicas over TCP
// ---------------------------------------------------------------------------

/// Routes messages to the connections of other replicas. `C` is what leads to a
/// replica.
pub struct TcpTransport<C> {
    peers: HashMap<u64, C>,
}

/// Why a message is not sent. Raft sends again at the next heartbeat.
#[derive(Debug)]
pub enum DropReason {
    /// It is addressed to nobody.
    NoTarget,
    /// The replica is not known.
    UnknownPeer,
    /// Its size does not fit into a protobuf message.
    TooLarge,
    Serialize(ProtobufError),
}

/// What to do with a message.
pub enum SendPlan<'a, C> {
    Drop(DropReason),
    /// Frame the payload and send it over the connection.
    Send { conn: &'a C, payload: Vec<u8> },
}

impl<C> TcpTransport<C> {
    /// The replicas that can be reached.
    pub closed spec fn peers(self) -> Map<u64, C> {
        self.peers@
    }

    pub fn new() -> (r: TcpTransport<C>)
        ensures
            r.peers() == Map::<u64, C>::empty(),
    {
        broadcast use vstd::std_specs::hash::group_hash_axioms;

        TcpTransport { peers: HashMap::new() }
    }

    /// Sets how a replica is reached, in place of how it was before.
    pub fn set_peer(&mut self, peer_id: u64, conn: C)
        ensures
            final(self).peers() == old(self).peers().insert(peer_id, conn),
    {
        broadcast use vstd::std_specs::hash::group_hash_axioms;

        self.peers.insert(peer_id, conn);
    }

    /// Forgets a replica.
    pub fn remove_peer(&mut self, peer_id: u64)
        ensures
            final(self).peers() == old(self).peers().remove(peer_id),
    {
        broadcast use vstd::std_specs::hash::group_hash_axioms;

        self.peers.remove(&peer_id);
    }

    /// Says what to do with a message.
    pub fn send(&self, msg: &RaftMessage) -> (plan: SendPlan<'_, C>)
        ensures
            if msg.to == 0 {
                plan matches SendPlan::Drop(DropReason::NoTarget)
            } else if !self.peers().dom().contains(msg.to) {
                plan matches SendPlan::Drop(DropReason::UnknownPeer)
            } else if !proto::message_fits(msg@) {
                plan matches SendPlan::Drop(DropReason::TooLarge)
            } else {
                plan matches SendPlan::Send { conn, payload } && *conn == self.peers()[msg.to]
                    && payload@ == proto::message_written(msg@) && proto::message_parsed(payload@)
                    == Some(msg@)
            },
    {
        broadcast use vstd::std_specs::hash::group_hash_axioms;

        if msg.to == 0 {
            return SendPlan::Drop(DropReason::NoTarget);
        }
        let conn: &C = match self.peers.get(&msg.to) {
            None => {
                return SendPlan::Drop(DropReason::UnknownPeer);
            },
            Some(conn) => conn,
        };
        if !msg.fits() {
            return SendPlan::Drop(DropReason::TooLarge);
        }
        match write_message(msg) {
            Ok(payload) => SendPlan::Send { conn, payload },
            Err(e) => SendPlan::Drop(DropReason::Serialize(e)),
        }
    }
}

} // verus!
