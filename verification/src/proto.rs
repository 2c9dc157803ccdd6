//! Log entries, hard state, membership, snapshots and messages as plain values,
//! and the calls that turn them into protobuf bytes and back.
//!
//! The byte form is that of `raft::eraftpb`. A protobuf message counts its size
//! in 32 bits, so the parts of a value that have no bound of their own are
//! bounded here.

use protobuf::{Message as ProtobufMessage, ProtobufEnum, ProtobufError};
use raft::eraftpb;
use vstd::prelude::*;

verus! {

#[verifier::external_type_specification]
#[verifier::external_body]
pub struct ExProtobufError(protobuf::ProtobufError);

#[verifier::external_type_specification]
#[verifier::external_body]
pub struct ExMessage(raft::eraftpb::Message);

/// What an entry of the log is for.
#[derive(Debug, Clone, Copy, PartialEq, Eq, Structural)]
pub enum EntryType {
    Normal,
    ConfChange,
    ConfChangeV2,
}

/// An entry of the log.
#[derive(Debug, PartialEq, Eq)]
pub struct Entry {
    pub entry_type: EntryType,
    pub term: u64,
    pub index: u64,
    pub data: Vec<u8>,
    pub context: Vec<u8>,
    pub sync_log: bool,
}

#[verifier::ext_equal]
pub struct EntryView {
    pub entry_type: EntryType,
    pub term: u64,
    pub index: u64,
    pub data: Seq<u8>,
    pub context: Seq<u8>,
    pub sync_log: bool,
}

impl View for Entry {
    type V = EntryView;

    open spec fn view(&self) -> EntryView {
        EntryView {
            entry_type: self.entry_type,
            term: self.term,
            index: self.index,
            data: self.data@,
            context: self.context@,
            sync_log: self.sync_log,
        }
    }
}

impl Default for Entry {
    fn default() -> (e: Entry)
        ensures
            e@ == zero_entry(),
    {
        let e: Entry = Entry {
            entry_type: EntryType::Normal,
            term: 0,
            index: 0,
            data: Vec::new(),
            context: Vec::new(),
            sync_log: false,
        };
        assert(e@ =~= zero_entry());
        e
    }
}

/// The entry whose fields are all empty.
pub open spec fn zero_entry() -> EntryView {
    EntryView {
        entry_type: EntryType::Normal,
        term: 0,
        index: 0,
        data: Seq::empty(),
        context: Seq::empty(),
        sync_log: false,
    }
}

/// What a replica must remember across restarts: its term, its vote and how
/// far the log is committed.
#[derive(Debug, Clone, Copy, PartialEq, Eq, Structural)]
pub struct HardState {
    pub term: u64,
    pub vote: u64,
    pub commit: u64,
}

impl Default for HardState {
    fn default() -> (hs: HardState)
        ensures
            hs == (HardState { term: 0, vote: 0, commit: 0 }),
    {
        HardState { term: 0, vote: 0, commit: 0 }
    }
}

/// The members of the group.
#[derive(Debug, PartialEq, Eq)]
pub struct ConfState {
    pub voters: Vec<u64>,
    pub learners: Vec<u64>,
    pub voters_outgoing: Vec<u64>,
    pub learners_next: Vec<u64>,
    pub auto_leave: bool,
}

#[verifier::ext_equal]
pub struct ConfStateView {
    pub voters: Seq<u64>,
    pub learners: Seq<u64>,
    pub voters_outgoing: Seq<u64>,
    pub learners_next: Seq<u64>,
    pub auto_leave: bool,
}

impl View for ConfState {
    type V = ConfStateView;

    open spec fn view(&self) -> ConfStateView {
        ConfStateView {
            voters: self.voters@,
            learners: self.learners@,
            voters_outgoing: self.voters_outgoing@,
            learners_next: self.learners_next@,
            auto_leave: self.auto_leave,
        }
    }
}

/// A group with the given voters and nothing else.
pub open spec fn voters_only(voters: Seq<u64>) -> ConfStateView {
    ConfStateView {
        voters,
        learners: Seq::empty(),
        voters_outgoing: Seq::empty(),
        learners_next: Seq::empty(),
        auto_leave: false,
    }
}

impl ConfState {
    /// A group with the given voters and nothing else.
    pub fn with_voters(voters: Vec<u64>) -> (cs: ConfState)
        ensures
            cs@ == voters_only(voters@),
    {
        let cs: ConfState = ConfState {
            voters,
            learners: Vec::new(),
            voters_outgoing: Vec::new(),
            learners_next: Vec::new(),
            auto_leave: false,
        };
        assert(cs@ =~= voters_only(voters@));
        cs
    }
}

/// The log index and term that a snapshot stands at, and the members there.
#[derive(Debug, PartialEq, Eq)]
pub struct SnapshotMetadata {
    pub conf_state: ConfState,
    pub index: u64,
    pub term: u64,
}

#[verifier::ext_equal]
pub struct SnapshotMetadataView {
    pub conf_state: ConfStateView,
    pub index: u64,
    pub term: u64,
}

impl View for SnapshotMetadata {
    type V = SnapshotMetadataView;

    open spec fn view(&self) -> SnapshotMetadataView {
        SnapshotMetadataView { conf_state: self.conf_state@, index: self.index, term: self.term }
    }
}

/// A snapshot of the state machine.
#[derive(Debug, PartialEq, Eq)]
pub struct Snapshot {
    pub data: Vec<u8>,
    pub metadata: SnapshotMetadata,
}

#[verifier::ext_equal]
pub struct SnapshotView {
    pub data: Seq<u8>,
    pub metadata: SnapshotMetadataView,
}

impl View for Snapshot {
    type V = SnapshotView;

    open spec fn view(&self) -> SnapshotView {
        SnapshotView { data: self.data@, metadata: self.metadata@ }
    }
}

// ---------------------------------------------------------------------------
// Bounds
// ---------------------------------------------------------------------------

/// The payload of an entry leaves room for its header within 32 bits.
pub open spec fn entry_fits(e: EntryView) -> bool {
    e.data.len() + e.context.len() <= 0xffff_0000
}

/// The bytes that the lists of members take at most: a member takes a tag and a number.
pub open spec fn members_weight(c: ConfStateView) -> nat {
    11 * (c.voters.len() + c.learners.len() + c.voters_outgoing.len() + c.learners_next.len())
}

/// The lists of members leave room for the rest within 32 bits.
pub open spec fn conf_state_fits(c: ConfStateView) -> bool {
    members_weight(c) <= 0xffff_0000
}

impl Entry {
    /// Whether the payload is short enough to be written.
    pub fn fits(&self) -> (r: bool)
        ensures
            r == entry_fits(self@),
    {
        self.data.len() <= 0xffff_0000 && self.context.len() <= 0xffff_0000 - self.data.len()
    }
}

impl ConfState {
    fn weight(&self) -> (r: u128)
        ensures
            r == members_weight(self@),
            r <= 0x80_0000_0000_0000_0000,
    {
        11 * (self.voters.len() as u128 + self.learners.len() as u128
            + self.voters_outgoing.len() as u128 + self.learners_next.len() as u128)
    }

    /// Whether the lists of members are short enough to be written.
    pub fn fits(&self) -> (r: bool)
        ensures
            r == conf_state_fits(self@),
    {
        self.weight() <= 0xffff_0000
    }
}

// ---------------------------------------------------------------------------
// Bytes
//
// Writing fails only where a field that must be set is missing, and no field of
// these messages must be set: it always succeeds.
// ---------------------------------------------------------------------------

/// Calls `to_string` on an error of protobuf. What the text says of the error is left
/// open.
#[verifier::external_body]
pub(crate) fn protobuf_error_text(e: &ProtobufError) -> (r: String) {
    e.to_string()
}

/// What `write_to_bytes` makes of an entry.
pub uninterp spec fn entry_written(e: EntryView) -> Seq<u8>;

/// What `parse_from_bytes` makes of the bytes of an entry, if it succeeds.
pub uninterp spec fn entry_parsed(b: Seq<u8>) -> Option<EntryView>;

/// Calls `write_to_bytes` of `raft::eraftpb::Entry`: its protobuf bytes, which
/// parse as the same entry.
#[verifier::external_body]
pub(crate) fn write_entry(e: &Entry) -> (r: Result<Vec<u8>, ProtobufError>)
    requires
        entry_fits(e@),
    ensures
        r is Ok,
        r matches Ok(b) ==> b@ == entry_written(e@) && entry_parsed(b@) == Some(e@),
{
    let mut m = eraftpb::Entry::default();
    m.entry_type = match e.entry_type {
        EntryType::Normal => eraftpb::EntryType::EntryNormal,
        EntryType::ConfChange => eraftpb::EntryType::EntryConfChange,
        EntryType::ConfChangeV2 => eraftpb::EntryType::EntryConfChangeV2,
    };
    m.term = e.term;
    m.index = e.index;
    m.data = e.data.clone().into();
    m.context = e.context.clone().into();
    m.sync_log = e.sync_log;
    m.write_to_bytes()
}

/// Calls `parse_from_bytes` of `raft::eraftpb::Entry`: the entry that the bytes
/// hold, or an error.
#[verifier::external_body]
pub(crate) fn parse_entry(b: &[u8]) -> (r: Result<Entry, ProtobufError>)
    ensures
        r is Ok <==> entry_parsed(b@) is Some,
        r matches Ok(e) ==> entry_parsed(b@) == Some(e@),
{
    let m = eraftpb::Entry::parse_from_bytes(b)?;
    let entry_type = match m.entry_type {
        eraftpb::EntryType::EntryNormal => EntryType::Normal,
        eraftpb::EntryType::EntryConfChange => EntryType::ConfChange,
        eraftpb::EntryType::EntryConfChangeV2 => EntryType::ConfChangeV2,
    };
    let (data, context) = (m.data.to_vec(), m.context.to_vec());
    Ok(Entry { entry_type, term: m.term, index: m.index, data, context, sync_log: m.sync_log })
}

/// What `write_to_bytes` makes of a hard state.
pub uninterp spec fn hard_state_written(hs: HardState) -> Seq<u8>;

/// What `parse_from_bytes` makes of the bytes of a hard state, if it succeeds.
pub uninterp spec fn hard_state_parsed(b: Seq<u8>) -> Option<HardState>;

/// Calls `write_to_bytes` of `raft::eraftpb::HardState`: its protobuf bytes,
/// which parse as the same hard state.
#[verifier::external_body]
pub(crate) fn write_hard_state(hs: &HardState) -> (r: Result<Vec<u8>, ProtobufError>)
    ensures
        r is Ok,
        r matches Ok(b) ==> b@ == hard_state_written(*hs) && hard_state_parsed(b@) == Some(*hs),
{
    let mut m = eraftpb::HardState::default();
    m.term = hs.term;
    m.vote = hs.vote;
    m.commit = hs.commit;
    m.write_to_bytes()
}

/// Calls `parse_from_bytes` of `raft::eraftpb::HardState`: the hard state that
/// the bytes hold, or an error.
#[verifier::external_body]
pub(crate) fn parse_hard_state(b: &[u8]) -> (r: Result<HardState, ProtobufError>)
    ensures
        r is Ok <==> hard_state_parsed(b@) is Some,
        r matches Ok(hs) ==> hard_state_parsed(b@) == Some(hs),
{
    let m = eraftpb::HardState::parse_from_bytes(b)?;
    Ok(HardState { term: m.term, vote: m.vote, commit: m.commit })
}

/// What `write_to_bytes` makes of a conf state.
pub uninterp spec fn conf_state_written(cs: ConfStateView) -> Seq<u8>;

/// What `parse_from_bytes` makes of the bytes of a conf state, if it succeeds.
pub uninterp spec fn conf_state_parsed(b: Seq<u8>) -> Option<ConfStateView>;

/// Calls `write_to_bytes` of `raft::eraftpb::ConfState`: its protobuf bytes,
/// which parse as the same conf state.
#[verifier::external_body]
pub(crate) fn write_conf_state(cs: &ConfState) -> (r: Result<Vec<u8>, ProtobufError>)
    requires
        conf_state_fits(cs@),
    ensures
        r is Ok,
        r matches Ok(b) ==> b@ == conf_state_written(cs@) && conf_state_parsed(b@) == Some(cs@),
{
    let mut m = eraftpb::ConfState::default();
    m.voters = cs.voters.clone();
    m.learners = cs.learners.clone();
    m.voters_outgoing = cs.voters_outgoing.clone();
    m.learners_next = cs.learners_next.clone();
    m.auto_leave = cs.auto_leave;
    m.write_to_bytes()
}

/// Calls `parse_from_bytes` of `raft::eraftpb::ConfState`: the conf state that
/// the bytes hold, or an error.
#[verifier::external_body]
pub(crate) fn parse_conf_state(b: &[u8]) -> (r: Result<ConfState, ProtobufError>)
    ensures
        r is Ok <==> conf_state_parsed(b@) is Some,
        r matches Ok(cs) ==> conf_state_parsed(b@) == Some(cs@),
{
    let m = eraftpb::ConfState::parse_from_bytes(b)?;
    Ok(ConfState {
        voters: m.voters,
        learners: m.learners,
        voters_outgoing: m.voters_outgoing,
        learners_next: m.learners_next,
        auto_leave: m.auto_leave,
    })
}

/// What `write_to_bytes` makes of snapshot metadata.
pub uninterp spec fn metadata_written(m: SnapshotMetadataView) -> Seq<u8>;

/// What `parse_from_bytes` makes of the bytes of snapshot metadata, if it
/// succeeds.
pub uninterp spec fn metadata_parsed(b: Seq<u8>) -> Option<SnapshotMetadataView>;

/// Calls `write_to_bytes` of `raft::eraftpb::SnapshotMetadata`: its protobuf
/// bytes, which parse as the same metadata.
#[verifier::external_body]
pub(crate) fn write_metadata(s: &SnapshotMetadata) -> (r: Result<Vec<u8>, ProtobufError>)
    requires
        conf_state_fits(s@.conf_state),
    ensures
        r is Ok,
        r matches Ok(b) ==> b@ == metadata_written(s@) && metadata_parsed(b@) == Some(s@),
{
    let mut m = eraftpb::SnapshotMetadata::default();
    m.index = s.index;
    m.term = s.term;
    let c = m.mut_conf_state();
    c.voters = s.conf_state.voters.clone();
    c.learners = s.conf_state.learners.clone();
    c.voters_outgoing = s.conf_state.voters_outgoing.clone();
    c.learners_next = s.conf_state.learners_next.clone();
    c.auto_leave = s.conf_state.auto_leave;
    m.write_to_bytes()
}

/// Calls `parse_from_bytes` of `raft::eraftpb::SnapshotMetadata`: the metadata
/// that the bytes hold, or an error.
#[verifier::external_body]
pub(crate) fn parse_metadata(b: &[u8]) -> (r: Result<SnapshotMetadata, ProtobufError>)
    ensures
        r is Ok <==> metadata_parsed(b@) is Some,
        r matches Ok(s) ==> metadata_parsed(b@) == Some(s@),
{
    let mut m = eraftpb::SnapshotMetadata::parse_from_bytes(b)?;
    let c = m.take_conf_state();
    let conf_state = ConfState {
        voters: c.voters,
        learners: c.learners,
        voters_outgoing: c.voters_outgoing,
        learners_next: c.learners_next,
        auto_leave: c.auto_leave,
    };
    Ok(SnapshotMetadata { conf_state, index: m.index, term: m.term })
}

// ---------------------------------------------------------------------------
// Messages between replicas
// ---------------------------------------------------------------------------

/// What a message between replicas is for.
#[derive(Debug, Clone, Copy, PartialEq, Eq, Structural)]
pub enum MessageType {
    MsgHup,
    MsgBeat,
    MsgPropose,
    MsgAppend,
    MsgAppendResponse,
    MsgRequestVote,
    MsgRequestVoteResponse,
    MsgSnapshot,
    MsgHeartbeat,
    MsgHeartbeatResponse,
    MsgUnreachable,
    MsgSnapStatus,
    MsgCheckQuorum,
    MsgTransferLeader,
    MsgTimeoutNow,
    MsgReadIndex,
    MsgReadIndexResp,
    MsgRequestPreVote,
    MsgRequestPreVoteResponse,
}

/// The number that stands for the kind of a message.
pub open spec fn type_number(t: MessageType) -> i32 {
    match t {
        MessageType::MsgHup => 0,
        MessageType::MsgBeat => 1,
        MessageType::MsgPropose => 2,
        MessageType::MsgAppend => 3,
        MessageType::MsgAppendResponse => 4,
        MessageType::MsgRequestVote => 5,
        MessageType::MsgRequestVoteResponse => 6,
        MessageType::MsgSnapshot => 7,
        MessageType::MsgHeartbeat => 8,
        MessageType::MsgHeartbeatResponse => 9,
        MessageType::MsgUnreachable => 10,
        MessageType::MsgSnapStatus => 11,
        MessageType::MsgCheckQuorum => 12,
        MessageType::MsgTransferLeader => 13,
        MessageType::MsgTimeoutNow => 14,
        MessageType::MsgReadIndex => 15,
        MessageType::MsgReadIndexResp => 16,
        MessageType::MsgRequestPreVote => 17,
        MessageType::MsgRequestPreVoteResponse => 18,
    }
}

impl MessageType {
    /// The number that stands for the kind of a message.
    pub fn number(self) -> (n: i32)
        ensures
            n == type_number(self),
            0 <= n <= 18,
    {
        match self {
            MessageType::MsgHup => 0,
            MessageType::MsgBeat => 1,
            MessageType::MsgPropose => 2,
            MessageType::MsgAppend => 3,
            MessageType::MsgAppendResponse => 4,
            MessageType::MsgRequestVote => 5,
            MessageType::MsgRequestVoteResponse => 6,
            MessageType::MsgSnapshot => 7,
            MessageType::MsgHeartbeat => 8,
            MessageType::MsgHeartbeatResponse => 9,
            MessageType::MsgUnreachable => 10,
            MessageType::MsgSnapStatus => 11,
            MessageType::MsgCheckQuorum => 12,
            MessageType::MsgTransferLeader => 13,
            MessageType::MsgTimeoutNow => 14,
            MessageType::MsgReadIndex => 15,
            MessageType::MsgReadIndexResp => 16,
            MessageType::MsgRequestPreVote => 17,
            MessageType::MsgRequestPreVoteResponse => 18,
        }
    }

    /// The kind of message that a number stands for.
    pub fn from_number(n: i32) -> (r: Option<MessageType>)
        ensures
            match r {
                Some(t) => n == type_number(t),
                None => n < 0 || n > 18,
            },
    {
        match n {
            0 => Some(MessageType::MsgHup),
            1 => Some(MessageType::MsgBeat),
            2 => Some(MessageType::MsgPropose),
            3 => Some(MessageType::MsgAppend),
            4 => Some(MessageType::MsgAppendResponse),
            5 => Some(MessageType::MsgRequestVote),
            6 => Some(MessageType::MsgRequestVoteResponse),
            7 => Some(MessageType::MsgSnapshot),
            8 => Some(MessageType::MsgHeartbeat),
            9 => Some(MessageType::MsgHeartbeatResponse),
            10 => Some(MessageType::MsgUnreachable),
            11 => Some(MessageType::MsgSnapStatus),
            12 => Some(MessageType::MsgCheckQuorum),
            13 => Some(MessageType::MsgTransferLeader),
            14 => Some(MessageType::MsgTimeoutNow),
            15 => Some(MessageType::MsgReadIndex),
            16 => Some(MessageType::MsgReadIndexResp),
            17 => Some(MessageType::MsgRequestPreVote),
            18 => Some(MessageType::MsgRequestPreVoteResponse),
            _ => None,
        }
    }
}

/// A message between replicas.
#[derive(Debug, PartialEq, Eq)]
pub struct RaftMessage {
    pub msg_type: MessageType,
    pub to: u64,
    pub from: u64,
    pub term: u64,
    pub log_term: u64,
    pub index: u64,
    pub entries: Vec<Entry>,
    pub commit: u64,
    pub commit_term: u64,
    pub snapshot: Option<Snapshot>,
    pub request_snapshot: u64,
    pub reject: bool,
    pub reject_hint: u64,
    pub context: Vec<u8>,
    pub deprecated_priority: u64,
    pub priority: i64,
}

/// What a message holds.
#[verifier::ext_equal]
pub struct MessageView {
    pub msg_type: i32,
    pub to: u64,
    pub from: u64,
    pub term: u64,
    pub log_term: u64,
    pub index: u64,
    pub entries: Seq<EntryView>,
    pub commit: u64,
    pub commit_term: u64,
    pub snapshot: Option<SnapshotView>,
    pub request_snapshot: u64,
    pub reject: bool,
    pub reject_hint: u64,
    pub context: Seq<u8>,
    pub deprecated_priority: u64,
    pub priority: i64,
}

pub open spec fn entries_view(entries: Seq<Entry>) -> Seq<EntryView> {
    Seq::new(entries.len(), |i: int| entries[i]@)
}

impl View for RaftMessage {
    type V = MessageView;

    open spec fn view(&self) -> MessageView {
        MessageView {
            msg_type: type_number(self.msg_type),
            to: self.to,
            from: self.from,
            term: self.term,
            log_term: self.log_term,
            index: self.index,
            entries: entries_view(self.entries@),
            commit: self.commit,
            commit_term: self.commit_term,
            snapshot: match self.snapshot {
                Some(s) => Some(s@),
                None => None,
            },
            request_snapshot: self.request_snapshot,
            reject: self.reject,
            reject_hint: self.reject_hint,
            context: self.context@,
            deprecated_priority: self.deprecated_priority,
            priority: self.priority,
        }
    }
}

/// The message whose fields are all empty.
pub open spec fn zero_message() -> MessageView {
    MessageView {
        msg_type: 0,
        to: 0,
        from: 0,
        term: 0,
        log_term: 0,
        index: 0,
        entries: Seq::empty(),
        commit: 0,
        commit_term: 0,
        snapshot: None,
        request_snapshot: 0,
        reject: false,
        reject_hint: 0,
        context: Seq::empty(),
        deprecated_priority: 0,
        priority: 0,
    }
}

impl Default for RaftMessage {
    fn default() -> (m: RaftMessage)
        ensures
            m@ == zero_message(),
    {
        let m: RaftMessage = RaftMessage {
            msg_type: MessageType::MsgHup,
            to: 0,
            from: 0,
            term: 0,
            log_term: 0,
            index: 0,
            entries: Vec::new(),
            commit: 0,
            commit_term: 0,
            snapshot: None,
            request_snapshot: 0,
            reject: false,
            reject_hint: 0,
            context: Vec::new(),
            deprecated_priority: 0,
            priority: 0,
        };
        assert(m@ =~= zero_message());
        m
    }
}

/// The bytes that entries take at most.
pub open spec fn entries_weight(entries: Seq<EntryView>) -> int
    decreases entries.len(),
{
    if entries.len() == 0 {
        0
    } else {
        entries_weight(entries.drop_last()) + entries.last().data.len() + entries.last().context.len()
            + 64
    }
}

/// The bytes that a snapshot takes at most.
pub open spec fn snapshot_weight(s: SnapshotView) -> nat {
    s.data.len() + members_weight(s.metadata.conf_state)
}

/// The bytes that a message takes at most.
pub open spec fn message_weight(m: MessageView) -> int {
    entries_weight(m.entries) + m.context.len() + (match m.snapshot {
        Some(s) => snapshot_weight(s),
        None => 0nat,
    }) + 512
}

/// The size of a message fits into 32 bits.
pub open spec fn message_fits(m: MessageView) -> bool {
    message_weight(m) <= 0xffff_ffff
}

impl Snapshot {
    fn weight(&self) -> (r: u128)
        ensures
            r == snapshot_weight(self@),
            r <= 0x100_0000_0000_0000_0000,
    {
        self.data.len() as u128 + self.metadata.conf_state.weight()
    }
}

impl RaftMessage {
    /// Whether the message is short enough to be written.
    pub fn fits(&self) -> (r: bool)
        ensures
            r == message_fits(self@),
    {
        let ghost v = self@;
        let mut total: u128 = 512 + self.context.len() as u128;
        match &self.snapshot {
            Some(s) => {
                total = total + s.weight();
            },
            None => {},
        }
        let ghost base = total;
        let mut i: usize = 0;
        assert(v.entries.take(0) =~= Seq::<EntryView>::empty());
        while i < self.entries.len()
            invariant
                v == self@,
                0 <= i <= self.entries.len(),
                total == base + entries_weight(v.entries.take(i as int)),
                message_weight(v) == base + entries_weight(v.entries),
                total <= 0xffff_ffff || i == 0,
                base <= 0x200_0000_0000_0000_0000,
            decreases self.entries.len() - i,
        {
            let e: &Entry = &self.entries[i];
            let ghost before = v.entries.take(i as int);
            assert(v.entries[i as int] == e@);
            total = total + e.data.len() as u128 + e.context.len() as u128 + 64;
            assert(v.entries.take(i + 1).drop_last() =~= before);
            if total > 0xffff_ffff {
                proof {
                    lemma_entries_weight_grows(v.entries, i + 1);
                }
                return false;
            }
            i = i + 1;
        }
        assert(v.entries.take(self.entries@.len() as int) =~= v.entries);
        total <= 0xffff_ffff
    }
}

proof fn lemma_entries_weight_grows(entries: Seq<EntryView>, n: int)
    requires
        0 <= n <= entries.len(),
    ensures
        entries_weight(entries.take(n)) <= entries_weight(entries),
    decreases entries.len() - n,
{
    if n < entries.len() {
        assert(entries.take(n + 1).drop_last() =~= entries.take(n));
        lemma_entries_weight_grows(entries, n + 1);
    } else {
        assert(entries.take(n) =~= entries);
    }
}

proof fn lemma_entries_weight(entries: Seq<EntryView>)
    ensures
        entries_weight(entries) == entries.map_values(|e: EntryView| e.data).flatten().len()
            + entries.map_values(|e: EntryView| e.context).flatten().len() + 64 * entries.len(),
    decreases entries.len(),
{
    let (data, context) = (
        entries.map_values(|e: EntryView| e.data),
        entries.map_values(|e: EntryView| e.context),
    );
    data.lemma_flatten_and_flatten_alt_are_equivalent();
    context.lemma_flatten_and_flatten_alt_are_equivalent();
    if entries.len() > 0 {
        let front = entries.drop_last();
        let (d, c) = (
            front.map_values(|e: EntryView| e.data),
            front.map_values(|e: EntryView| e.context),
        );
        lemma_entries_weight(front);
        d.lemma_flatten_and_flatten_alt_are_equivalent();
        c.lemma_flatten_and_flatten_alt_are_equivalent();
        assert(data.drop_last() =~= d);
        assert(context.drop_last() =~= c);
    }
}

/// A message can be written whenever what it carries stays within four gibibytes: the data
/// and the context of its entries with 64 bytes for each entry, its own context, the data of
/// its snapshot with eleven bytes for each member, and half a kibibyte.
pub proof fn law_which_messages_fit(m: MessageView)
    ensures
        message_fits(m) <==> m.entries.map_values(|e: EntryView| e.data).flatten().len()
            + m.entries.map_values(|e: EntryView| e.context).flatten().len() + 64 * m.entries.len()
            + m.context.len() + (match m.snapshot {
            Some(s) => s.data.len() + 11 * (s.metadata.conf_state.voters.len()
                + s.metadata.conf_state.learners.len()
                + s.metadata.conf_state.voters_outgoing.len()
                + s.metadata.conf_state.learners_next.len()),
            None => 0nat,
        }) + 512 < 0x1_0000_0000,
{
    lemma_entries_weight(m.entries);
}

/// An entry can be written whenever its data and its context stay 64 kibibytes below four
/// gibibytes, and a conf state whenever eleven bytes for each member do.
pub proof fn law_which_entries_fit(e: EntryView, c: ConfStateView)
    ensures
        entry_fits(e) <==> (e.data + e.context).len() <= 0xffff_0000,
        conf_state_fits(c) <==> 11 * (c.voters + c.learners + c.voters_outgoing
            + c.learners_next).len() <= 0xffff_0000,
{
}

/// The zeroth entry is a normal one that asks for nothing, and the empty message is addressed
/// to nobody and carries nothing.
pub proof fn law_empty_forms()
    ensures
        zero_entry().entry_type == EntryType::Normal,
        zero_entry().index == 0 && zero_entry().term == 0,
        zero_entry().data.len() == 0 && zero_entry().context.len() == 0,
        zero_message().to == 0 && zero_message().from == 0,
        zero_message().msg_type == type_number(MessageType::MsgHup),
        zero_message().entries.len() == 0 && zero_message().snapshot is None,
        zero_message().context.len() == 0,
{
}

/// The kinds of messages are numbered in order, from 0 on, and no two alike.
pub proof fn law_message_numbers(a: MessageType, b: MessageType)
    ensures
        type_number(a) == type_number(b) ==> a == b,
        0 <= type_number(a) <= 18,
        type_number(MessageType::MsgHup) < type_number(MessageType::MsgBeat),
        type_number(MessageType::MsgBeat) < type_number(MessageType::MsgPropose),
        type_number(MessageType::MsgPropose) < type_number(MessageType::MsgAppend),
        type_number(MessageType::MsgAppend) < type_number(MessageType::MsgAppendResponse),
        type_number(MessageType::MsgAppendResponse) < type_number(MessageType::MsgRequestVote),
        type_number(MessageType::MsgRequestVote) < type_number(MessageType::MsgRequestVoteResponse),
        type_number(MessageType::MsgRequestVoteResponse) < type_number(MessageType::MsgSnapshot),
        type_number(MessageType::MsgSnapshot) < type_number(MessageType::MsgHeartbeat),
        type_number(MessageType::MsgHeartbeat) < type_number(MessageType::MsgHeartbeatResponse),
        type_number(MessageType::MsgHeartbeatResponse) < type_number(MessageType::MsgUnreachable),
        type_number(MessageType::MsgUnreachable) < type_number(MessageType::MsgSnapStatus),
        type_number(MessageType::MsgSnapStatus) < type_number(MessageType::MsgCheckQuorum),
        type_number(MessageType::MsgCheckQuorum) < type_number(MessageType::MsgTransferLeader),
        type_number(MessageType::MsgTransferLeader) < type_number(MessageType::MsgTimeoutNow),
        type_number(MessageType::MsgTimeoutNow) < type_number(MessageType::MsgReadIndex),
        type_number(MessageType::MsgReadIndex) < type_number(MessageType::MsgReadIndexResp),
        type_number(MessageType::MsgReadIndexResp) < type_number(MessageType::MsgRequestPreVote),
        type_number(MessageType::MsgRequestPreVote) < type_number(
            MessageType::MsgRequestPreVoteResponse,
        ),
{
}

/// What a protobuf message holds: the values of its fields. A snapshot that it
/// has not counts as none, and a part of a snapshot that it has not as one whose
/// fields are all empty.
pub uninterp spec fn message_view(m: raft::eraftpb::Message) -> MessageView;

/// Whether a protobuf message is made of nothing but its fields: it carries no
/// field that its definition does not name, and where it has a snapshot it has
/// every part of it.
pub uninterp spec fn message_is_plain(m: raft::eraftpb::Message) -> bool;

/// What `write_to_bytes` makes of a message.
pub uninterp spec fn message_written(m: MessageView) -> Seq<u8>;

/// What `merge_from_bytes` makes of the bytes of a message, if it succeeds.
pub uninterp spec fn message_parsed(b: Seq<u8>) -> Option<MessageView>;

/// Sets the fields of a new `raft::eraftpb::Message` to those of a message, but
/// for the entries and the snapshot, which stay empty. The kind of the message
/// comes from `from_i32` of `raft::eraftpb::MessageType`, which knows the numbers
/// from 0 to 18.
#[verifier::external_body]
fn begin_message(m: &RaftMessage, number: i32) -> (r: eraftpb::Message)
    requires
        number == m@.msg_type,
    ensures
        message_is_plain(r),
        message_view(r) == (MessageView { entries: Seq::empty(), snapshot: None, ..m@ }),
{
    let mut r = eraftpb::Message::default();
    r.msg_type = eraftpb::MessageType::from_i32(number).unwrap();
    (r.to, r.from) = (m.to, m.from);
    (r.term, r.log_term) = (m.term, m.log_term);
    (r.index, r.commit, r.commit_term) = (m.index, m.commit, m.commit_term);
    (r.reject, r.reject_hint) = (m.reject, m.reject_hint);
    r.request_snapshot = m.request_snapshot;
    r.deprecated_priority = m.deprecated_priority;
    r.priority = m.priority;
    r.context = m.context.clone().into();
    r
}

/// Calls `push` on the entries of a `raft::eraftpb::Message`: the entry stands
/// after those that are there.
#[verifier::external_body]
fn push_message_entry(m: &mut eraftpb::Message, e: &Entry)
    ensures
        message_is_plain(*old(m)) ==> message_is_plain(*final(m)),
        message_view(*final(m)) == (MessageView {
            entries: message_view(*old(m)).entries.push(e@),
            ..message_view(*old(m))
        }),
{
    let mut p = eraftpb::Entry::default();
    p.entry_type = match e.entry_type {
        EntryType::Normal => eraftpb::EntryType::EntryNormal,
        EntryType::ConfChange => eraftpb::EntryType::EntryConfChange,
        EntryType::ConfChangeV2 => eraftpb::EntryType::EntryConfChangeV2,
    };
    (p.term, p.index) = (e.term, e.index);
    p.data = e.data.clone().into();
    p.context = e.context.clone().into();
    p.sync_log = e.sync_log;
    m.entries.push(p);
}

/// Calls `set_snapshot` of `raft::eraftpb::Message`: the message has that snapshot,
/// with every part of it.
#[verifier::external_body]
fn set_message_snapshot(m: &mut eraftpb::Message, s: &Snapshot)
    ensures
        message_is_plain(*old(m)) ==> message_is_plain(*final(m)),
        message_view(*final(m)) == (MessageView {
            snapshot: Some(s@),
            ..message_view(*old(m))
        }),
{
    let mut p = eraftpb::Snapshot::default();
    p.data = s.data.clone().into();
    p.mut_metadata().index = s.metadata.index;
    p.mut_metadata().term = s.metadata.term;
    let c = p.mut_metadata().mut_conf_state();
    c.voters = s.metadata.conf_state.voters.clone();
    c.learners = s.metadata.conf_state.learners.clone();
    c.voters_outgoing = s.metadata.conf_state.voters_outgoing.clone();
    c.learners_next = s.metadata.conf_state.learners_next.clone();
    c.auto_leave = s.metadata.conf_state.auto_leave;
    m.set_snapshot(p);
}

/// Calls `write_to_bytes` of `raft::eraftpb::Message`: the protobuf bytes of a
/// message that is made of nothing but its fields, which parse as the same
/// message.
#[verifier::external_body]
fn message_bytes(m: &eraftpb::Message) -> (r: Result<Vec<u8>, ProtobufError>)
    requires
        message_is_plain(*m),
        message_fits(message_view(*m)),
    ensures
        r is Ok,
        r matches Ok(b) ==> b@ == message_written(message_view(*m)) && message_parsed(b@) == Some(
            message_view(*m),
        ),
{
    m.write_to_bytes()
}

/// Calls `merge_from_bytes` of `raft::eraftpb::Message` on an empty message: the
/// message that the bytes hold, or an error.
#[verifier::external_body]
fn message_of_bytes(b: &[u8]) -> (r: Result<eraftpb::Message, ProtobufError>)
    ensures
        r is Ok <==> message_parsed(b@) is Some,
        r matches Ok(m) ==> message_parsed(b@) == Some(message_view(m)),
{
    let mut m = eraftpb::Message::default();
    m.merge_from_bytes(b)?;
    Ok(m)
}

/// Calls `value` of the kind of a `raft::eraftpb::Message`: the number that stands
/// for it, which is one of the 19 that the definition names.
#[verifier::external_body]
fn message_number(m: &eraftpb::Message) -> (n: i32)
    ensures
        n == message_view(*m).msg_type,
        0 <= n <= 18,
{
    m.msg_type.value()
}

/// Reads the fields of a `raft::eraftpb::Message`, but for its kind, which is
/// given, and for the entries and the snapshot, which are left empty.
#[verifier::external_body]
fn message_fields(m: &eraftpb::Message, msg_type: MessageType) -> (r: RaftMessage)
    requires
        type_number(msg_type) == message_view(*m).msg_type,
    ensures
        r@ == (MessageView { entries: Seq::empty(), snapshot: None, ..message_view(*m) }),
{
    let mut r = RaftMessage { msg_type, to: m.to, from: m.from, ..RaftMessage::default() };
    (r.term, r.log_term) = (m.term, m.log_term);
    (r.index, r.commit, r.commit_term) = (m.index, m.commit, m.commit_term);
    (r.reject, r.reject_hint) = (m.reject, m.reject_hint);
    r.request_snapshot = m.request_snapshot;
    r.deprecated_priority = m.deprecated_priority;
    r.priority = m.priority;
    r.context = m.context.to_vec();
    r
}

/// Calls `len` on the entries of a `raft::eraftpb::Message`: how many there are.
#[verifier::external_body]
fn message_entry_count(m: &eraftpb::Message) -> (n: usize)
    ensures
        n == message_view(*m).entries.len(),
{
    m.entries.len()
}

/// Reads an entry of a `raft::eraftpb::Message`.
#[verifier::external_body]
fn message_entry(m: &eraftpb::Message, i: usize) -> (e: Entry)
    requires
        i < message_view(*m).entries.len(),
    ensures
        e@ == message_view(*m).entries[i as int],
{
    let p = &m.entries[i];
    let entry_type = match p.entry_type {
        eraftpb::EntryType::EntryNormal => EntryType::Normal,
        eraftpb::EntryType::EntryConfChange => EntryType::ConfChange,
        eraftpb::EntryType::EntryConfChangeV2 => EntryType::ConfChangeV2,
    };
    let (data, context) = (p.data.to_vec(), p.context.to_vec());
    Entry { entry_type, term: p.term, index: p.index, data, context, sync_log: p.sync_log }
}

/// Calls `has_snapshot` of `raft::eraftpb::Message`: whether it has a snapshot.
#[verifier::external_body]
fn message_has_snapshot(m: &eraftpb::Message) -> (r: bool)
    ensures
        r == message_view(*m).snapshot is Some,
{
    m.has_snapshot()
}

/// Calls `get_snapshot` of `raft::eraftpb::Message`: the snapshot that it has.
#[verifier::external_body]
fn message_snapshot(m: &eraftpb::Message) -> (s: Snapshot)
    requires
        message_view(*m).snapshot is Some,
    ensures
        message_view(*m).snapshot == Some(s@),
{
    let (p, c) = (m.get_snapshot(), m.get_snapshot().get_metadata().get_conf_state());
    let conf_state = ConfState {
        voters: c.voters.clone(),
        learners: c.learners.clone(),
        voters_outgoing: c.voters_outgoing.clone(),
        learners_next: c.learners_next.clone(),
        auto_leave: c.auto_leave,
    };
    let (index, term) = (p.get_metadata().index, p.get_metadata().term);
    Snapshot { data: p.data.to_vec(), metadata: SnapshotMetadata { conf_state, index, term } }
}

/// The protobuf bytes of a message.
pub(crate) fn write_message(m: &RaftMessage) -> (r: Result<Vec<u8>, ProtobufError>)
    requires
        message_fits(m@),
    ensures
        r matches Ok(b) && b@ == message_written(m@) && message_parsed(b@) == Some(m@),
{
    let ghost v = m@;
    let mut p: eraftpb::Message = begin_message(m, m.msg_type.number());
    let mut i: usize = 0;
    assert(v.entries.take(0) =~= Seq::<EntryView>::empty());
    while i < m.entries.len()
        invariant
            v == m@,
            0 <= i <= m.entries.len(),
            message_is_plain(p),
            message_view(p) == (MessageView {
                entries: v.entries.take(i as int),
                snapshot: None,
                ..v
            }),
        decreases m.entries.len() - i,
    {
        let e: &Entry = &m.entries[i];
        assert(v.entries[i as int] == e@);
        assert(v.entries.take(i + 1) =~= v.entries.take(i as int).push(e@));
        push_message_entry(&mut p, e);
        i = i + 1;
    }
    assert(v.entries.take(m.entries@.len() as int) =~= v.entries);
    match &m.snapshot {
        Some(s) => set_message_snapshot(&mut p, s),
        None => {},
    }
    assert(message_view(p) =~= v);
    message_bytes(&p)
}

/// The message that protobuf bytes hold, or an error.
pub(crate) fn parse_message(b: &[u8]) -> (r: Result<RaftMessage, ProtobufError>)
    ensures
        match r {
            Ok(m) => message_parsed(b@) == Some(m@),
            Err(_) => message_parsed(b@) is None,
        },
{
    let p: eraftpb::Message = match message_of_bytes(b) {
        Err(e) => {
            return Err(e);
        },
        Ok(p) => p,
    };
    let ghost v = message_view(p);
    let msg_type: MessageType = match MessageType::from_number(message_number(&p)) {
        Some(t) => t,
        None => MessageType::MsgHup,
    };
    let mut m: RaftMessage = message_fields(&p, msg_type);
    let n: usize = message_entry_count(&p);
    let mut entries: Vec<Entry> = Vec::new();
    while entries.len() < n
        invariant
            v == message_view(p),
            n == v.entries.len(),
            entries@.len() <= n,
            entries_view(entries@) =~= v.entries.take(entries@.len() as int),
        decreases n - entries.len(),
    {
        let e: Entry = message_entry(&p, entries.len());
        entries.push(e);
    }
    assert(v.entries.take(n as int) =~= v.entries);
    m.entries = entries;
    if message_has_snapshot(&p) {
        m.snapshot = Some(message_snapshot(&p));
    }
    assert(m@ =~= v);
    Ok(m)
}

} // verus!
