//! The loop around the Raft node: what is proposed, what is applied, and who is
//! answered.
//!
//! A proposer waits until its command is applied. The command is encoded and handed to
//! the node, and the proposer is noted under the log index that the command will have.
//! When the entry of that index is committed it is applied, and the proposer gets the
//! result. Whatever the node has ready is made durable before a message leaves the
//! replica.

#[allow(unused_imports)]
use crate::applier::Applied;
use crate::applier::Applier;
#[allow(unused_imports)]
use crate::bulk::MAX_BULK;
#[allow(unused_imports)]
use crate::command;
use crate::command::{MetaCommand, MetaCommandCodecError};
#[allow(unused_imports)]
use crate::command::{Decoded, META_COMMAND_VERSION};
use crate::error::CubeError;
#[allow(unused_imports)]
use crate::flex;
#[allow(unused_imports)]
use crate::flex::Flex;
#[allow(unused_imports)]
use crate::proto;
#[allow(unused_imports)]
use crate::proto::EntryView;
use crate::proto::{Entry, EntryType};
#[allow(unused_imports)]
use crate::raft_meta_store;
use crate::raft_meta_store::{RaftMetaStore, LEADER_MARKER};
use crate::result::MetaCommandResult;
#[allow(unused_imports)]
use crate::text;
use crate::text::push_decimal;
use std::collections::HashMap;
use vstd::prelude::*;

verus! {

/// What applies a committed command to the state of a replica.
///
/// Replicas that apply the same commands in the same order must come to the same
/// state, so an implementation may depend on nothing but the commands.
pub trait Apply {
    fn apply(&self, cmd: MetaCommand) -> Result<MetaCommandResult, CubeError>;
}

// ---------------------------------------------------------------------------
// Settings
// ---------------------------------------------------------------------------

/// Milliseconds between two ticks of the node.
pub const TICK_MILLIS: u64 = 50;

/// The settings that a node starts with.
#[derive(Debug, Clone, Copy, PartialEq, Eq, Structural)]
pub struct NodeConfig {
    pub id: u64,
    pub election_tick: usize,
    pub heartbeat_tick: usize,
    pub applied: u64,
    pub max_size_per_msg: u64,
    pub max_inflight_msgs: usize,
    pub check_quorum: bool,
    pub pre_vote: bool,
}

/// The settings of a node that has applied the log up to `applied`.
pub open spec fn settings(node_id: u64, applied: u64) -> NodeConfig {
    NodeConfig {
        id: node_id,
        election_tick: 10,
        heartbeat_tick: 3,
        applied,
        max_size_per_msg: 1_048_576,
        max_inflight_msgs: 256,
        check_quorum: false,
        pre_vote: false,
    }
}

/// A node has its own id and goes on where it stopped; all other settings are the same for
/// every node. A leader is heard of several times before an election starts, which takes half
/// a second without one.
pub proof fn law_settings(node_id: u64, applied: u64)
    ensures
        ({
            let c = settings(node_id, applied);
            &&& c.id == node_id
            &&& c.applied == applied
            &&& 0 < c.heartbeat_tick
            &&& 3 * c.heartbeat_tick < c.election_tick
            &&& c.election_tick * TICK_MILLIS == 500
            &&& c.max_size_per_msg == 1024 * 1024
            &&& c.max_inflight_msgs == 256
            &&& !c.check_quorum
            &&& !c.pre_vote
        }),
{
}

/// The settings of a node that has applied the log up to `applied`.
pub fn node_config(node_id: u64, applied: u64) -> (c: NodeConfig)
    ensures
        c == settings(node_id, applied),
{
    NodeConfig {
        id: node_id,
        election_tick: 10,
        heartbeat_tick: 3,
        applied,
        max_size_per_msg: 1_048_576,
        max_inflight_msgs: 256,
        check_quorum: false,
        pre_vote: false,
    }
}

// ---------------------------------------------------------------------------
// The loop
// ---------------------------------------------------------------------------

/// What happens to a node.
#[derive(Debug, Clone, Copy, PartialEq, Eq, Structural)]
pub enum NodeEvent {
    /// It was started as the only member of its group.
    StartedAlone,
    /// It was started in a group with others.
    StartedInGroup,
    /// The clock ticked.
    Ticked,
    /// A message of another node came in.
    Received,
    /// The node took a proposal.
    ProposalTaken,
    /// A proposal was refused and its proposer answered.
    ProposalRefused,
    /// Nobody can propose any more.
    Closed,
}

/// What to do with a node.
#[derive(Debug, Clone, Copy, PartialEq, Eq, Structural)]
pub enum NodeAction {
    /// Start an election.
    Campaign,
    /// Let the time of the node go on.
    Tick,
    /// Hand the message to the node.
    Step,
    /// Work off what the node has ready.
    DriveReady,
    /// End the loop.
    Stop,
}

/// What to do about an event, in order. A node alone starts an election at once, so
/// that no proposal has to wait for the election timer; in a group that would disturb
/// the others.
pub open spec fn actions_on(event: NodeEvent) -> Seq<NodeAction> {
    match event {
        NodeEvent::StartedAlone => seq![NodeAction::Campaign, NodeAction::DriveReady],
        NodeEvent::StartedInGroup => seq![NodeAction::DriveReady],
        NodeEvent::Ticked => seq![NodeAction::Tick, NodeAction::DriveReady],
        NodeEvent::Received => seq![NodeAction::Step, NodeAction::DriveReady],
        NodeEvent::ProposalTaken => seq![NodeAction::DriveReady],
        NodeEvent::ProposalRefused => seq![],
        NodeEvent::Closed => seq![NodeAction::Stop],
    }
}

/// Says what to do about an event, in order.
pub fn node_actions(event: NodeEvent) -> (actions: Vec<NodeAction>)
    ensures
        actions@ == actions_on(event),
{
    let mut actions: Vec<NodeAction> = Vec::new();
    match event {
        NodeEvent::StartedAlone => {
            actions.push(NodeAction::Campaign);
            actions.push(NodeAction::DriveReady);
        },
        NodeEvent::StartedInGroup | NodeEvent::ProposalTaken => {
            actions.push(NodeAction::DriveReady);
        },
        NodeEvent::Ticked => {
            actions.push(NodeAction::Tick);
            actions.push(NodeAction::DriveReady);
        },
        NodeEvent::Received => {
            actions.push(NodeAction::Step);
            actions.push(NodeAction::DriveReady);
        },
        NodeEvent::ProposalRefused => {},
        NodeEvent::Closed => {
            actions.push(NodeAction::Stop);
        },
    }
    assert(actions@ =~= actions_on(event));
    actions
}

/// Whatever happens to a node, what that made ready is worked off afterwards, unless nothing
/// happened to it or it is about to stop. Only a node that starts alone campaigns, only a
/// tick lets its time go on, only a message is handed to it, and only when nobody can
/// propose any more does it stop. Nothing is done twice.
pub proof fn law_what_follows_an_event(event: NodeEvent)
    ensures
        ({
            let actions = actions_on(event);
            &&& actions.no_duplicates()
            &&& actions.contains(NodeAction::Campaign) <==> event is StartedAlone
            &&& actions.contains(NodeAction::Tick) <==> event is Ticked
            &&& actions.contains(NodeAction::Step) <==> event is Received
            &&& actions.contains(NodeAction::Stop) <==> event is Closed
            &&& actions.contains(NodeAction::DriveReady) <==> !(event is ProposalRefused
                || event is Closed)
            &&& forall|i: int|
                0 <= i < actions.len() && #[trigger] actions[i] is DriveReady ==> i
                    == actions.len() - 1
        }),
{
    let actions = actions_on(event);
    if actions.len() > 0 {
        assert(actions.contains(actions[0]));
        assert(actions.contains(actions[actions.len() - 1]));
    }
}

/// A step of working off what a node has ready.
#[derive(Debug, Clone, Copy, PartialEq, Eq, Structural)]
pub enum ReadyStep {
    /// Store the snapshot that another node sent. A failure is fatal: what is not
    /// durable must never be acknowledged.
    SaveSnapshot,
    /// Append the new entries to the log. A failure is fatal.
    AppendEntries,
    /// Store the hard state. A failure is fatal.
    SaveHardState,
    /// Send the messages that need not wait for the disk.
    SendMessages,
    /// Send the messages that had to wait for the disk.
    SendPersistedMessages,
    /// Apply the committed entries.
    ApplyCommitted,
    /// Store the highest index of the entries just applied, if there were any.
    SaveApplied,
    /// Tell the node that it is done, and take what that made ready.
    Advance,
    /// Apply the entries that this committed.
    ApplyLight,
    /// Tell the node that they are applied.
    AdvanceApply,
    /// Send the messages that came with them.
    SendLightMessages,
}

/// What a node has ready for the disk.
#[derive(Debug, Clone, Copy, PartialEq, Eq, Structural)]
pub struct ReadyParts {
    pub snapshot: bool,
    pub entries: bool,
    pub hard_state: bool,
}

/// The steps for what a node has ready, in order; `None` stands for nothing at all.
pub open spec fn steps_for(parts: Option<ReadyParts>) -> Seq<ReadyStep> {
    match parts {
        None => seq![],
        Some(parts) => (if parts.snapshot {
            seq![ReadyStep::SaveSnapshot]
        } else {
            seq![]
        }) + (if parts.entries {
            seq![ReadyStep::AppendEntries]
        } else {
            seq![]
        }) + (if parts.hard_state {
            seq![ReadyStep::SaveHardState]
        } else {
            seq![]
        }) + seq![
            ReadyStep::SendMessages,
            ReadyStep::SendPersistedMessages,
            ReadyStep::ApplyCommitted,
            ReadyStep::SaveApplied,
            ReadyStep::Advance,
            ReadyStep::ApplyLight,
            ReadyStep::SaveApplied,
            ReadyStep::AdvanceApply,
            ReadyStep::SendLightMessages,
        ],
    }
}

/// Says how to work off what a node has ready.
pub fn ready_steps(parts: Option<ReadyParts>) -> (steps: Vec<ReadyStep>)
    ensures
        steps@ == steps_for(parts),
{
    let mut steps: Vec<ReadyStep> = Vec::new();
    if let Some(parts) = parts {
        if parts.snapshot {
            steps.push(ReadyStep::SaveSnapshot);
        }
        if parts.entries {
            steps.push(ReadyStep::AppendEntries);
        }
        if parts.hard_state {
            steps.push(ReadyStep::SaveHardState);
        }
        steps.push(ReadyStep::SendMessages);
        steps.push(ReadyStep::SendPersistedMessages);
        steps.push(ReadyStep::ApplyCommitted);
        steps.push(ReadyStep::SaveApplied);
        steps.push(ReadyStep::Advance);
        steps.push(ReadyStep::ApplyLight);
        steps.push(ReadyStep::SaveApplied);
        steps.push(ReadyStep::AdvanceApply);
        steps.push(ReadyStep::SendLightMessages);
    }
    assert(steps@ =~= steps_for(parts));
    steps
}

/// Whether a step that failed stops the node: what is not durable must never be
/// acknowledged. An applied index that was not stored is only found out again at the next
/// start, and the other steps do not fail.
pub open spec fn is_fatal(s: ReadyStep) -> bool {
    s is SaveSnapshot || s is AppendEntries || s is SaveHardState
}

/// What to do after a step.
#[derive(Debug, Clone, Copy, PartialEq, Eq, Structural)]
pub enum AfterStep {
    /// Take the next step.
    GoOn,
    /// Stop the node at once: take no further step, apply and answer nothing.
    Stop,
}

/// Says what to do after a step that succeeded or failed.
pub fn after_step(step: ReadyStep, succeeded: bool) -> (a: AfterStep)
    ensures
        a == (if !succeeded && is_fatal(step) {
            AfterStep::Stop
        } else {
            AfterStep::GoOn
        }),
        a is Stop <==> !succeeded && (step is SaveSnapshot || step is AppendEntries
            || step is SaveHardState),
{
    if succeeded {
        return AfterStep::GoOn;
    }
    match step {
        ReadyStep::SaveSnapshot | ReadyStep::AppendEntries | ReadyStep::SaveHardState =>
            AfterStep::Stop,
        _ => AfterStep::GoOn,
    }
}

/// The steps that are taken, where `fails` says of each whether it fails: all of them, up to
/// the first that stops the node.
pub open spec fn steps_taken(steps: Seq<ReadyStep>, fails: Seq<bool>) -> Seq<ReadyStep>
    decreases steps.len(),
{
    if steps.len() == 0 {
        seq![]
    } else {
        let before = steps_taken(steps.drop_last(), fails);
        if before.len() < steps.len() - 1 || (before.len() > 0 && fails[before.len() - 1]
            && is_fatal(before.last())) {
            before
        } else {
            steps
        }
    }
}

pub open spec fn writes_disk(s: ReadyStep) -> bool {
    s is SaveSnapshot || s is AppendEntries || s is SaveHardState
}

/// A snapshot, entries and hard state are durable before any message leaves the replica
/// and before anything is applied, and none of them is left out.
pub proof fn law_durable_first(parts: ReadyParts, i: int, j: int)
    ensures
        ({
            let steps = steps_for(Some(parts));
            &&& 0 <= i < steps.len() && 0 <= j < steps.len() && writes_disk(steps[i]) && !writes_disk(
                steps[j],
            ) ==> i < j
            &&& parts.snapshot <==> steps.contains(ReadyStep::SaveSnapshot)
            &&& parts.entries <==> steps.contains(ReadyStep::AppendEntries)
            &&& parts.hard_state <==> steps.contains(ReadyStep::SaveHardState)
            &&& steps.contains(ReadyStep::SendMessages)
            &&& steps.contains(ReadyStep::SendPersistedMessages)
            &&& steps.contains(ReadyStep::SendLightMessages)
        }),
{
    let steps = steps_for(Some(parts));
    let a: int = if parts.snapshot { 1 } else { 0 };
    let b: int = a + if parts.entries { 1int } else { 0 };
    let n: int = b + if parts.hard_state { 1int } else { 0 };
    if parts.snapshot {
        assert(steps[0] is SaveSnapshot);
    }
    if parts.entries {
        assert(steps[a] is AppendEntries);
    }
    if parts.hard_state {
        assert(steps[b] is SaveHardState);
    }
    assert(steps[n] is SendMessages);
    assert(steps[n + 1] is SendPersistedMessages);
    assert(steps[n + 8] is SendLightMessages);
}

/// A step stands at one place and nowhere else.
pub open spec fn only_at(steps: Seq<ReadyStep>, step: ReadyStep, at: int) -> bool {
    &&& 0 <= at < steps.len()
    &&& steps[at] == step
    &&& forall|i: int| 0 <= i < steps.len() && #[trigger] steps[i] == step ==> i == at
}

/// A step stands at two places and nowhere else.
pub open spec fn only_at_two(steps: Seq<ReadyStep>, step: ReadyStep, a: int, b: int) -> bool {
    &&& 0 <= a < b < steps.len()
    &&& steps[a] == step
    &&& steps[b] == step
    &&& forall|i: int| 0 <= i < steps.len() && #[trigger] steps[i] == step ==> i == a || i == b
}

/// Whatever a node has ready for the disk, its messages are sent once and its committed
/// entries are applied once, before the applied index is stored and the node goes on; the
/// entries that this commits are applied once too, before the index is stored again and the
/// node is told, and the messages that came with them leave last.
pub proof fn law_committed_entries_are_applied(parts: ReadyParts)
    ensures
        ({
            let steps = steps_for(Some(parts));
            exists|
                send: int,
                persisted: int,
                apply: int,
                first: int,
                advance: int,
                light: int,
                second: int,
                told: int,
            |
                {
                    &&& #[trigger] only_at(steps, ReadyStep::SendMessages, send)
                    &&& #[trigger] only_at(steps, ReadyStep::SendPersistedMessages, persisted)
                    &&& #[trigger] only_at(steps, ReadyStep::ApplyCommitted, apply)
                    &&& #[trigger] only_at(steps, ReadyStep::Advance, advance)
                    &&& #[trigger] only_at(steps, ReadyStep::ApplyLight, light)
                    &&& #[trigger] only_at(steps, ReadyStep::AdvanceApply, told)
                    &&& #[trigger] only_at_two(steps, ReadyStep::SaveApplied, first, second)
                    &&& only_at(steps, ReadyStep::SendLightMessages, steps.len() - 1)
                    &&& send < persisted < apply < first < advance < light < second < told
                }
        }),
{
    let steps = steps_for(Some(parts));
    let n: int = steps.len() - 9;
    assert(only_at(steps, ReadyStep::SendMessages, n));
    assert(only_at(steps, ReadyStep::SendPersistedMessages, n + 1));
    assert(only_at(steps, ReadyStep::ApplyCommitted, n + 2));
    assert(only_at_two(steps, ReadyStep::SaveApplied, n + 3, n + 6));
    assert(only_at(steps, ReadyStep::Advance, n + 4));
    assert(only_at(steps, ReadyStep::ApplyLight, n + 5));
    assert(only_at(steps, ReadyStep::AdvanceApply, n + 7));
    assert(only_at(steps, ReadyStep::SendLightMessages, n + 8));
}

/// A snapshot is stored before entries, and entries before the hard state, each once; a node
/// that has nothing ready is left alone.
pub proof fn law_order_of_the_disk(parts: ReadyParts, i: int, j: int)
    requires
        0 <= i < steps_for(Some(parts)).len(),
        0 <= j < steps_for(Some(parts)).len(),
    ensures
        ({
            let steps = steps_for(Some(parts));
            &&& steps[i] is SaveSnapshot && steps[j] is AppendEntries ==> i < j
            &&& steps[i] is SaveSnapshot && steps[j] is SaveHardState ==> i < j
            &&& steps[i] is AppendEntries && steps[j] is SaveHardState ==> i < j
            &&& steps[i] == steps[j] && i != j ==> steps[i] is SaveApplied
            &&& steps_for(None).len() == 0
        }),
{
}

proof fn lemma_steps_taken(steps: Seq<ReadyStep>, fails: Seq<bool>, i: int)
    requires
        0 <= i < steps.len(),
        fails[i],
        is_fatal(steps[i]),
    ensures
        steps_taken(steps, fails).is_prefix_of(steps),
        steps_taken(steps, fails).len() <= i + 1,
    decreases steps.len(),
{
    lemma_taken_prefix(steps, fails);
    let front = steps.drop_last();
    lemma_taken_prefix(front, fails);
    if i < front.len() {
        lemma_steps_taken(front, fails, i);
        if i == front.len() - 1 {
            let before = steps_taken(front, fails);
            if before.len() == front.len() {
                assert(before[i] == front[i]);
            }
        }
    }
}

proof fn lemma_taken_prefix(steps: Seq<ReadyStep>, fails: Seq<bool>)
    ensures
        steps_taken(steps, fails).is_prefix_of(steps),
    decreases steps.len(),
{
    if steps.len() > 0 {
        let front = steps.drop_last();
        lemma_taken_prefix(front, fails);
        let before = steps_taken(front, fails);
        assert(before =~= steps.take(before.len() as int));
    }
}

/// Where a snapshot, entries or hard state could not be made durable, the node stops before
/// any message leaves it, anything is applied or any proposer is answered.
pub proof fn law_failure_stops_the_node(parts: ReadyParts, fails: Seq<bool>, i: int)
    requires
        0 <= i < steps_for(Some(parts)).len(),
        fails[i],
        is_fatal(steps_for(Some(parts))[i]),
    ensures
        ({
            let taken = steps_taken(steps_for(Some(parts)), fails);
            &&& taken.is_prefix_of(steps_for(Some(parts)))
            &&& forall|j: int| 0 <= j < taken.len() ==> writes_disk(#[trigger] taken[j])
        }),
{
    let steps = steps_for(Some(parts));
    let taken = steps_taken(steps, fails);
    lemma_steps_taken(steps, fails, i);
    assert forall|j: int| 0 <= j < taken.len() implies writes_disk(#[trigger] taken[j]) by {
        assert(taken[j] == steps[j]);
        law_durable_first(parts, i, j);
    }
}

proof fn lemma_all_taken(steps: Seq<ReadyStep>, fails: Seq<bool>)
    requires
        forall|i: int|
            0 <= i < steps.len() && fails[i] ==> !is_fatal(#[trigger] steps[i]),
    ensures
        steps_taken(steps, fails) == steps,
    decreases steps.len(),
{
    if steps.len() > 0 {
        let front = steps.drop_last();
        assert forall|i: int| 0 <= i < front.len() && fails[i] implies !is_fatal(
            #[trigger] front[i],
        ) by {
            assert(front[i] == steps[i]);
        }
        lemma_all_taken(front, fails);
        if front.len() > 0 {
            assert(front.last() == steps[front.len() - 1]);
        }
    }
}

/// A snapshot, entries or a hard state that could not be stored is never acknowledged: no
/// message leaves the replica, nothing is applied, and the node is not told to go on. A
/// failure of any other step holds nothing up.
pub proof fn law_only_the_disk_stops_a_node(parts: ReadyParts, fails: Seq<bool>)
    ensures
        ({
            let steps = steps_for(Some(parts));
            let taken = steps_taken(steps, fails);
            &&& (exists|i: int|
                0 <= i < steps.len() && fails[i] && (#[trigger] steps[i] is SaveSnapshot
                    || steps[i] is AppendEntries || steps[i] is SaveHardState)) ==> forall|j: int|
                0 <= j < taken.len() ==> #[trigger] taken[j] is SaveSnapshot || taken[j] is AppendEntries
                    || taken[j] is SaveHardState
            &&& (forall|i: int|
                0 <= i < steps.len() && (#[trigger] steps[i] is SaveSnapshot
                    || steps[i] is AppendEntries || steps[i] is SaveHardState) ==> !fails[i])
                ==> taken == steps
        }),
{
    let steps = steps_for(Some(parts));
    if exists|i: int|
        0 <= i < steps.len() && fails[i] && (#[trigger] steps[i] is SaveSnapshot
            || steps[i] is AppendEntries || steps[i] is SaveHardState) {
        let i = choose|i: int|
            0 <= i < steps.len() && fails[i] && (#[trigger] steps[i] is SaveSnapshot
                || steps[i] is AppendEntries || steps[i] is SaveHardState);
        law_failure_stops_the_node(parts, fails, i);
    } else {
        lemma_all_taken(steps, fails);
    }
}

// ---------------------------------------------------------------------------
// Proposals
// ---------------------------------------------------------------------------

pub const NOT_RUNNING: &'static str = "raft task is not running";

pub const REPLY_DROPPED: &'static str = "raft task dropped the response channel";

/// What a proposer is answered whose command the node refused: the reason, and where a
/// leader is known, the hint at it.
pub open spec fn refusal_text(group: RaftMetaStore, reason: Seq<char>) -> Seq<char> {
    "raft propose failed: "@ + reason + match raft_meta_store::known_leader(group) {
        None => seq![],
        Some(id) => "; "@ + LEADER_MARKER@ + text::decimal(id as nat),
    }
}

/// Says why the node refused a command.
pub fn refusal(group: &RaftMetaStore, reason: &str) -> (e: CubeError)
    ensures
        e.message@ == refusal_text(*group, reason@),
{
    let mut s: String = "raft propose failed: ".to_owned();
    s.push_str(reason);
    let ghost start = s@;
    match group.ha_leader_id() {
        None => {
            assert(start + seq![] =~= start);
        },
        Some(id) => {
            s.push_str("; ");
            s.push_str(LEADER_MARKER);
            push_decimal(&mut s, id as u128);
            assert(s@ =~= start + ("; "@ + LEADER_MARKER@ + text::decimal(id as nat)));
        },
    }
    CubeError::internal(s)
}

/// Encodes a proposed command. A normal entry with the bytes is applied as the command
/// again, whatever its index and term. Only a command that is too large is refused.
pub fn on_proposal(command: &MetaCommand) -> (r: Result<Vec<u8>, CubeError>)
    ensures
        match r {
            Ok(bytes) => {
                &&& command::encoded(META_COMMAND_VERSION, *command, Ok(bytes))
                &&& forall|e: EntryView|
                    e.data == bytes@ && e.entry_type == EntryType::Normal ==> #[trigger] work_of(e)
                        == Work::Apply(command.value())
            },
            Err(e) => command.bulk() >= MAX_BULK && e.message@
                == "MetaCommand encode failed: MetaCommand serialize: the command is too large"@,
        },
{
    match command.encode() {
        Ok(bytes) => Ok(bytes),
        Err(e) => {
            let mut s: String = "MetaCommand encode failed: ".to_owned();
            s.push_str(e.message().as_str());
            proof {
                reveal_strlit("MetaCommand encode failed: ");
                reveal_strlit("MetaCommand serialize: the command is too large");
                reveal_strlit(
                    "MetaCommand encode failed: MetaCommand serialize: the command is too large",
                );
                assert(s@
                    =~= "MetaCommand encode failed: MetaCommand serialize: the command is too large"@);
            }
            Err(CubeError::internal(s))
        },
    }
}

/// The marker spans no place at which another character stands than one of its own.
proof fn lemma_no_marker_over(msg: Seq<char>, i: int, at: int)
    requires
        i <= at < i + 15,
        0 <= i,
        msg[at] == ' ' || msg[at] == ';',
    ensures
        !raft_meta_store::marker_at(msg, i),
{
    reveal_strlit("raft-leader-id=");
    if raft_meta_store::marker_at(msg, i) {
        assert(msg.subrange(i, i + 15)[at - i] == LEADER_MARKER@[at - i]);
    }
}

/// A proposer whose command the node refused is told the leader, exactly where the
/// replica knows one. (The reason that the node gives must not look like a hint itself.)
pub proof fn law_refusal_hints_at_the_leader(group: RaftMetaStore, reason: Seq<char>)
    requires
        raft_meta_store::marker_from(reason, 0) is None,
    ensures
        raft_meta_store::leader_hint(refusal_text(group, reason)) == raft_meta_store::known_leader(
            group,
        ),
{
    let msg = refusal_text(group, reason);
    let start = "raft propose failed: "@;
    let end: int = (start.len() + reason.len()) as int;
    reveal_strlit("raft propose failed: ");
    reveal_strlit("; ");
    reveal_strlit("raft-leader-id=");
    raft_meta_store::lemma_no_marker(reason, 0);
    assert forall|i: int| 0 <= i < end implies !#[trigger] raft_meta_store::marker_at(msg, i) by {
        if i <= 4 {
            lemma_no_marker_over(msg, i, 4);
        } else if i <= 12 {
            lemma_no_marker_over(msg, i, 12);
        } else if i <= 20 {
            lemma_no_marker_over(msg, i, 20);
        } else if i + 15 <= end {
            assert(msg.subrange(i, i + 15) =~= reason.subrange(i - 21, i - 21 + 15));
            assert(!raft_meta_store::marker_at(reason, i - 21));
        } else if msg.len() > end {
            lemma_no_marker_over(msg, i, end);
        }
    }
    match raft_meta_store::known_leader(group) {
        None => {
            assert(msg =~= start + reason);
            raft_meta_store::lemma_no_marker(msg, 0);
        },
        Some(id) => {
            let before = start + reason + "; "@;
            let digits = text::decimal(id as nat);
            assert(msg =~= before + LEADER_MARKER@ + digits + seq![]);
            lemma_no_marker_over(msg, end, end);
            lemma_no_marker_over(msg, end + 1, end + 1);
            raft_meta_store::law_leader_hint(before, id, seq![]);
        },
    }
}

/// A proposer whose command the node refused is told the reason that the node gave.
pub proof fn law_refusal_gives_the_reason(group: RaftMetaStore, reason: Seq<char>)
    ensures
        ("raft propose failed: "@ + reason).is_prefix_of(refusal_text(group, reason)),
{
    let start = "raft propose failed: "@ + reason;
    assert(refusal_text(group, reason).take(start.len() as int) =~= start);
}

/// The proposers that wait, each under the index of its entry.
pub struct Pending<R> {
    replies: HashMap<u64, R>,
}

impl<R> View for Pending<R> {
    type V = Map<u64, R>;

    closed spec fn view(&self) -> Map<u64, R> {
        self.replies@
    }
}

/// Who waits once the node took the command of a proposer, when the log ended at
/// `last_index`.
pub open spec fn noted<R>(pending: Map<u64, R>, last_index: u64, reply: R) -> Map<u64, R> {
    pending.insert((last_index + 1) as u64, reply)
}

/// A proposer whose command the node took waits for the entry behind the end of the log, and
/// everybody else waits on.
pub proof fn law_taken_proposal_waits<R>(
    pending: Map<u64, R>,
    last_index: u64,
    reply: R,
    index: u64,
)
    requires
        last_index < u64::MAX,
    ensures
        ({
            let waiting = noted(pending, last_index, reply);
            &&& index == last_index + 1 ==> waiting.dom().contains(index) && waiting[index] == reply
            &&& index != last_index + 1 ==> (waiting.dom().contains(index)
                <==> pending.dom().contains(index))
            &&& index != last_index + 1 && pending.dom().contains(index) ==> waiting[index]
                == pending[index]
        }),
{
}

impl<R> Pending<R> {
    /// Nobody waits.
    pub fn new() -> (p: Pending<R>)
        ensures
            p@ == Map::<u64, R>::empty(),
    {
        broadcast use vstd::std_specs::hash::group_hash_axioms;

        Pending { replies: HashMap::new() }
    }

    /// Notes a proposer whose command the node took, under the index behind the end of
    /// the log as it was before; hands a proposer back, with the error to answer, whose
    /// command the node refused.
    pub fn proposed(
        &mut self,
        last_index: u64,
        group: &RaftMetaStore,
        outcome: Result<(), String>,
        reply: R,
    ) -> (r: Option<(R, CubeError)>)
        requires
            last_index < u64::MAX,
        ensures
            match outcome {
                Ok(_) => r is None && final(self)@ == noted(old(self)@, last_index, reply),
                Err(reason) => final(self)@ == old(self)@ && match r {
                    Some((back, e)) => back == reply && e.message@ == refusal_text(*group, reason@),
                    None => false,
                },
            },
    {
        broadcast use vstd::std_specs::hash::group_hash_axioms;

        match outcome {
            Ok(_) => {
                self.replies.insert(last_index + 1, reply);
                None
            },
            Err(reason) => Some((reply, refusal(group, reason.as_str()))),
        }
    }

    /// Takes the proposer that waits for an index, if one does.
    pub fn resolve(&mut self, index: u64) -> (r: Option<R>)
        ensures
            final(self)@ == old(self)@.remove(index),
            match r {
                Some(reply) => old(self)@.dom().contains(index) && reply == old(self)@[index],
                None => !old(self)@.dom().contains(index),
            },
    {
        broadcast use vstd::std_specs::hash::group_hash_axioms;

        let r: Option<R> = self.replies.remove(&index);
        assert(self@ =~= old(self)@.remove(index));
        r
    }
}

/// Whether a proposer is told this: `sent` says whether the proposal reached the loop, `reply`
/// what came back.
pub open spec fn told(
    sent: bool,
    reply: Option<Result<MetaCommandResult, CubeError>>,
    r: Result<MetaCommandResult, CubeError>,
) -> bool {
    match (sent, reply) {
        (false, _) => r matches Err(e) && e.message@ == NOT_RUNNING@,
        (true, None) => r matches Err(e) && e.message@ == REPLY_DROPPED@,
        (true, Some(result)) => r == result,
    }
}

/// A proposer gets exactly what came back from the loop, and an error where its proposal did
/// not reach the loop or nothing came back.
pub proof fn law_proposers_get_what_came_back(
    sent: bool,
    reply: Option<Result<MetaCommandResult, CubeError>>,
    r: Result<MetaCommandResult, CubeError>,
)
    requires
        told(sent, reply, r),
    ensures
        sent && reply is Some ==> reply == Some(r),
        !sent || reply is None ==> r is Err,
        r is Ok ==> sent && reply == Some(r),
{
}

/// What a proposer is told: the result of its command, or that the loop is gone.
/// `sent` says whether the proposal reached the loop, `reply` what came back.
pub fn propose_outcome(sent: bool, reply: Option<Result<MetaCommandResult, CubeError>>) -> (r: Result<
    MetaCommandResult,
    CubeError,
>)
    ensures
        told(sent, reply, r),
{
    if !sent {
        return Err(CubeError::internal(NOT_RUNNING.to_owned()));
    }
    match reply {
        None => Err(CubeError::internal(REPLY_DROPPED.to_owned())),
        Some(result) => result,
    }
}

// ---------------------------------------------------------------------------
// Committed entries
// ---------------------------------------------------------------------------

/// What a committed entry asks for: nothing, to apply a command, or to answer that the
/// entry was not understood.
pub enum Work {
    Skip,
    Apply(Flex),
    Fail,
}

/// What a committed entry asks for. The entry of an election is empty, and a change of
/// the members is not a command: both are passed over.
pub open spec fn work_of(e: EntryView) -> Work {
    if e.data.len() == 0 || e.entry_type != EntryType::Normal {
        Work::Skip
    } else {
        match command::decoded(e.data) {
            Decoded::Command(v) => Work::Apply(v),
            _ => Work::Fail,
        }
    }
}

/// How the decoder speaks of bytes that hold no command.
pub open spec fn fault_text(d: Decoded) -> Seq<char> {
    match d {
        Decoded::Empty => "MetaCommand decode: empty payload"@,
        Decoded::NoRoot(fault) => "MetaCommand reader: "@ + flex::fault_text(fault),
        Decoded::NotAnEnvelope => "MetaCommand deserialize: the document is no command envelope"@,
        Decoded::OtherVersion(version) => command::version_text(version, META_COMMAND_VERSION),
        Decoded::Command(_) => ""@,
    }
}

/// The message about an entry that was not understood.
pub open spec fn entry_message(e: EntryView) -> Seq<char> {
    "decode at index "@ + text::decimal(e.index as nat) + ": "@ + fault_text(
        command::decoded(e.data),
    )
}

/// What to do about a committed entry.
#[derive(Debug)]
pub enum EntryAction {
    /// Nothing.
    Skip,
    /// Apply the command and answer the proposer with the result.
    Apply(MetaCommand),
    /// Answer the proposer with the error.
    Fail(CubeError),
}

pub open spec fn action_fits(e: EntryView, a: EntryAction) -> bool {
    match (work_of(e), a) {
        (Work::Skip, EntryAction::Skip) => true,
        (Work::Apply(v), EntryAction::Apply(cmd)) => cmd.value() == v,
        (Work::Fail, EntryAction::Fail(error)) => error.message@ == entry_message(e),
        _ => false,
    }
}

/// Says what to do about a committed entry.
pub fn entry_action(e: &Entry) -> (a: EntryAction)
    ensures
        action_fits(e@, a),
{
    if e.data.len() == 0 {
        return EntryAction::Skip;
    }
    match e.entry_type {
        EntryType::Normal => match MetaCommand::decode(e.data.as_slice()) {
            Ok(cmd) => EntryAction::Apply(cmd),
            Err(error) => EntryAction::Fail(decode_error(e, &error)),
        },
        EntryType::ConfChange | EntryType::ConfChangeV2 => EntryAction::Skip,
    }
}

/// An entry of a command is never passed over: a normal entry with data is applied, or its
/// proposer is told that it was not understood. The empty entry of an election and a change
/// of the members are never taken for a command.
pub proof fn law_no_command_is_passed_over(e: EntryView, a: EntryAction)
    requires
        action_fits(e, a),
    ensures
        a is Skip <==> e.data.len() == 0 || e.entry_type != EntryType::Normal,
        a matches EntryAction::Apply(cmd) ==> command::decoded(e.data) == Decoded::Command(
            cmd.value(),
        ),
        a matches EntryAction::Fail(error) ==> !(command::decoded(e.data) is Command)
            && error.message@ == entry_message(e),
{
}

fn decode_error(e: &Entry, error: &MetaCommandCodecError) -> (r: CubeError)
    requires
        command::decodes_as(e@.data, Err(*error)),
    ensures
        r.message@ == entry_message(e@),
{
    let mut s: String = "decode at index ".to_owned();
    push_decimal(&mut s, e.index as u128);
    s.push_str(": ");
    let m: String = error.message();
    s.push_str(m.as_str());
    assert(fault_text(command::decoded(e@.data)) == command::codec_text(*error));
    CubeError::internal(s)
}

/// The highest index of committed entries, which stand in the order of their indices.
pub fn highest_index(entries: &[Entry]) -> (r: Option<u64>)
    ensures
        r == (if entries@.len() == 0 {
            None
        } else {
            Some(entries@.last().index)
        }),
        r matches Some(index) ==> (forall|i: int, j: int|
            0 <= i < j < entries@.len() ==> (#[trigger] entries@[i]).index < (
            #[trigger] entries@[j]).index) ==> forall|i: int|
            0 <= i < entries@.len() ==> (#[trigger] entries@[i]).index <= index,
{
    if entries.len() == 0 {
        None
    } else {
        Some(entries[entries.len() - 1].index)
    }
}

/// Whether a position is the first, from another on, of an entry that asks for
/// something; `None` where there is no such entry.
pub open spec fn is_next(entries: Seq<EntryView>, from: int, at: Option<int>) -> bool {
    match at {
        Some(at) => {
            &&& from <= at < entries.len()
            &&& forall|i: int| from <= i < at ==> work_of(#[trigger] entries[i]) is Skip
            &&& !(work_of(entries[at]) is Skip)
        },
        None => forall|i: int|
            from <= i < entries.len() ==> work_of(#[trigger] entries[i]) is Skip,
    }
}

/// The first committed entry, from a position on, that asks for something, and what to
/// do about it.
pub fn next_work(entries: &[Entry], from: usize) -> (r: Option<(usize, EntryAction)>)
    requires
        from <= entries@.len(),
    ensures
        match r {
            Some((at, action)) => {
                &&& is_next(proto::entries_view(entries@), from as int, Some(at as int))
                &&& action_fits(entries@[at as int]@, action)
            },
            None => is_next(proto::entries_view(entries@), from as int, None),
        },
{
    let ghost all = proto::entries_view(entries@);
    let mut at: usize = from;
    while at < entries.len()
        invariant
            all == proto::entries_view(entries@),
            from <= at <= entries@.len(),
            forall|i: int| from <= i < at ==> work_of(#[trigger] all[i]) is Skip,
        decreases entries@.len() - at,
    {
        assert(all[at as int] == entries@[at as int]@);
        match entry_action(&entries[at]) {
            EntryAction::Skip => {},
            action => {
                return Some((at, action));
            },
        }
        at = at + 1;
    }
    None
}

/// What came of a committed entry, and who waited for it.
pub struct Answer<R> {
    pub reply: Option<R>,
    pub result: Result<MetaCommandResult, CubeError>,
}

/// Who still waits once committed entries are worked off.
pub open spec fn left_waiting<R>(entries: Seq<EntryView>, pending: Map<u64, R>) -> Map<u64, R>
    decreases entries.len(),
{
    if entries.len() == 0 {
        pending
    } else {
        let before = left_waiting(entries.drop_last(), pending);
        if work_of(entries.last()) is Skip {
            before
        } else {
            before.remove(entries.last().index)
        }
    }
}

/// Who waits for an index.
pub open spec fn waiting_for<R>(pending: Map<u64, R>, index: u64) -> Option<R> {
    if pending.dom().contains(index) {
        Some(pending[index])
    } else {
        None
    }
}

/// The committed entries that ask for something, in order, each with who waits for it.
pub open spec fn answered<R>(entries: Seq<EntryView>, pending: Map<u64, R>) -> Seq<
    (Option<R>, EntryView),
>
    decreases entries.len(),
{
    if entries.len() == 0 {
        seq![]
    } else {
        let e = entries.last();
        let before = answered(entries.drop_last(), pending);
        if work_of(e) is Skip {
            before
        } else {
            before.push(
                (waiting_for(left_waiting(entries.drop_last(), pending), e.index), e),
            )
        }
    }
}

/// Whether a result is what `apply` gave for a command of the given value.
pub open spec fn applying_gives<A: Apply>(
    apply: A,
    v: Flex,
    result: Result<MetaCommandResult, CubeError>,
) -> bool {
    exists|cmd: MetaCommand|
        #![trigger cmd.value()]
        cmd.value() == v && call_ensures(A::apply, (&apply, cmd), result)
}

/// Whether working off committed entries comes to this: `log` is what was applied, `answers`
/// what was said of each entry that asks for something, to whom. The command of an entry is
/// applied once, in its turn, and the answer is what that gave; of an entry that was not
/// understood, it is that.
pub open spec fn worked<R>(
    entries: Seq<EntryView>,
    pending: Map<u64, R>,
    log: Seq<Applied>,
    answers: Seq<Answer<R>>,
) -> bool
    decreases entries.len(),
{
    if entries.len() == 0 {
        log.len() == 0 && answers.len() == 0
    } else {
        let e = entries.last();
        let front = entries.drop_last();
        match work_of(e) {
            Work::Skip => worked(front, pending, log, answers),
            Work::Apply(v) => {
                &&& log.len() > 0 && answers.len() > 0
                &&& worked(front, pending, log.drop_last(), answers.drop_last())
                &&& log.last().command == v
                &&& answers.last().reply == waiting_for(left_waiting(front, pending), e.index)
                &&& answers.last().result == log.last().result
            },
            Work::Fail => {
                &&& answers.len() > 0
                &&& worked(front, pending, log, answers.drop_last())
                &&& answers.last().reply == waiting_for(left_waiting(front, pending), e.index)
                &&& answers.last().result matches Err(error) && error.message@ == entry_message(e)
            },
        }
    }
}

/// Whether every command of a log gave what `apply` gives.
pub open spec fn given_by<A: Apply>(apply: A, log: Seq<Applied>) -> bool {
    forall|k: int|
        0 <= k < log.len() ==> applying_gives(
            apply,
            (#[trigger] log[k]).command,
            log[k].result,
        )
}

proof fn lemma_skipped<R>(entries: Seq<EntryView>, pending: Map<u64, R>, from: int, to: int)
    requires
        0 <= from <= to <= entries.len(),
        forall|i: int| from <= i < to ==> work_of(#[trigger] entries[i]) is Skip,
    ensures
        left_waiting(entries.take(to), pending) == left_waiting(entries.take(from), pending),
        answered(entries.take(to), pending) == answered(entries.take(from), pending),
        forall|log: Seq<Applied>, answers: Seq<Answer<R>>| #[trigger]
            worked(entries.take(to), pending, log, answers) <==> worked(
                entries.take(from),
                pending,
                log,
                answers,
            ),
    decreases to - from,
{
    if from < to {
        lemma_skipped(entries, pending, from, to - 1);
        assert(entries.take(to).drop_last() =~= entries.take(to - 1));
        assert(work_of(entries[to - 1]) is Skip);
        assert(entries.take(to).last() == entries[to - 1]);
        assert forall|log: Seq<Applied>, answers: Seq<Answer<R>>| #[trigger]
            worked(entries.take(to), pending, log, answers) <==> worked(
                entries.take(from),
                pending,
                log,
                answers,
            ) by {
            assert(worked(entries.take(to), pending, log, answers) == worked(
                entries.take(to - 1),
                pending,
                log,
                answers,
            ));
        }
    }
}

/// Pairs what came of an entry with who waited for it.
pub fn answer<R>(
    pending: &mut Pending<R>,
    e: &Entry,
    result: Result<MetaCommandResult, CubeError>,
) -> (a: Answer<R>)
    ensures
        a.result == result,
        a.reply == waiting_for(old(pending)@, e.index),
        final(pending)@ == old(pending)@.remove(e.index),
{
    let reply: Option<R> = pending.resolve(e.index);
    Answer { reply, result }
}

/// Applies committed entries, one after the other, and says what came of each that asks
/// for something, and who is to be told.
///
/// Each command is applied once. What applying it gives is up to what it is applied to, and
/// is handed on as it is.
pub fn apply_committed<A: Apply, R>(
    entries: &[Entry],
    applier: &mut Applier<A>,
    pending: &mut Pending<R>,
) -> (r: (Option<u64>, Vec<Answer<R>>))
    ensures
        r.0 == (if entries@.len() == 0 {
            None
        } else {
            Some(entries@.last().index)
        }),
        final(pending)@ == left_waiting(proto::entries_view(entries@), old(pending)@),
        final(applier).target() == old(applier).target(),
        ({
            let n = old(applier).log().len() as int;
            let log = final(applier).log();
            &&& n <= log.len()
            &&& log.take(n) == old(applier).log()
            &&& worked(proto::entries_view(entries@), old(pending)@, log.skip(n), r.1@)
            &&& given_by(old(applier).target(), log.skip(n))
        }),
{
    let ghost all = proto::entries_view(entries@);
    let ghost before = pending@;
    let ghost earlier = applier.log();
    let ghost target = applier.target();
    let ghost mut log = Seq::<Applied>::empty();
    let mut answers: Vec<Answer<R>> = Vec::new();
    let mut done: usize = 0;
    assert(all.take(0) =~= seq![]);
    loop
        invariant
            all == proto::entries_view(entries@),
            all.len() == entries@.len(),
            done <= entries@.len(),
            pending@ == left_waiting(all.take(done as int), before),
            applier.target() == target,
            applier.log() =~= earlier + log,
            worked(all.take(done as int), before, log, answers@),
            given_by(target, log),
        ensures
            pending@ == left_waiting(all, before),
            worked(all, before, log, answers@),
        decreases entries@.len() - done,
    {
        match next_work(entries, done) {
            None => {
                proof {
                    lemma_skipped(all, before, done as int, all.len() as int);
                    assert(all.take(all.len() as int) =~= all);
                }
                break;
            },
            Some((at, action)) => {
                let ghost e = all[at as int];
                let ghost said = answers@;
                let ghost done_log = log;
                proof {
                    lemma_skipped(all, before, done as int, at as int);
                    assert(all.take(at + 1).drop_last() =~= all.take(at as int));
                    assert(worked(all.take(at as int), before, log, said));
                    assert(e == entries@[at as int]@);
                }
                let result: Result<MetaCommandResult, CubeError> = match action {
                    EntryAction::Apply(cmd) => {
                        let given: Result<MetaCommandResult, CubeError> = applier.apply(cmd);
                        proof {
                            log = log.push(Applied { command: cmd.value(), result: given });
                            assert(log.drop_last() =~= done_log);
                        }
                        given
                    },
                    EntryAction::Fail(error) => Err(error),
                    EntryAction::Skip => Ok(MetaCommandResult::Unit),
                };
                answers.push(answer(pending, &entries[at], result));
                assert(answers@.drop_last() =~= said);
                done = at + 1;
            },
        }
    }
    assert(applier.log().take(earlier.len() as int) =~= earlier);
    assert(applier.log().skip(earlier.len() as int) =~= log);
    (highest_index(entries), answers)
}

/// The commands that committed entries ask for, in order.
pub open spec fn asked(entries: Seq<EntryView>) -> Seq<Flex>
    decreases entries.len(),
{
    if entries.len() == 0 {
        seq![]
    } else {
        match work_of(entries.last()) {
            Work::Apply(v) => asked(entries.drop_last()).push(v),
            _ => asked(entries.drop_last()),
        }
    }
}

/// What is applied is what the entries ask for: each command once, in the order of the log,
/// and no other.
pub proof fn law_applied_once<R>(
    entries: Seq<EntryView>,
    pending: Map<u64, R>,
    log: Seq<Applied>,
    answers: Seq<Answer<R>>,
)
    requires
        worked(entries, pending, log, answers),
    ensures
        log.len() == asked(entries).len(),
        forall|k: int| 0 <= k < log.len() ==> (#[trigger] log[k]).command == asked(entries)[k],
    decreases entries.len(),
{
    if entries.len() > 0 {
        let front = entries.drop_last();
        match work_of(entries.last()) {
            Work::Apply(v) => {
                law_applied_once(front, pending, log.drop_last(), answers.drop_last());
                assert forall|k: int| 0 <= k < log.len() implies (#[trigger] log[k]).command
                    == asked(entries)[k] by {
                    if k < log.len() - 1 {
                        assert(log.drop_last()[k] == log[k]);
                    }
                }
            },
            Work::Fail => law_applied_once(front, pending, log, answers.drop_last()),
            Work::Skip => law_applied_once(front, pending, log, answers),
        }
    }
}

/// Who waits for an entry that was worked off waits no longer, whoever waits for another
/// index waits on, and nobody new does.
pub proof fn law_who_still_waits<R>(entries: Seq<EntryView>, pending: Map<u64, R>, index: u64)
    ensures
        ({
            let left = left_waiting(entries, pending);
            let done = exists|i: int|
                0 <= i < entries.len() && (#[trigger] entries[i]).index == index
                    && entries[i].data.len() > 0 && entries[i].entry_type == EntryType::Normal;
            &&& left.dom().contains(index) <==> pending.dom().contains(index) && !done
            &&& left.dom().contains(index) ==> left[index] == pending[index]
        }),
    decreases entries.len(),
{
    if entries.len() > 0 {
        let front = entries.drop_last();
        let e = entries.last();
        law_who_still_waits(front, pending, index);
        assert(entries[entries.len() - 1] == e);
        assert forall|i: int| 0 <= i < front.len() implies front[i] == #[trigger] entries[i] by {}
        if exists|i: int|
            0 <= i < front.len() && (#[trigger] front[i]).index == index && front[i].data.len() > 0
                && front[i].entry_type == EntryType::Normal {
            let i = choose|i: int|
                0 <= i < front.len() && (#[trigger] front[i]).index == index
                    && front[i].data.len() > 0 && front[i].entry_type == EntryType::Normal;
            assert(entries[i].index == index);
        } else if exists|i: int|
            0 <= i < entries.len() && (#[trigger] entries[i]).index == index
                && entries[i].data.len() > 0 && entries[i].entry_type == EntryType::Normal {
            let i = choose|i: int|
                0 <= i < entries.len() && (#[trigger] entries[i]).index == index
                    && entries[i].data.len() > 0 && entries[i].entry_type == EntryType::Normal;
            if i < front.len() {
                assert(front[i].index == index);
            }
        }
    }
}

/// The proposer of an entry that was not understood is told so, and every other proposer gets
/// what applying the command of its entry gave.
pub proof fn law_what_proposers_are_told<R>(
    entries: Seq<EntryView>,
    pending: Map<u64, R>,
    log: Seq<Applied>,
    answers: Seq<Answer<R>>,
)
    requires
        worked(entries, pending, log, answers),
    ensures
        answers.len() == answered(entries, pending).len(),
        forall|i: int|
            0 <= i < answers.len() ==> {
                let e = (#[trigger] answered(entries, pending)[i]).1;
                &&& command::decoded(e.data) is Command ==> exists|k: int|
                    0 <= k < log.len() && answers[i].result == (#[trigger] log[k]).result
                        && command::decoded(e.data) == Decoded::Command(log[k].command)
                &&& !(command::decoded(e.data) is Command) ==> (answers[i].result matches Err(error)
                    && error.message@ == entry_message(e))
            },
    decreases entries.len(),
{
    law_answers_in_order(entries, pending, log, answers);
    if entries.len() > 0 {
        let front = entries.drop_last();
        let last = entries.last();
        let told = answered(entries, pending);
        match work_of(last) {
            Work::Skip => law_what_proposers_are_told(front, pending, log, answers),
            Work::Apply(_) => {
                let (l, a) = (log.drop_last(), answers.drop_last());
                law_what_proposers_are_told(front, pending, l, a);
                assert forall|i: int| 0 <= i < answers.len() implies {
                    let e = (#[trigger] told[i]).1;
                    &&& command::decoded(e.data) is Command ==> exists|k: int|
                        0 <= k < log.len() && answers[i].result == (#[trigger] log[k]).result
                            && command::decoded(e.data) == Decoded::Command(log[k].command)
                    &&& !(command::decoded(e.data) is Command) ==> (answers[i].result matches Err(
                        error,
                    ) && error.message@ == entry_message(e))
                } by {
                    let e = told[i].1;
                    if i < a.len() {
                        assert(answered(front, pending)[i] == told[i]);
                        assert(a[i] == answers[i]);
                        if command::decoded(e.data) is Command {
                            let k = choose|k: int|
                                0 <= k < l.len() && a[i].result == (#[trigger] l[k]).result
                                    && command::decoded(e.data) == Decoded::Command(l[k].command);
                            assert(log[k] == l[k]);
                        }
                    } else {
                        assert(log[log.len() - 1] == log.last());
                    }
                }
            },
            Work::Fail => {
                let a = answers.drop_last();
                law_what_proposers_are_told(front, pending, log, a);
                assert forall|i: int| 0 <= i < answers.len() implies {
                    let e = (#[trigger] told[i]).1;
                    &&& command::decoded(e.data) is Command ==> exists|k: int|
                        0 <= k < log.len() && answers[i].result == (#[trigger] log[k]).result
                            && command::decoded(e.data) == Decoded::Command(log[k].command)
                    &&& !(command::decoded(e.data) is Command) ==> (answers[i].result matches Err(
                        error,
                    ) && error.message@ == entry_message(e))
                } by {
                    if i < a.len() {
                        assert(answered(front, pending)[i] == told[i]);
                        assert(a[i] == answers[i]);
                    }
                }
            },
        }
    }
}

/// The positions of the entries that ask for something, from one on, in order.
pub open spec fn positions(entries: Seq<EntryView>, from: int) -> Seq<int>
    decreases entries.len() - from,
{
    if from >= entries.len() {
        seq![]
    } else if work_of(entries[from]) is Skip {
        positions(entries, from + 1)
    } else {
        seq![from] + positions(entries, from + 1)
    }
}

/// Committed entries are worked off in the order of the log, each that asks for something
/// once and no other: going from each position to the next one behind it visits them all.
pub proof fn law_work_in_order(entries: Seq<EntryView>, from: int, at: Option<int>)
    requires
        0 <= from <= entries.len(),
        is_next(entries, from, at),
    ensures
        positions(entries, from) == (match at {
            Some(at) => seq![at] + positions(entries, at + 1),
            None => seq![],
        }),
        forall|i: int, j: int|
            0 <= i < j < positions(entries, from).len() ==> #[trigger] positions(entries, from)[i]
                < #[trigger] positions(entries, from)[j],
        forall|k: int|
            from <= k < entries.len() ==> (#[trigger] positions(entries, from).contains(k) <==> !(
            work_of(entries[k]) is Skip)),
    decreases entries.len() - from,
{
    lemma_positions(entries, from);
    if from < entries.len() && work_of(entries[from]) is Skip {
        assert(at matches Some(p) ==> from < p);
        law_work_in_order(entries, from + 1, at);
    }
}

proof fn lemma_positions(entries: Seq<EntryView>, from: int)
    requires
        0 <= from <= entries.len(),
    ensures
        forall|i: int|
            0 <= i < positions(entries, from).len() ==> from <= #[trigger] positions(
                entries,
                from,
            )[i] < entries.len(),
        forall|i: int, j: int|
            0 <= i < j < positions(entries, from).len() ==> #[trigger] positions(entries, from)[i]
                < #[trigger] positions(entries, from)[j],
        forall|k: int|
            from <= k < entries.len() ==> (#[trigger] positions(entries, from).contains(k) <==> !(
            work_of(entries[k]) is Skip)),
    decreases entries.len() - from,
{
    if from < entries.len() {
        lemma_positions(entries, from + 1);
        let rest = positions(entries, from + 1);
        let all = positions(entries, from);
        if !(work_of(entries[from]) is Skip) {
            assert forall|k: int| from <= k < entries.len() implies (#[trigger] all.contains(k)
                <==> !(work_of(entries[k]) is Skip)) by {
                if k == from {
                    assert(all[0] == from);
                } else if rest.contains(k) {
                    let i = choose|i: int| 0 <= i < rest.len() && rest[i] == k;
                    assert(all[i + 1] == k);
                } else if all.contains(k) {
                    let i = choose|i: int| 0 <= i < all.len() && all[i] == k;
                    assert(rest[i - 1] == k);
                }
            }
        } else {
            assert forall|k: int| from <= k < entries.len() implies (#[trigger] all.contains(k)
                <==> !(work_of(entries[k]) is Skip)) by {
                if all.contains(from) {
                    let i = choose|i: int| 0 <= i < rest.len() && rest[i] == from;
                    assert(rest[i] >= from + 1);
                }
            }
        }
    }
}

/// A proposer whose command the node took waits for the entry behind the end of the log,
/// and is answered when that entry is worked off, also if others are worked off with it.
pub proof fn law_proposer_is_answered<R>(
    pending: Map<u64, R>,
    last_index: u64,
    reply: R,
    entries: Seq<EntryView>,
    at: int,
)
    requires
        last_index < u64::MAX,
        0 <= at < entries.len(),
        entries[at].index == last_index + 1,
        !(work_of(entries[at]) is Skip),
        forall|i: int|
            0 <= i < entries.len() && i != at ==> (#[trigger] entries[i]).index != last_index + 1,
    ensures
        answered(entries, pending.insert((last_index + 1) as u64, reply)).contains(
            (Some(reply), entries[at]),
        ),
        !left_waiting(entries, pending.insert((last_index + 1) as u64, reply)).dom().contains(
            (last_index + 1) as u64,
        ),
    decreases entries.len(),
{
    let index = (last_index + 1) as u64;
    let p = pending.insert(index, reply);
    let front = entries.drop_last();
    if at == entries.len() - 1 {
        lemma_still_waiting(front, p, index);
        let before = answered(front, p);
        let after = answered(entries, p);
        assert(after == before.push((Some(reply), entries[at])));
        assert(after[before.len() as int] == (Some(reply), entries[at]));
    } else {
        assert forall|i: int| 0 <= i < front.len() && i != at implies (#[trigger] front[i]).index
            != last_index + 1 by {
            assert(front[i] == entries[i]);
        }
        law_proposer_is_answered(pending, last_index, reply, front, at);
        let before = answered(front, p);
        let i = choose|i: int| 0 <= i < before.len() && before[i] == (Some(reply), entries[at]);
        assert(before.contains((Some(reply), entries[at])));
        assert(answered(entries, p)[i] == (Some(reply), entries[at]));
    }
}

proof fn lemma_answered_all<R>(entries: Seq<EntryView>, pending: Map<u64, R>)
    requires
        forall|k: int|
            0 <= k < entries.len() ==> !(work_of(#[trigger] entries[k]) is Skip),
        forall|k: int, l: int|
            0 <= k < l < entries.len() ==> (#[trigger] entries[k]).index != (#[trigger] entries[l])
                .index,
    ensures
        answered(entries, pending).len() == entries.len(),
        forall|k: int|
            0 <= k < entries.len() ==> #[trigger] answered(entries, pending)[k] == (
                waiting_for(pending, entries[k].index),
                entries[k],
            ),
    decreases entries.len(),
{
    if entries.len() > 0 {
        let front = entries.drop_last();
        let e = entries.last();
        assert forall|k: int| 0 <= k < front.len() implies !(work_of(#[trigger] front[k]) is Skip) by {
            assert(front[k] == entries[k]);
        }
        assert forall|k: int, l: int| 0 <= k < l < front.len() implies (#[trigger] front[k]).index
            != (#[trigger] front[l]).index by {
            assert(front[k] == entries[k] && front[l] == entries[l]);
        }
        lemma_answered_all(front, pending);
        assert forall|k: int| 0 <= k < front.len() implies (#[trigger] front[k]).index != e.index by {
            assert(front[k] == entries[k]);
            assert(entries[entries.len() - 1] == e);
        }
        lemma_waits_as_before(front, pending, e.index);
        assert(!(work_of(entries[entries.len() - 1]) is Skip));
        let all = answered(entries, pending);
        let before = answered(front, pending);
        assert forall|k: int| 0 <= k < entries.len() implies #[trigger] all[k] == (
            waiting_for(pending, entries[k].index),
            entries[k],
        ) by {
            if k < front.len() {
                assert(all[k] == before[k]);
                assert(front[k] == entries[k]);
            }
        }
    }
}

proof fn lemma_waits_as_before<R>(entries: Seq<EntryView>, pending: Map<u64, R>, index: u64)
    requires
        forall|i: int| 0 <= i < entries.len() ==> (#[trigger] entries[i]).index != index,
    ensures
        waiting_for(left_waiting(entries, pending), index) == waiting_for(pending, index),
    decreases entries.len(),
{
    if entries.len() > 0 {
        let front = entries.drop_last();
        assert forall|i: int| 0 <= i < front.len() implies (#[trigger] front[i]).index != index by {
            assert(front[i] == entries[i]);
        }
        lemma_waits_as_before(front, pending, index);
        assert(entries[entries.len() - 1].index != index);
    }
}

/// Whoever waits for an entry that asks for something is told what came of it, in the order
/// of the log, and nobody else is told anything.
pub proof fn law_answers_in_order<R>(
    entries: Seq<EntryView>,
    pending: Map<u64, R>,
    log: Seq<Applied>,
    answers: Seq<Answer<R>>,
)
    requires
        worked(entries, pending, log, answers),
    ensures
        answers.len() == answered(entries, pending).len(),
        forall|i: int|
            0 <= i < answers.len() ==> (#[trigger] answers[i]).reply == answered(
                entries,
                pending,
            )[i].0,
    decreases entries.len(),
{
    if entries.len() > 0 {
        let front = entries.drop_last();
        match work_of(entries.last()) {
            Work::Skip => law_answers_in_order(front, pending, log, answers),
            Work::Apply(_) => {
                law_answers_in_order(front, pending, log.drop_last(), answers.drop_last());
            },
            Work::Fail => law_answers_in_order(front, pending, log, answers.drop_last()),
        }
        if !(work_of(entries.last()) is Skip) {
            assert forall|i: int| 0 <= i < answers.len() implies (#[trigger] answers[i]).reply
                == answered(entries, pending)[i].0 by {
                if i < answers.len() - 1 {
                    assert(answers.drop_last()[i] == answers[i]);
                }
            }
        }
    }
}

/// Proposals are applied and answered in order: where the entries are those of some
/// commands, each behind the one before it, the k-th command is applied k-th, once, nothing
/// else is applied, and its proposer gets what that gave.
pub proof fn law_kth_proposal_gets_kth_result<R>(
    commands: Seq<MetaCommand>,
    replies: Seq<R>,
    entries: Seq<EntryView>,
    pending: Map<u64, R>,
    log: Seq<Applied>,
    answers: Seq<Answer<R>>,
)
    requires
        entries.len() == commands.len() == replies.len(),
        forall|k: int|
            0 <= k < entries.len() ==> work_of(#[trigger] entries[k]) == Work::Apply(
                commands[k].value(),
            ),
        forall|k: int, l: int|
            0 <= k < l < entries.len() ==> (#[trigger] entries[k]).index < (#[trigger] entries[l])
                .index,
        forall|k: int|
            0 <= k < entries.len() ==> waiting_for(pending, (#[trigger] entries[k]).index) == Some(
                replies[k],
            ),
        worked(entries, pending, log, answers),
    ensures
        log.len() == commands.len(),
        answers.len() == commands.len(),
        forall|k: int|
            0 <= k < commands.len() ==> (#[trigger] log[k]).command == commands[k].value(),
        forall|k: int|
            0 <= k < answers.len() ==> (#[trigger] answers[k]).reply == Some(replies[k])
                && answers[k].result == log[k].result,
{
    lemma_answered_all(entries, pending);
    law_answers_in_order(entries, pending, log, answers);
    lemma_results_in_order(entries, pending, log, answers);
    assert forall|k: int| 0 <= k < commands.len() implies (#[trigger] log[k]).command
        == commands[k].value() by {
        assert(work_of(entries[k]) == Work::Apply(commands[k].value()));
    }
    assert forall|k: int| 0 <= k < answers.len() implies (#[trigger] answers[k]).reply == Some(
        replies[k],
    ) && answers[k].result == log[k].result by {
        assert(answered(entries, pending)[k] == (
            waiting_for(pending, entries[k].index),
            entries[k],
        ));
    }
}

proof fn lemma_results_in_order<R>(
    entries: Seq<EntryView>,
    pending: Map<u64, R>,
    log: Seq<Applied>,
    answers: Seq<Answer<R>>,
)
    requires
        forall|k: int|
            0 <= k < entries.len() ==> work_of(#[trigger] entries[k]) is Apply,
        worked(entries, pending, log, answers),
    ensures
        log.len() == entries.len(),
        answers.len() == entries.len(),
        forall|k: int|
            0 <= k < entries.len() ==> work_of(entries[k]) == Work::Apply(
                (#[trigger] log[k]).command,
            ),
        forall|k: int|
            0 <= k < entries.len() ==> (#[trigger] answers[k]).result == log[k].result,
    decreases entries.len(),
{
    if entries.len() > 0 {
        let front = entries.drop_last();
        assert(work_of(entries[entries.len() - 1]) is Apply);
        assert forall|k: int| 0 <= k < front.len() implies work_of(#[trigger] front[k]) is Apply by {
            assert(front[k] == entries[k]);
        }
        lemma_results_in_order(front, pending, log.drop_last(), answers.drop_last());
        assert forall|k: int| 0 <= k < entries.len() implies work_of(entries[k]) == Work::Apply(
            (#[trigger] log[k]).command,
        ) by {
            if k < front.len() {
                assert(log.drop_last()[k] == log[k] && front[k] == entries[k]);
            }
        }
        assert forall|k: int| 0 <= k < entries.len() implies (#[trigger] answers[k]).result
            == log[k].result by {
            if k < front.len() {
                assert(answers.drop_last()[k] == answers[k] && log.drop_last()[k] == log[k]);
            }
        }
    }
}

/// A replica between two proposals: who waits, what was applied so far, and what was answered.
pub struct NodeView<R> {
    pub pending: Map<u64, R>,
    pub log: Seq<Applied>,
    pub answers: Seq<Answer<R>>,
}

/// Whether a replica comes from one state to another by a proposal that is awaited: the
/// command is encoded, the node takes it, and committed entries are worked off, that of the
/// proposal among them and beside it none but such as ask for nothing.
pub open spec fn proposal_awaited<R>(
    before: NodeView<R>,
    after: NodeView<R>,
    command: MetaCommand,
    reply: R,
    last_index: u64,
    entries: Seq<EntryView>,
    at: int,
) -> bool {
    let waiting = before.pending.insert((last_index + 1) as u64, reply);
    let log = after.log.skip(before.log.len() as int);
    let answers = after.answers.skip(before.answers.len() as int);
    &&& last_index < u64::MAX
    &&& 0 <= at < entries.len()
    &&& entries[at].entry_type == EntryType::Normal
    &&& entries[at].index == last_index + 1
    &&& exists|bytes: Vec<u8>|
        entries[at].data == #[trigger] bytes@ && command::encoded(
            META_COMMAND_VERSION,
            command,
            Ok(bytes),
        )
    &&& forall|i: int|
        0 <= i < entries.len() && i != at ==> work_of(#[trigger] entries[i]) is Skip
    &&& after.pending == left_waiting(entries, waiting)
    &&& before.log.is_prefix_of(after.log)
    &&& before.answers.is_prefix_of(after.answers)
    &&& worked(entries, waiting, log, answers)
}

/// One awaited proposal: its command is applied once, nothing else is, and its proposer is
/// answered with what that gave.
pub proof fn law_awaited_proposal<R>(
    before: NodeView<R>,
    after: NodeView<R>,
    command: MetaCommand,
    reply: R,
    last_index: u64,
    entries: Seq<EntryView>,
    at: int,
)
    requires
        proposal_awaited(before, after, command, reply, last_index, entries, at),
    ensures
        after.log.len() == before.log.len() + 1,
        after.log.last().command == command.value(),
        after.answers.len() == before.answers.len() + 1,
        after.answers.last().reply == Some(reply),
        after.answers.last().result == after.log.last().result,
{
    let waiting = before.pending.insert((last_index + 1) as u64, reply);
    let log = after.log.skip(before.log.len() as int);
    let answers = after.answers.skip(before.answers.len() as int);
    assert(work_of(entries[at]) == Work::Apply(command.value()));
    lemma_only_one(entries, waiting, log, answers, at);
    assert(after.log.last() == log[0]);
    assert(after.answers.last() == answers[0]);
}

proof fn lemma_only_one<R>(
    entries: Seq<EntryView>,
    pending: Map<u64, R>,
    log: Seq<Applied>,
    answers: Seq<Answer<R>>,
    at: int,
)
    requires
        worked(entries, pending, log, answers),
        0 <= at < entries.len(),
        work_of(entries[at]) is Apply,
        forall|i: int|
            0 <= i < entries.len() && i != at ==> work_of(#[trigger] entries[i]) is Skip,
    ensures
        log.len() == 1,
        answers.len() == 1,
        work_of(entries[at]) == Work::Apply(log[0].command),
        answers[0].result == log[0].result,
        answers[0].reply == waiting_for(pending, entries[at].index),
    decreases entries.len(),
{
    let front = entries.drop_last();
    assert(entries[entries.len() - 1] == entries.last());
    if at < entries.len() - 1 {
        assert forall|i: int| 0 <= i < front.len() && i != at implies work_of(
            #[trigger] front[i],
        ) is Skip by {
            assert(front[i] == entries[i]);
        }
        assert(front[at] == entries[at]);
        lemma_only_one(front, pending, log, answers, at);
    } else {
        assert forall|i: int| 0 <= i < front.len() implies work_of(#[trigger] front[i]) is Skip by {
            assert(front[i] == entries[i]);
        }
        lemma_nothing_asked(front, pending, log.drop_last(), answers.drop_last());
    }
}

proof fn lemma_nothing_asked<R>(
    entries: Seq<EntryView>,
    pending: Map<u64, R>,
    log: Seq<Applied>,
    answers: Seq<Answer<R>>,
)
    requires
        worked(entries, pending, log, answers),
        forall|i: int| 0 <= i < entries.len() ==> work_of(#[trigger] entries[i]) is Skip,
    ensures
        log.len() == 0,
        answers.len() == 0,
        left_waiting(entries, pending) == pending,
    decreases entries.len(),
{
    if entries.len() > 0 {
        let front = entries.drop_last();
        assert(work_of(entries[entries.len() - 1]) is Skip);
        assert forall|i: int| 0 <= i < front.len() implies work_of(#[trigger] front[i]) is Skip by {
            assert(front[i] == entries[i]);
        }
        lemma_nothing_asked(front, pending, log, answers);
    }
}

/// Proposals that are awaited one after the other: the commands are applied exactly once
/// each, in order, and nothing else is, and the k-th proposer gets what the k-th command
/// gave. `states` are those of the replica, before the first proposal and after each.
pub proof fn law_each_proposal_is_applied_once<R>(
    states: Seq<NodeView<R>>,
    commands: Seq<MetaCommand>,
    replies: Seq<R>,
    last_indices: Seq<u64>,
    committed: Seq<Seq<EntryView>>,
    at: Seq<int>,
)
    requires
        states.len() == commands.len() + 1,
        commands.len() == replies.len() == last_indices.len() == committed.len() == at.len(),
        states[0].log.len() == 0,
        states[0].answers.len() == 0,
        forall|k: int|
            0 <= k < commands.len() ==> proposal_awaited(
                states[k],
                states[k + 1],
                #[trigger] commands[k],
                replies[k],
                last_indices[k],
                committed[k],
                at[k],
            ),
    ensures
        states.last().log.len() == commands.len(),
        states.last().answers.len() == commands.len(),
        forall|k: int|
            0 <= k < commands.len() ==> (#[trigger] states.last().log[k]).command
                == commands[k].value(),
        forall|k: int|
            0 <= k < commands.len() ==> (#[trigger] states.last().answers[k]).reply == Some(
                replies[k],
            ) && states.last().answers[k].result == states.last().log[k].result,
    decreases commands.len(),
{
    if commands.len() > 0 {
        let n = commands.len() - 1;
        let (s, c, r) = (states.drop_last(), commands.drop_last(), replies.drop_last());
        let (l, e, a) = (last_indices.drop_last(), committed.drop_last(), at.drop_last());
        assert forall|k: int| 0 <= k < c.len() implies proposal_awaited(
            s[k],
            s[k + 1],
            #[trigger] c[k],
            r[k],
            l[k],
            e[k],
            a[k],
        ) by {
            assert(c[k] == commands[k]);
        }
        law_each_proposal_is_applied_once(s, c, r, l, e, a);
        let (before, after) = (states[n], states[n + 1]);
        assert(s.last() == before);
        assert(commands[n] == commands.last());
        law_awaited_proposal(
            before,
            after,
            commands[n],
            replies[n],
            last_indices[n],
            committed[n],
            at[n],
        );
        assert forall|k: int| 0 <= k < commands.len() implies (#[trigger] after.log[k]).command
            == commands[k].value() by {
            if k < n {
                assert(after.log[k] == before.log[k]);
                assert(c[k] == commands[k]);
            }
        }
        assert forall|k: int| 0 <= k < commands.len() implies (#[trigger] after.answers[k]).reply
            == Some(replies[k]) && after.answers[k].result == after.log[k].result by {
            if k < n {
                assert(after.answers[k] == before.answers[k]);
                assert(after.log[k] == before.log[k]);
                assert(r[k] == replies[k]);
            }
        }
    }
}

proof fn lemma_still_waiting<R>(entries: Seq<EntryView>, pending: Map<u64, R>, index: u64)
    requires
        pending.dom().contains(index),
        forall|i: int| 0 <= i < entries.len() ==> (#[trigger] entries[i]).index != index,
    ensures
        left_waiting(entries, pending).dom().contains(index),
        left_waiting(entries, pending)[index] == pending[index],
    decreases entries.len(),
{
    if entries.len() > 0 {
        let front = entries.drop_last();
        assert forall|i: int| 0 <= i < front.len() implies (#[trigger] front[i]).index != index by {
            assert(front[i] == entries[i]);
        }
        lemma_still_waiting(front, pending, index);
        assert(entries[entries.len() - 1].index != index);
    }
}

} // verus!
