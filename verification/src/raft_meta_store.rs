//! The metadata store as its callers see it: every write goes through the Raft group.
//!
//! A write becomes a command and the form of the result that its caller waits for.
//! The command is proposed; once it is applied, the result is taken apart for the
//! caller. The leader stamps its own clock on a command that writes a time, so every
//! replica writes the same one.

use crate::command::MetaCommand;
use crate::error::CubeError;
use crate::proto::{ConfState, Snapshot, SnapshotMetadata};
#[allow(unused_imports)]
use crate::proto;
use crate::result::{IdRowKind, MetaCommandResult, MetaCommandResultMismatch, ResultShape};
#[allow(unused_imports)]
use crate::result;
#[allow(unused_imports)]
use crate::rocks_apply;
use crate::storage::{RaftStorage, SavePlan, WriteOp};
#[allow(unused_imports)]
use crate::storage;
#[allow(unused_imports)]
use crate::text;
use chrono::Utc;
use vstd::prelude::*;

verus! {

/// What a replica knows of the group.
#[derive(Debug, Clone, Copy, PartialEq, Eq)]
pub struct RaftMetaStore {
    /// The id of the replica itself.
    pub node_id: u64,
    /// The id of the leader that the replica last heard of, 0 during an election.
    pub leader_id: u64,
}

/// The leader that a replica knows of.
pub open spec fn known_leader(m: RaftMetaStore) -> Option<u64> {
    if m.leader_id == 0 {
        None
    } else {
        Some(m.leader_id)
    }
}

impl RaftMetaStore {
    /// The leader as the replica sees it, `None` during an election.
    pub fn ha_leader_id(&self) -> (r: Option<u64>)
        ensures
            r == known_leader(*self),
    {
        if self.leader_id == 0 {
            None
        } else {
            Some(self.leader_id)
        }
    }

    /// Whether the replica sees itself as the leader.
    pub fn ha_is_leader_self(&self) -> (r: bool)
        ensures
            r == (known_leader(*self) == Some(self.node_id)),
    {
        self.leader_id != 0 && self.leader_id == self.node_id
    }

    /// The id of the replica.
    pub fn ha_node_id(&self) -> (r: u64)
        ensures
            r == self.node_id,
    {
        self.node_id
    }
}

// ---------------------------------------------------------------------------
// The hint at the leader
// ---------------------------------------------------------------------------

/// What stands before the id of the leader in a message.
pub const LEADER_MARKER: &'static str = "raft-leader-id=";

pub open spec fn marker_at(msg: Seq<char>, i: int) -> bool {
    i + LEADER_MARKER@.len() <= msg.len() && msg.subrange(i, i + LEADER_MARKER@.len() as int)
        == LEADER_MARKER@
}

/// Where the marker first stands in a message, from an index on.
pub open spec fn marker_from(msg: Seq<char>, i: int) -> Option<int>
    decreases msg.len() + 1 - i,
{
    if i < 0 || i + LEADER_MARKER@.len() > msg.len() {
        None
    } else if marker_at(msg, i) {
        Some(i)
    } else {
        marker_from(msg, i + 1)
    }
}

pub open spec fn is_digit(c: char) -> bool {
    '0' <= c <= '9'
}

/// How many digits a text begins with.
pub open spec fn leading_digits(s: Seq<char>) -> nat
    decreases s.len(),
{
    if s.len() == 0 || !is_digit(s[0]) {
        0
    } else {
        1 + leading_digits(s.skip(1))
    }
}

/// The number that digits stand for.
pub open spec fn digits_value(s: Seq<char>) -> nat
    decreases s.len(),
{
    if s.len() == 0 {
        0
    } else {
        digits_value(s.drop_last()) * 10 + (s.last() as int - '0' as int) as nat
    }
}

/// The id that a text begins with, where it fits 64 bits.
pub open spec fn leading_id(s: Seq<char>) -> Option<u64> {
    let digits = s.take(leading_digits(s) as int);
    if digits.len() == 0 || digits_value(digits) > u64::MAX {
        None
    } else {
        Some(digits_value(digits) as u64)
    }
}

/// The id of the leader that a message hints at: the number behind the first
/// marker.
pub open spec fn leader_hint(msg: Seq<char>) -> Option<u64> {
    match marker_from(msg, 0) {
        None => None,
        Some(i) => leading_id(msg.skip(i + LEADER_MARKER@.len() as int)),
    }
}

fn chars_of(s: &str) -> (v: Vec<char>)
    ensures
        v@ == s@,
{
    let mut v: Vec<char> = Vec::new();
    for c in iter: s.chars()
        invariant
            iter.seq() == s@,
            v@ == s@.take(iter.index() as int),
    {
        v.push(c);
        assert(v@ =~= s@.take(iter.index() as int + 1));
    }
    assert(v@ =~= s@);
    v
}

fn find_marker(msg: &Vec<char>, marker: &Vec<char>) -> (r: Option<usize>)
    requires
        marker@ == LEADER_MARKER@,
    ensures
        match r {
            Some(i) => marker_from(msg@, 0) == Some(i as int) && i + marker@.len() <= msg@.len(),
            None => marker_from(msg@, 0) is None,
        },
{
    if msg.len() < marker.len() {
        return None;
    }
    let last: usize = msg.len() - marker.len();
    let mut i: usize = 0;
    while i <= last
        invariant
            marker@ == LEADER_MARKER@,
            last + marker@.len() == msg@.len(),
            msg@.len() <= usize::MAX,
            0 <= i <= last + 1,
            marker_from(msg@, 0) == marker_from(msg@, i as int),
        decreases last + 1 - i,
    {
        let mut k: usize = 0;
        while k < marker.len() && msg[i + k] == marker[k]
            invariant
                i <= last,
                last + marker@.len() == msg@.len(),
                msg@.len() <= usize::MAX,
                k <= marker@.len(),
                forall|j: int| 0 <= j < k ==> msg@[i + j] == marker@[j],
            decreases marker@.len() - k,
        {
            k = k + 1;
        }
        let ghost part = msg@.subrange(i as int, i + marker@.len());
        if k == marker.len() {
            assert(part =~= marker@);
            return Some(i);
        }
        assert(part[k as int] != marker@[k as int]);
        if i == last {
            assert(marker_from(msg@, i + 1) is None);
            return None;
        }
        i = i + 1;
    }
    None
}

proof fn lemma_leading_digits(s: Seq<char>, n: int)
    requires
        0 <= n <= s.len(),
        forall|i: int| 0 <= i < n ==> is_digit(#[trigger] s[i]),
        n < s.len() ==> !is_digit(s[n]),
    ensures
        leading_digits(s) == n,
    decreases n,
{
    if n > 0 {
        let t = s.skip(1);
        assert forall|i: int| 0 <= i < n - 1 implies is_digit(#[trigger] t[i]) by {
            assert(t[i] == s[i + 1]);
        }
        lemma_leading_digits(t, n - 1);
        assert(is_digit(s[0]));
    }
}

proof fn lemma_value_grows(s: Seq<char>, n: int)
    requires
        0 <= n <= s.len(),
        forall|i: int| 0 <= i < s.len() ==> is_digit(#[trigger] s[i]),
    ensures
        digits_value(s.take(n)) <= digits_value(s),
    decreases s.len() - n,
{
    if n < s.len() {
        let front = s.drop_last();
        lemma_value_grows(front, n);
        assert(front.take(n) =~= s.take(n));
    } else {
        assert(s.take(n) =~= s);
    }
}

fn read_id(msg: &Vec<char>, from: usize) -> (r: Option<u64>)
    requires
        from <= msg@.len(),
    ensures
        r == leading_id(msg@.skip(from as int)),
{
    let ghost tail = msg@.skip(from as int);
    let mut end: usize = from;
    while end < msg.len() && msg[end] >= '0' && msg[end] <= '9'
        invariant
            from <= end <= msg@.len(),
            tail == msg@.skip(from as int),
            forall|i: int| 0 <= i < end - from ==> is_digit(#[trigger] tail[i]),
        decreases msg@.len() - end,
    {
        end = end + 1;
    }
    proof {
        lemma_leading_digits(tail, end - from);
    }
    let ghost digits = tail.take(end - from);
    if end == from {
        return None;
    }
    let mut value: u64 = 0;
    let mut i: usize = from;
    while i < end
        invariant
            from <= i <= end <= msg@.len(),
            tail == msg@.skip(from as int),
            digits == tail.take(end - from),
            digits.len() == end - from,
            leading_digits(tail) == end - from,
            end > from,
            forall|k: int| 0 <= k < digits.len() ==> is_digit(#[trigger] digits[k]),
            value == digits_value(digits.take(i - from)),
        decreases end - i,
    {
        let ghost next = digits.take(i - from + 1);
        proof {
            assert(digits[i - from] == msg@[i as int]);
            assert(is_digit(digits[i - from]));
        }
        let d: u64 = (msg[i] as u32 - '0' as u32) as u64;
        proof {
            assert(next.drop_last() =~= digits.take(i - from));
            assert(next.last() == msg@[i as int]);
            lemma_value_grows(digits, i - from + 1);
        }
        if value > (u64::MAX - d) / 10 {
            assert(digits_value(next) > u64::MAX);
            return None;
        }
        value = value * 10 + d;
        i = i + 1;
    }
    assert(digits.take(end - from) =~= digits);
    Some(value)
}

impl RaftMetaStore {
    /// The id of the leader that the message of an error hints at. A caller sends
    /// the failed write there; without a hint it waits for the election to end.
    pub fn parse_leader_hint(err: &CubeError) -> (r: Option<u64>)
        ensures
            r == leader_hint(err.message@),
    {
        let msg: Vec<char> = chars_of(err.message.as_str());
        let marker: Vec<char> = chars_of(LEADER_MARKER);
        assert(msg.len() <= usize::MAX);
        match find_marker(&msg, &marker) {
            None => None,
            Some(i) => read_id(&msg, i + marker.len()),
        }
    }
}

proof fn lemma_decimal(n: nat)
    ensures
        text::decimal(n).len() > 0,
        forall|i: int| 0 <= i < text::decimal(n).len() ==> is_digit(#[trigger] text::decimal(n)[i]),
        digits_value(text::decimal(n)) == n,
    decreases n,
{
    let s = text::decimal(n);
    reveal_with_fuel(digits_value, 2);
    if n >= 10 {
        lemma_decimal(n / 10);
        assert(s.drop_last() =~= text::decimal(n / 10));
    } else {
        assert(s.drop_last() =~= seq![]);
    }
}

proof fn lemma_marker_first(msg: Seq<char>, from: int, at: int)
    requires
        0 <= from <= at,
        marker_at(msg, at),
        forall|i: int| from <= i < at ==> !marker_at(msg, i),
    ensures
        marker_from(msg, from) == Some(at),
    decreases at - from,
{
    if from < at {
        lemma_marker_first(msg, from + 1, at);
    }
}

/// A message hints at no leader where the marker stands nowhere in it.
pub proof fn lemma_no_marker(msg: Seq<char>, from: int)
    requires
        0 <= from,
    ensures
        marker_from(msg, from) is None <==> forall|i: int| from <= i ==> !#[trigger] marker_at(msg, i),
    decreases msg.len() + 1 - from,
{
    if from + LEADER_MARKER@.len() <= msg.len() && !marker_at(msg, from) {
        lemma_no_marker(msg, from + 1);
    }
}

/// A message that gives the id of the leader behind its first marker, in decimal and
/// not followed by another digit, hints at that leader.
pub proof fn law_leader_hint(before: Seq<char>, id: u64, after: Seq<char>)
    requires
        after.len() > 0 ==> !is_digit(after[0]),
        forall|i: int|
            0 <= i < before.len() ==> !marker_at(
                before + LEADER_MARKER@ + text::decimal(id as nat) + after,
                i,
            ),
    ensures
        leader_hint(before + LEADER_MARKER@ + text::decimal(id as nat) + after) == Some(id),
{
    let digits = text::decimal(id as nat);
    let msg = before + LEADER_MARKER@ + digits + after;
    let at = before.len() as int;
    let tail = msg.skip(at + LEADER_MARKER@.len() as int);
    assert(msg.subrange(at, at + LEADER_MARKER@.len() as int) =~= LEADER_MARKER@);
    lemma_marker_first(msg, 0, at);
    assert(tail =~= digits + after);
    lemma_decimal(id as nat);
    assert forall|i: int| 0 <= i < digits.len() implies is_digit(#[trigger] tail[i]) by {
        assert(is_digit(digits[i]));
    }
    lemma_leading_digits(tail, digits.len() as int);
    assert(tail.take(digits.len() as int) =~= digits);
}

/// A message without the marker hints at no leader, and neither does one whose marker is not
/// followed by a number.
pub proof fn law_no_leader_hint(before: Seq<char>, after: Seq<char>)
    requires
        forall|i: int|
            0 <= i < before.len() ==> !marker_at(before + LEADER_MARKER@ + after, i),
        after.len() > 0 ==> !is_digit(after[0]),
    ensures
        leader_hint(before + LEADER_MARKER@ + after) is None,
        forall|msg: Seq<char>|
            (forall|i: int| 0 <= i ==> !#[trigger] marker_at(msg, i)) ==> #[trigger] leader_hint(msg)
                is None,
{
    let msg = before + LEADER_MARKER@ + after;
    let at = before.len() as int;
    assert(msg.subrange(at, at + LEADER_MARKER@.len() as int) =~= LEADER_MARKER@);
    lemma_marker_first(msg, 0, at);
    let tail = msg.skip(at + LEADER_MARKER@.len() as int);
    assert(tail =~= after);
    lemma_leading_digits(tail, 0);
    assert forall|msg: Seq<char>|
        (forall|i: int| 0 <= i ==> !#[trigger] marker_at(msg, i)) implies #[trigger] leader_hint(msg)
        is None by {
        lemma_no_marker(msg, 0);
    }
}

/// A replica knows a leader exactly if it heard of one, whose id is never 0, and that leader
/// is the one it last heard of.
pub proof fn law_known_leader(m: RaftMetaStore)
    ensures
        known_leader(m) is None <==> m.leader_id == 0,
        known_leader(m) matches Some(id) ==> id == m.leader_id,
{
}

// ---------------------------------------------------------------------------
// Writes
// ---------------------------------------------------------------------------

/// A write that goes to the group: the method that makes it, the command to propose,
/// and the form of the result.
#[derive(Debug, PartialEq)]
pub struct Write {
    pub method: &'static str,
    pub command: MetaCommand,
    pub expected: ResultShape,
}

/// The method whose write a command is, none for a command that no method proposes.
pub open spec fn method_of(command: MetaCommand) -> Option<Seq<char>> {
    match command {
        MetaCommand::CreateSchema { .. } => Some("create_schema"@),
        MetaCommand::RenameSchema { .. } => Some("rename_schema"@),
        MetaCommand::RenameSchemaById { .. } => Some("rename_schema_by_id"@),
        MetaCommand::DeleteSchema { .. } => Some("delete_schema"@),
        MetaCommand::DeleteSchemaById { .. } => Some("delete_schema_by_id"@),
        MetaCommand::CreateTableStructured { .. } => Some("create_table"@),
        MetaCommand::DropTable { .. } => Some("drop_table"@),
        MetaCommand::SealTable { .. } => Some("seal_table"@),
        MetaCommand::UpdateLocationDownloadSize { .. } => Some("update_location_download_size"@),
        MetaCommand::TableReady { .. } => Some("table_ready"@),
        MetaCommand::CreatePartition { .. } => Some("create_partition"@),
        MetaCommand::DeletePartition { .. } => Some("delete_partition"@),
        MetaCommand::MarkPartitionWarmedUp { .. } => Some("mark_partition_warmed_up"@),
        MetaCommand::DeleteMiddleManPartition { .. } => Some("delete_middle_man_partition"@),
        MetaCommand::SwapActivePartitionsStructured { .. } => Some("swap_active_partitions"@),
        MetaCommand::CreateMultiPartition { .. } => Some("create_multi_partition"@),
        MetaCommand::CommitMultiPartitionSplit { .. } => Some("commit_multi_partition_split"@),
        MetaCommand::CreateIndex { .. } => Some("create_index"@),
        MetaCommand::CreatePartitionedIndex { .. } => Some("create_partitioned_index"@),
        MetaCommand::DropPartitionedIndex { .. } => Some("drop_partitioned_index"@),
        MetaCommand::CreateChunk { .. } => Some("create_chunk"@),
        MetaCommand::InsertChunks { .. } => Some("insert_chunks"@),
        MetaCommand::SwapCompactedChunks { .. } => Some("swap_compacted_chunks"@),
        MetaCommand::DeleteChunk { .. } => Some("delete_chunk"@),
        MetaCommand::DeleteChunksWithoutChecks { .. } => Some("delete_chunks_without_checks"@),
        MetaCommand::ChunkUploaded { .. } => Some("chunk_uploaded"@),
        MetaCommand::ChunkUpdateLastInserted { .. } => Some("chunk_update_last_inserted"@),
        MetaCommand::SwapChunks { .. } => Some("swap_chunks"@),
        MetaCommand::SwapChunksWithoutCheck { .. } => Some("swap_chunks_without_check"@),
        MetaCommand::ActivateChunks { .. } => Some("activate_chunks"@),
        MetaCommand::DeactivateChunk { .. } => Some("deactivate_chunk"@),
        MetaCommand::DeactivateChunks { .. } => Some("deactivate_chunks"@),
        MetaCommand::DeactivateChunksWithoutCheck { .. } =>
            Some("deactivate_chunks_without_check"@),
        MetaCommand::CreateWal { .. } => Some("create_wal"@),
        MetaCommand::DeleteWal { .. } => Some("delete_wal"@),
        MetaCommand::WalUploaded { .. } => Some("wal_uploaded"@),
        MetaCommand::AddJob { .. } => Some("add_job"@),
        MetaCommand::DeleteJob { .. } => Some("delete_job"@),
        MetaCommand::DeleteAllJobs => Some("delete_all_jobs"@),
        MetaCommand::StartProcessingJob { .. } => Some("start_processing_job"@),
        MetaCommand::UpdateStatus { .. } => Some("update_status"@),
        MetaCommand::UpdateHeartBeat { .. } => Some("update_heart_beat"@),
        MetaCommand::CreateOrUpdateSource { .. } => Some("create_or_update_source"@),
        MetaCommand::DeleteSource { .. } => Some("delete_source"@),
        MetaCommand::CreateReplayHandle { .. } => Some("create_replay_handle"@),
        MetaCommand::CreateReplayHandleFromSeqPointers { .. } =>
            Some("create_replay_handle_from_seq_pointers"@),
        MetaCommand::UpdateReplayHandleFailedIfExists { .. } =>
            Some("update_replay_handle_failed_if_exists"@),
        MetaCommand::ReplaceReplayHandles { .. } => Some("replace_replay_handles"@),
        MetaCommand::SetCurrentSnapshot { .. } => Some("set_current_snapshot"@),
        _ => None,
    }
}

/// Whether a write is made by the method, proposes the command, and expects what
/// applying the command gives.
pub open spec fn writes(w: Write, method: Seq<char>, command: MetaCommand) -> bool {
    &&& w.method@ == method
    &&& w.command == command
    &&& rocks_apply::command_shape(command) == Some(w.expected)
    &&& method_of(command) == Some(method)
}

/// The time that is stamped on a command.
pub open spec fn stamp(command: MetaCommand) -> i64 {
    rocks_apply::stamp_of(command)->0
}

/// Whether a command is stamped with a time that a clock can give.
pub open spec fn stamped_by_clock(command: MetaCommand) -> bool {
    rocks_apply::stamp_of(command) is Some && rocks_apply::representable_millis(stamp(command))
}

pub open spec fn encode_text(method: Seq<char>, field: Seq<char>, reason: Seq<char>) -> Seq<char> {
    "RaftMetaStore::"@ + method + " — encode "@ + field + ": "@ + reason
}

/// Whether a write fails because a field of it could not be encoded.
pub open spec fn fails(
    w: Result<Write, CubeError>,
    method: Seq<char>,
    field: Seq<char>,
    reason: Seq<char>,
) -> bool {
    w matches Err(e) && e.message@ == encode_text(method, field, reason)
}

pub open spec fn mismatch_text(method: Seq<char>, m: MetaCommandResultMismatch) -> Seq<char> {
    "RaftMetaStore::"@ + method + " — apply produced a wrong result shape: "@
        + result::mismatch_message(m)
}

/// Calls `chrono::Utc::now` and `timestamp_millis` on its result: some instant that a
/// date can hold. It depends on the clock of the machine, and stops the program where
/// that clock stands before the epoch.
#[verifier::external_body]
fn now_millis() -> (ms: i64)
    ensures
        rocks_apply::representable_millis(ms),
{
    Utc::now().timestamp_millis()
}

impl RaftMetaStore {
    fn mismatch(method: &'static str, m: MetaCommandResultMismatch) -> (e: CubeError)
        ensures
            e.message@ == mismatch_text(method@, m),
    {
        let mut s: String = "RaftMetaStore::".to_owned();
        s.push_str(method);
        s.push_str(" — apply produced a wrong result shape: ");
        s.push_str(m.message().as_str());
        CubeError::internal(s)
    }

    /// Takes the encoded value of a field, or says which field of which method could
    /// not be encoded, and why.
    pub fn encode_blob(
        method: &'static str,
        field: &'static str,
        value: Result<Vec<u8>, String>,
    ) -> (r:
        Result<Vec<u8>, CubeError>)
        ensures
            match value {
                Ok(blob) => r == Ok::<_, CubeError>(blob),
                Err(reason) => r matches Err(e) && e.message@ == encode_text(
                    method@,
                    field@,
                    reason@,
                ),
            },
    {
        match value {
            Ok(blob) => Ok(blob),
            Err(reason) => {
                let mut s: String = "RaftMetaStore::".to_owned();
                s.push_str(method);
                s.push_str(" — encode ");
                s.push_str(field);
                s.push_str(": ");
                s.push_str(reason.as_str());
                Err(CubeError::internal(s))
            },
        }
    }

    /// Takes the encoded value of a field that may be absent.
    pub fn encode_optional_blob(
        method: &'static str,
        field: &'static str,
        value: Option<Result<Vec<u8>, String>>,
    ) -> (r: Result<Option<Vec<u8>>, CubeError>)
        ensures
            match value {
                None => r == Ok::<Option<Vec<u8>>, CubeError>(None),
                Some(Ok(blob)) => r == Ok::<_, CubeError>(Some(blob)),
                Some(Err(reason)) => r matches Err(e) && e.message@ == encode_text(
                    method@,
                    field@,
                    reason@,
                ),
            },
    {
        match value {
            None => Ok(None),
            Some(v) => match RaftMetaStore::encode_blob(method, field, v) {
                Ok(blob) => Ok(Some(blob)),
                Err(e) => Err(e),
            },
        }
    }

    /// Create a schema. With `if_not_exists` an existing one of the name is kept.
    pub fn create_schema(schema_name: String, if_not_exists: bool) -> (w: Write)
        ensures
            writes(w, "create_schema"@, MetaCommand::CreateSchema { schema_name, if_not_exists }),
    {
        Write {
            method: "create_schema",
            command: MetaCommand::CreateSchema { schema_name, if_not_exists },
            expected: ResultShape::IdRow(IdRowKind::Schema),
        }
    }

    /// Rename the schema of the old name.
    pub fn rename_schema(old_schema_name: String, new_schema_name: String) -> (w: Write)
        ensures
            writes(
                w,
                "rename_schema"@,
                MetaCommand::RenameSchema { old_schema_name, new_schema_name },
            ),
    {
        Write {
            method: "rename_schema",
            command: MetaCommand::RenameSchema { old_schema_name, new_schema_name },
            expected: ResultShape::IdRow(IdRowKind::Schema),
        }
    }

    /// Rename the schema of the id.
    pub fn rename_schema_by_id(schema_id: u64, new_schema_name: String) -> (w: Write)
        ensures
            writes(
                w,
                "rename_schema_by_id"@,
                MetaCommand::RenameSchemaById { schema_id, new_schema_name },
            ),
    {
        Write {
            method: "rename_schema_by_id",
            command: MetaCommand::RenameSchemaById { schema_id, new_schema_name },
            expected: ResultShape::IdRow(IdRowKind::Schema),
        }
    }

    /// Delete the schema of the name.
    pub fn delete_schema(schema_name: String) -> (w: Write)
        ensures
            writes(w, "delete_schema"@, MetaCommand::DeleteSchema { schema_name }),
    {
        Write {
            method: "delete_schema",
            command: MetaCommand::DeleteSchema { schema_name },
            expected: ResultShape::Unit,
        }
    }

    /// Delete the schema of the id.
    pub fn delete_schema_by_id(schema_id: u64) -> (w: Write)
        ensures
            writes(w, "delete_schema_by_id"@, MetaCommand::DeleteSchemaById { schema_id }),
    {
        Write {
            method: "delete_schema_by_id",
            command: MetaCommand::DeleteSchemaById { schema_id },
            expected: ResultShape::Unit,
        }
    }

    /// Create a table from its arguments, stamped with the leader's clock. The
    /// time is given.
    pub fn create_table_at(
        schema_name: String,
        table_name: String,
        columns: Result<Vec<u8>, String>,
        locations: Option<Vec<String>>,
        import_format: Option<Result<Vec<u8>, String>>,
        indexes: Result<Vec<u8>, String>,
        is_ready: bool,
        build_range_end_millis: Option<i64>,
        seal_at_millis: Option<i64>,
        select_statement: Option<String>,
        source_columns: Option<Result<Vec<u8>, String>>,
        stream_offset: Option<Result<Vec<u8>, String>>,
        unique_key_column_names: Option<Vec<String>>,
        aggregates: Option<Vec<(String, String)>>,
        partition_split_threshold: Option<u64>,
        trace_obj: Option<String>,
        drop_if_exists: bool,
        extension: Option<String>,
        now: i64,
    ) -> (w: Result<Write, CubeError>)
        ensures
            if columns is Err {
                fails(w, "create_table"@, "columns"@, columns->Err_0@)
            } else if import_format is Some && import_format->0 is Err {
                fails(w, "create_table"@, "import_format"@, import_format->0->Err_0@)
            } else if indexes is Err {
                fails(w, "create_table"@, "indexes"@, indexes->Err_0@)
            } else if source_columns is Some && source_columns->0 is Err {
                fails(w, "create_table"@, "source_columns"@, source_columns->0->Err_0@)
            } else if stream_offset is Some && stream_offset->0 is Err {
                fails(w, "create_table"@, "stream_offset"@, stream_offset->0->Err_0@)
            } else {
                w matches Ok(w) && writes(
                    w,
                    "create_table"@,
                    MetaCommand::CreateTableStructured {
                        schema_name,
                        table_name,
                        columns_blob: columns->Ok_0,
                        locations,
                        import_format_blob: optional_taken(import_format),
                        indexes_blob: indexes->Ok_0,
                        is_ready,
                        build_range_end_millis,
                        seal_at_millis,
                        select_statement,
                        source_columns_blob: optional_taken(source_columns),
                        stream_offset_blob: optional_taken(stream_offset),
                        unique_key_column_names,
                        aggregates,
                        partition_split_threshold,
                        trace_obj,
                        drop_if_exists,
                        extension,
                        assigned_now_millis: now,
                    },
                )
            },
    {
        let columns_blob: Vec<u8> = RaftMetaStore::encode_blob("create_table", "columns", columns)?;
        let import_format_blob: Option<Vec<u8>> = RaftMetaStore::encode_optional_blob(
            "create_table",
            "import_format",
            import_format,
        )?;
        let indexes_blob: Vec<u8> = RaftMetaStore::encode_blob("create_table", "indexes", indexes)?;
        let source_columns_blob: Option<Vec<u8>> = RaftMetaStore::encode_optional_blob(
            "create_table",
            "source_columns",
            source_columns,
        )?;
        let stream_offset_blob: Option<Vec<u8>> = RaftMetaStore::encode_optional_blob(
            "create_table",
            "stream_offset",
            stream_offset,
        )?;
        Ok(
            Write {
                method: "create_table",
                command: MetaCommand::CreateTableStructured {
                    schema_name,
                    table_name,
                    columns_blob,
                    locations,
                    import_format_blob,
                    indexes_blob,
                    is_ready,
                    build_range_end_millis,
                    seal_at_millis,
                    select_statement,
                    source_columns_blob,
                    stream_offset_blob,
                    unique_key_column_names,
                    aggregates,
                    partition_split_threshold,
                    trace_obj,
                    drop_if_exists,
                    extension,
                    assigned_now_millis: now,
                },
                expected: ResultShape::IdRow(IdRowKind::Table),
            },
        )
    }

    /// Create a table from its arguments, stamped with the leader's clock.
    pub fn create_table(
        schema_name: String,
        table_name: String,
        columns: Result<Vec<u8>, String>,
        locations: Option<Vec<String>>,
        import_format: Option<Result<Vec<u8>, String>>,
        indexes: Result<Vec<u8>, String>,
        is_ready: bool,
        build_range_end_millis: Option<i64>,
        seal_at_millis: Option<i64>,
        select_statement: Option<String>,
        source_columns: Option<Result<Vec<u8>, String>>,
        stream_offset: Option<Result<Vec<u8>, String>>,
        unique_key_column_names: Option<Vec<String>>,
        aggregates: Option<Vec<(String, String)>>,
        partition_split_threshold: Option<u64>,
        trace_obj: Option<String>,
        drop_if_exists: bool,
        extension: Option<String>,
    ) -> (w: Result<Write, CubeError>)
        ensures
            if columns is Err {
                fails(w, "create_table"@, "columns"@, columns->Err_0@)
            } else if import_format is Some && import_format->0 is Err {
                fails(w, "create_table"@, "import_format"@, import_format->0->Err_0@)
            } else if indexes is Err {
                fails(w, "create_table"@, "indexes"@, indexes->Err_0@)
            } else if source_columns is Some && source_columns->0 is Err {
                fails(w, "create_table"@, "source_columns"@, source_columns->0->Err_0@)
            } else if stream_offset is Some && stream_offset->0 is Err {
                fails(w, "create_table"@, "stream_offset"@, stream_offset->0->Err_0@)
            } else {
                w matches Ok(w) && stamped_by_clock(w.command) && writes(
                    w,
                    "create_table"@,
                    MetaCommand::CreateTableStructured {
                        schema_name,
                        table_name,
                        columns_blob: columns->Ok_0,
                        locations,
                        import_format_blob: optional_taken(import_format),
                        indexes_blob: indexes->Ok_0,
                        is_ready,
                        build_range_end_millis,
                        seal_at_millis,
                        select_statement,
                        source_columns_blob: optional_taken(source_columns),
                        stream_offset_blob: optional_taken(stream_offset),
                        unique_key_column_names,
                        aggregates,
                        partition_split_threshold,
                        trace_obj,
                        drop_if_exists,
                        extension,
                        assigned_now_millis: stamp(w.command),
                    },
                )
            },
    {
        let now: i64 = now_millis();
        RaftMetaStore::create_table_at(
            schema_name,
            table_name,
            columns,
            locations,
            import_format,
            indexes,
            is_ready,
            build_range_end_millis,
            seal_at_millis,
            select_statement,
            source_columns,
            stream_offset,
            unique_key_column_names,
            aggregates,
            partition_split_threshold,
            trace_obj,
            drop_if_exists,
            extension,
            now,
        )
    }

    /// Drop the table of the id.
    pub fn drop_table(table_id: u64) -> (w: Write)
        ensures
            writes(w, "drop_table"@, MetaCommand::DropTable { table_id }),
    {
        Write {
            method: "drop_table",
            command: MetaCommand::DropTable { table_id },
            expected: ResultShape::IdRow(IdRowKind::Table),
        }
    }

    /// Seal the table of the id.
    pub fn seal_table(id: u64) -> (w: Write)
        ensures
            writes(w, "seal_table"@, MetaCommand::SealTable { table_id: id }),
    {
        Write {
            method: "seal_table",
            command: MetaCommand::SealTable { table_id: id },
            expected: ResultShape::IdRow(IdRowKind::Table),
        }
    }

    /// Record how large a location of a table is to download.
    pub fn update_location_download_size(
        id: u64,
        location: String,
        download_size: u64,
    ) -> (w: Write)
        ensures
            writes(
                w,
                "update_location_download_size"@,
                MetaCommand::UpdateLocationDownloadSize { table_id: id, location, download_size },
            ),
    {
        Write {
            method: "update_location_download_size",
            command: MetaCommand::UpdateLocationDownloadSize {
                table_id: id,
                location,
                download_size,
            },
            expected: ResultShape::IdRow(IdRowKind::Table),
        }
    }

    /// Mark a table ready or not.
    pub fn table_ready(id: u64, is_ready: bool) -> (w: Write)
        ensures
            writes(w, "table_ready"@, MetaCommand::TableReady { table_id: id, is_ready }),
    {
        Write {
            method: "table_ready",
            command: MetaCommand::TableReady { table_id: id, is_ready },
            expected: ResultShape::IdRow(IdRowKind::Table),
        }
    }

    /// Create the partition that the blob holds.
    pub fn create_partition(partition: Result<Vec<u8>, String>) -> (w: Result<Write, CubeError>)
        ensures
            if partition is Err {
                fails(w, "create_partition"@, "partition"@, partition->Err_0@)
            } else {
                w matches Ok(w) && writes(
                    w,
                    "create_partition"@,
                    MetaCommand::CreatePartition { partition_blob: partition->Ok_0 },
                )
            },
    {
        let partition_blob: Vec<u8> = RaftMetaStore::encode_blob(
            "create_partition",
            "partition",
            partition,
        )?;
        Ok(
            Write {
                method: "create_partition",
                command: MetaCommand::CreatePartition { partition_blob },
                expected: ResultShape::IdRow(IdRowKind::Partition),
            },
        )
    }

    /// Delete the partition of the id.
    pub fn delete_partition(partition_id: u64) -> (w: Write)
        ensures
            writes(w, "delete_partition"@, MetaCommand::DeletePartition { partition_id }),
    {
        Write {
            method: "delete_partition",
            command: MetaCommand::DeletePartition { partition_id },
            expected: ResultShape::IdRow(IdRowKind::Partition),
        }
    }

    /// Mark a partition warmed up.
    pub fn mark_partition_warmed_up(partition_id: u64) -> (w: Write)
        ensures
            writes(
                w,
                "mark_partition_warmed_up"@,
                MetaCommand::MarkPartitionWarmedUp { partition_id },
            ),
    {
        Write {
            method: "mark_partition_warmed_up",
            command: MetaCommand::MarkPartitionWarmedUp { partition_id },
            expected: ResultShape::Unit,
        }
    }

    /// Delete a partition that has both a parent and children.
    pub fn delete_middle_man_partition(partition_id: u64) -> (w: Write)
        ensures
            writes(
                w,
                "delete_middle_man_partition"@,
                MetaCommand::DeleteMiddleManPartition { partition_id },
            ),
    {
        Write {
            method: "delete_middle_man_partition",
            command: MetaCommand::DeleteMiddleManPartition { partition_id },
            expected: ResultShape::IdRow(IdRowKind::Partition),
        }
    }

    /// Swap partitions, from the arguments themselves.
    pub fn swap_active_partitions(
        current_active: Result<Vec<u8>, String>,
        new_active: Result<Vec<u8>, String>,
        new_active_min_max: Result<Vec<u8>, String>,
    ) -> (w: Result<Write, CubeError>)
        ensures
            if current_active is Err {
                fails(w, "swap_active_partitions"@, "current_active"@, current_active->Err_0@)
            } else if new_active is Err {
                fails(w, "swap_active_partitions"@, "new_active"@, new_active->Err_0@)
            } else if new_active_min_max is Err {
                fails(
                    w,
                    "swap_active_partitions"@,
                    "new_active_min_max"@,
                    new_active_min_max->Err_0@,
                )
            } else {
                w matches Ok(w) && writes(
                    w,
                    "swap_active_partitions"@,
                    MetaCommand::SwapActivePartitionsStructured {
                        current_active_blob: current_active->Ok_0,
                        new_active_blob: new_active->Ok_0,
                        new_active_min_max_blob: new_active_min_max->Ok_0,
                    },
                )
            },
    {
        let current_active_blob: Vec<u8> = RaftMetaStore::encode_blob(
            "swap_active_partitions",
            "current_active",
            current_active,
        )?;
        let new_active_blob: Vec<u8> = RaftMetaStore::encode_blob(
            "swap_active_partitions",
            "new_active",
            new_active,
        )?;
        let new_active_min_max_blob: Vec<u8> = RaftMetaStore::encode_blob(
            "swap_active_partitions",
            "new_active_min_max",
            new_active_min_max,
        )?;
        Ok(
            Write {
                method: "swap_active_partitions",
                command: MetaCommand::SwapActivePartitionsStructured {
                    current_active_blob,
                    new_active_blob,
                    new_active_min_max_blob,
                },
                expected: ResultShape::Unit,
            },
        )
    }

    /// Create the multi-partition that the blob holds.
    pub fn create_multi_partition(
        multi_partition: Result<Vec<u8>, String>,
    ) -> (w: Result<Write, CubeError>)
        ensures
            if multi_partition is Err {
                fails(w, "create_multi_partition"@, "multi_partition"@, multi_partition->Err_0@)
            } else {
                w matches Ok(w) && writes(
                    w,
                    "create_multi_partition"@,
                    MetaCommand::CreateMultiPartition {
                        multi_partition_blob: multi_partition->Ok_0,
                    },
                )
            },
    {
        let multi_partition_blob: Vec<u8> = RaftMetaStore::encode_blob(
            "create_multi_partition",
            "multi_partition",
            multi_partition,
        )?;
        Ok(
            Write {
                method: "create_multi_partition",
                command: MetaCommand::CreateMultiPartition { multi_partition_blob },
                expected: ResultShape::IdRow(IdRowKind::MultiPartition),
            },
        )
    }

    /// Finish the split of a multi-partition.
    pub fn commit_multi_partition_split(
        multi_partition_id: u64,
        new_multi_partitions: Vec<u64>,
        new_multi_partition_rows: Vec<u64>,
        old_partitions: Result<Vec<u8>, String>,
        new_partitions: Result<Vec<u8>, String>,
        new_partition_rows: Vec<u64>,
        initial_split: bool,
    ) -> (w: Result<Write, CubeError>)
        ensures
            if old_partitions is Err {
                fails(w, "commit_multi_partition_split"@, "old_partitions"@, old_partitions->Err_0@)
            } else if new_partitions is Err {
                fails(w, "commit_multi_partition_split"@, "new_partitions"@, new_partitions->Err_0@)
            } else {
                w matches Ok(w) && writes(
                    w,
                    "commit_multi_partition_split"@,
                    MetaCommand::CommitMultiPartitionSplit {
                        multi_partition_id,
                        new_multi_partitions,
                        new_multi_partition_rows,
                        old_partitions_blob: old_partitions->Ok_0,
                        new_partitions_blob: new_partitions->Ok_0,
                        new_partition_rows,
                        initial_split,
                    },
                )
            },
    {
        let old_partitions_blob: Vec<u8> = RaftMetaStore::encode_blob(
            "commit_multi_partition_split",
            "old_partitions",
            old_partitions,
        )?;
        let new_partitions_blob: Vec<u8> = RaftMetaStore::encode_blob(
            "commit_multi_partition_split",
            "new_partitions",
            new_partitions,
        )?;
        Ok(
            Write {
                method: "commit_multi_partition_split",
                command: MetaCommand::CommitMultiPartitionSplit {
                    multi_partition_id,
                    new_multi_partitions,
                    new_multi_partition_rows,
                    old_partitions_blob,
                    new_partitions_blob,
                    new_partition_rows,
                    initial_split,
                },
                expected: ResultShape::Unit,
            },
        )
    }

    /// Create an index on a table.
    pub fn create_index(
        schema_name: String,
        table_name: String,
        index_def: Result<Vec<u8>, String>,
    ) -> (w: Result<Write, CubeError>)
        ensures
            if index_def is Err {
                fails(w, "create_index"@, "index_def"@, index_def->Err_0@)
            } else {
                w matches Ok(w) && writes(
                    w,
                    "create_index"@,
                    MetaCommand::CreateIndex {
                        schema_name,
                        table_name,
                        index_def_blob: index_def->Ok_0,
                    },
                )
            },
    {
        let index_def_blob: Vec<u8> = RaftMetaStore::encode_blob(
            "create_index",
            "index_def",
            index_def,
        )?;
        Ok(
            Write {
                method: "create_index",
                command: MetaCommand::CreateIndex { schema_name, table_name, index_def_blob },
                expected: ResultShape::IdRow(IdRowKind::Index),
            },
        )
    }

    /// Create a partitioned index.
    pub fn create_partitioned_index(
        schema: String,
        name: String,
        columns: Result<Vec<u8>, String>,
        if_not_exists: bool,
    ) -> (w: Result<Write, CubeError>)
        ensures
            if columns is Err {
                fails(w, "create_partitioned_index"@, "columns"@, columns->Err_0@)
            } else {
                w matches Ok(w) && writes(
                    w,
                    "create_partitioned_index"@,
                    MetaCommand::CreatePartitionedIndex {
                        schema,
                        name,
                        columns_blob: columns->Ok_0,
                        if_not_exists,
                    },
                )
            },
    {
        let columns_blob: Vec<u8> = RaftMetaStore::encode_blob(
            "create_partitioned_index",
            "columns",
            columns,
        )?;
        Ok(
            Write {
                method: "create_partitioned_index",
                command: MetaCommand::CreatePartitionedIndex {
                    schema,
                    name,
                    columns_blob,
                    if_not_exists,
                },
                expected: ResultShape::IdRow(IdRowKind::MultiIndex),
            },
        )
    }

    /// Drop a partitioned index.
    pub fn drop_partitioned_index(schema: String, name: String) -> (w: Write)
        ensures
            writes(
                w,
                "drop_partitioned_index"@,
                MetaCommand::DropPartitionedIndex { schema, name },
            ),
    {
        Write {
            method: "drop_partitioned_index",
            command: MetaCommand::DropPartitionedIndex { schema, name },
            expected: ResultShape::Unit,
        }
    }

    /// Insert the chunk that the blob holds, as the leader built it.
    pub fn create_chunk(chunk: Result<Vec<u8>, String>) -> (w: Result<Write, CubeError>)
        ensures
            if chunk is Err {
                fails(w, "create_chunk"@, "chunk"@, chunk->Err_0@)
            } else {
                w matches Ok(w) && writes(
                    w,
                    "create_chunk"@,
                    MetaCommand::CreateChunk { chunk_blob: chunk->Ok_0 },
                )
            },
    {
        let chunk_blob: Vec<u8> = RaftMetaStore::encode_blob("create_chunk", "chunk", chunk)?;
        Ok(
            Write {
                method: "create_chunk",
                command: MetaCommand::CreateChunk { chunk_blob },
                expected: ResultShape::IdRow(IdRowKind::Chunk),
            },
        )
    }

    /// Insert the chunks that the blob holds.
    pub fn insert_chunks(chunks: Result<Vec<u8>, String>) -> (w: Result<Write, CubeError>)
        ensures
            if chunks is Err {
                fails(w, "insert_chunks"@, "chunks"@, chunks->Err_0@)
            } else {
                w matches Ok(w) && writes(
                    w,
                    "insert_chunks"@,
                    MetaCommand::InsertChunks { chunks_blob: chunks->Ok_0 },
                )
            },
    {
        let chunks_blob: Vec<u8> = RaftMetaStore::encode_blob("insert_chunks", "chunks", chunks)?;
        Ok(
            Write {
                method: "insert_chunks",
                command: MetaCommand::InsertChunks { chunks_blob },
                expected: ResultShape::IdRowList(IdRowKind::Chunk),
            },
        )
    }

    /// Swap the chunks of a partition for their compaction.
    pub fn swap_compacted_chunks(
        partition_id: u64,
        old_chunk_ids: Vec<u64>,
        new_chunk: u64,
        new_chunk_file_size: u64,
    ) -> (w: Write)
        ensures
            writes(
                w,
                "swap_compacted_chunks"@,
                MetaCommand::SwapCompactedChunks {
                    partition_id,
                    old_chunk_ids,
                    new_chunk,
                    new_chunk_file_size,
                },
            ),
    {
        Write {
            method: "swap_compacted_chunks",
            command: MetaCommand::SwapCompactedChunks {
                partition_id,
                old_chunk_ids,
                new_chunk,
                new_chunk_file_size,
            },
            expected: ResultShape::Bool,
        }
    }

    /// Delete the chunk of the id.
    pub fn delete_chunk(chunk_id: u64) -> (w: Write)
        ensures
            writes(w, "delete_chunk"@, MetaCommand::DeleteChunk { chunk_id }),
    {
        Write {
            method: "delete_chunk",
            command: MetaCommand::DeleteChunk { chunk_id },
            expected: ResultShape::IdRow(IdRowKind::Chunk),
        }
    }

    /// Delete chunks without checks.
    pub fn delete_chunks_without_checks(chunk_ids: Vec<u64>) -> (w: Write)
        ensures
            writes(
                w,
                "delete_chunks_without_checks"@,
                MetaCommand::DeleteChunksWithoutChecks { chunk_ids },
            ),
    {
        Write {
            method: "delete_chunks_without_checks",
            command: MetaCommand::DeleteChunksWithoutChecks { chunk_ids },
            expected: ResultShape::Unit,
        }
    }

    /// Mark a chunk uploaded.
    pub fn chunk_uploaded(chunk_id: u64) -> (w: Write)
        ensures
            writes(w, "chunk_uploaded"@, MetaCommand::ChunkUploaded { chunk_id }),
    {
        Write {
            method: "chunk_uploaded",
            command: MetaCommand::ChunkUploaded { chunk_id },
            expected: ResultShape::IdRow(IdRowKind::Chunk),
        }
    }

    /// Record when rows were last inserted into chunks.
    pub fn chunk_update_last_inserted(
        chunk_ids: Vec<u64>,
        last_inserted_at_millis: Option<i64>,
    ) -> (w: Write)
        ensures
            writes(
                w,
                "chunk_update_last_inserted"@,
                MetaCommand::ChunkUpdateLastInserted { chunk_ids, last_inserted_at_millis },
            ),
    {
        Write {
            method: "chunk_update_last_inserted",
            command: MetaCommand::ChunkUpdateLastInserted { chunk_ids, last_inserted_at_millis },
            expected: ResultShape::Unit,
        }
    }

    /// Deactivate chunks and activate uploaded ones.
    pub fn swap_chunks(
        deactivate_ids: Vec<u64>,
        uploaded_ids_and_sizes: Vec<(u64, Option<u64>)>,
        new_replay_handle_id: Option<u64>,
    ) -> (w: Write)
        ensures
            writes(
                w,
                "swap_chunks"@,
                MetaCommand::SwapChunks {
                    deactivate_ids,
                    uploaded_ids_and_sizes,
                    new_replay_handle_id,
                },
            ),
    {
        Write {
            method: "swap_chunks",
            command: MetaCommand::SwapChunks {
                deactivate_ids,
                uploaded_ids_and_sizes,
                new_replay_handle_id,
            },
            expected: ResultShape::Unit,
        }
    }

    /// Deactivate chunks and activate uploaded ones, without checks.
    pub fn swap_chunks_without_check(
        deactivate_ids: Vec<u64>,
        uploaded_ids_and_sizes: Vec<(u64, Option<u64>)>,
        new_replay_handle_id: Option<u64>,
    ) -> (w: Write)
        ensures
            writes(
                w,
                "swap_chunks_without_check"@,
                MetaCommand::SwapChunksWithoutCheck {
                    deactivate_ids,
                    uploaded_ids_and_sizes,
                    new_replay_handle_id,
                },
            ),
    {
        Write {
            method: "swap_chunks_without_check",
            command: MetaCommand::SwapChunksWithoutCheck {
                deactivate_ids,
                uploaded_ids_and_sizes,
                new_replay_handle_id,
            },
            expected: ResultShape::Unit,
        }
    }

    /// Activate uploaded chunks of a table.
    pub fn activate_chunks(
        table_id: u64,
        uploaded_chunk_ids: Vec<(u64, Option<u64>)>,
        replay_handle_id: Option<u64>,
    ) -> (w: Write)
        ensures
            writes(
                w,
                "activate_chunks"@,
                MetaCommand::ActivateChunks { table_id, uploaded_chunk_ids, replay_handle_id },
            ),
    {
        Write {
            method: "activate_chunks",
            command: MetaCommand::ActivateChunks { table_id, uploaded_chunk_ids, replay_handle_id },
            expected: ResultShape::Unit,
        }
    }

    /// Deactivate a chunk, stamped with the leader's clock. The
    /// time is given.
    pub fn deactivate_chunk_at(chunk_id: u64, now: i64) -> (w: Write)
        ensures
            writes(
                w,
                "deactivate_chunk"@,
                MetaCommand::DeactivateChunk { chunk_id, assigned_now_millis: now },
            ),
    {
        Write {
            method: "deactivate_chunk",
            command: MetaCommand::DeactivateChunk { chunk_id, assigned_now_millis: now },
            expected: ResultShape::Unit,
        }
    }

    /// Deactivate a chunk, stamped with the leader's clock.
    pub fn deactivate_chunk(chunk_id: u64) -> (w: Write)
        ensures
            stamped_by_clock(w.command)
                && writes(
                    w,
                    "deactivate_chunk"@,
                    MetaCommand::DeactivateChunk {
                        chunk_id,
                        assigned_now_millis: stamp(w.command),
                    },
                ),
    {
        let now: i64 = now_millis();
        RaftMetaStore::deactivate_chunk_at(chunk_id, now)
    }

    /// Deactivate chunks, stamped with the leader's clock. The
    /// time is given.
    pub fn deactivate_chunks_at(chunk_ids: Vec<u64>, now: i64) -> (w: Write)
        ensures
            writes(
                w,
                "deactivate_chunks"@,
                MetaCommand::DeactivateChunks { chunk_ids, assigned_now_millis: now },
            ),
    {
        Write {
            method: "deactivate_chunks",
            command: MetaCommand::DeactivateChunks { chunk_ids, assigned_now_millis: now },
            expected: ResultShape::Unit,
        }
    }

    /// Deactivate chunks, stamped with the leader's clock.
    pub fn deactivate_chunks(chunk_ids: Vec<u64>) -> (w: Write)
        ensures
            stamped_by_clock(w.command)
                && writes(
                    w,
                    "deactivate_chunks"@,
                    MetaCommand::DeactivateChunks {
                        chunk_ids,
                        assigned_now_millis: stamp(w.command),
                    },
                ),
    {
        let now: i64 = now_millis();
        RaftMetaStore::deactivate_chunks_at(chunk_ids, now)
    }

    /// Deactivate chunks without checks.
    pub fn deactivate_chunks_without_check(deactivate_ids: Vec<u64>) -> (w: Write)
        ensures
            writes(
                w,
                "deactivate_chunks_without_check"@,
                MetaCommand::DeactivateChunksWithoutCheck { deactivate_ids },
            ),
    {
        Write {
            method: "deactivate_chunks_without_check",
            command: MetaCommand::DeactivateChunksWithoutCheck { deactivate_ids },
            expected: ResultShape::Unit,
        }
    }

    /// Create a write-ahead log of a table.
    pub fn create_wal(table_id: u64, row_count: usize) -> (w: Write)
        ensures
            writes(
                w,
                "create_wal"@,
                MetaCommand::CreateWal { table_id, row_count: row_count as u64 },
            ),
    {
        Write {
            method: "create_wal",
            command: MetaCommand::CreateWal { table_id, row_count: row_count as u64 },
            expected: ResultShape::IdRow(IdRowKind::Wal),
        }
    }

    /// Delete a write-ahead log.
    pub fn delete_wal(wal_id: u64) -> (w: Write)
        ensures
            writes(w, "delete_wal"@, MetaCommand::DeleteWal { wal_id }),
    {
        Write {
            method: "delete_wal",
            command: MetaCommand::DeleteWal { wal_id },
            expected: ResultShape::Unit,
        }
    }

    /// Mark a write-ahead log uploaded.
    pub fn wal_uploaded(wal_id: u64) -> (w: Write)
        ensures
            writes(w, "wal_uploaded"@, MetaCommand::WalUploaded { wal_id }),
    {
        Write {
            method: "wal_uploaded",
            command: MetaCommand::WalUploaded { wal_id },
            expected: ResultShape::IdRow(IdRowKind::Wal),
        }
    }

    /// Add the job that the blob holds.
    pub fn add_job(job: Result<Vec<u8>, String>) -> (w: Result<Write, CubeError>)
        ensures
            if job is Err {
                fails(w, "add_job"@, "job"@, job->Err_0@)
            } else {
                w matches Ok(w) && writes(
                    w,
                    "add_job"@,
                    MetaCommand::AddJob { job_blob: job->Ok_0 },
                )
            },
    {
        let job_blob: Vec<u8> = RaftMetaStore::encode_blob("add_job", "job", job)?;
        Ok(
            Write {
                method: "add_job",
                command: MetaCommand::AddJob { job_blob },
                expected: ResultShape::OptionalIdRow(IdRowKind::Job),
            },
        )
    }

    /// Delete the job of the id.
    pub fn delete_job(job_id: u64) -> (w: Write)
        ensures
            writes(w, "delete_job"@, MetaCommand::DeleteJob { job_id }),
    {
        Write {
            method: "delete_job",
            command: MetaCommand::DeleteJob { job_id },
            expected: ResultShape::IdRow(IdRowKind::Job),
        }
    }

    /// Delete every job.
    pub fn delete_all_jobs() -> (w: Write)
        ensures
            writes(w, "delete_all_jobs"@, MetaCommand::DeleteAllJobs),
    {
        Write {
            method: "delete_all_jobs",
            command: MetaCommand::DeleteAllJobs,
            expected: ResultShape::IdRowList(IdRowKind::Job),
        }
    }

    /// Hand a scheduled job to a server, stamped with the leader's clock. The
    /// time is given.
    pub fn start_processing_job_at(server_name: String, long_term: bool, now: i64) -> (w: Write)
        ensures
            writes(
                w,
                "start_processing_job"@,
                MetaCommand::StartProcessingJob {
                    server_name,
                    long_term,
                    assigned_now_millis: now,
                },
            ),
    {
        Write {
            method: "start_processing_job",
            command: MetaCommand::StartProcessingJob {
                server_name,
                long_term,
                assigned_now_millis: now,
            },
            expected: ResultShape::OptionalIdRow(IdRowKind::Job),
        }
    }

    /// Hand a scheduled job to a server, stamped with the leader's clock.
    pub fn start_processing_job(server_name: String, long_term: bool) -> (w: Write)
        ensures
            stamped_by_clock(w.command)
                && writes(
                    w,
                    "start_processing_job"@,
                    MetaCommand::StartProcessingJob {
                        server_name,
                        long_term,
                        assigned_now_millis: stamp(w.command),
                    },
                ),
    {
        let now: i64 = now_millis();
        RaftMetaStore::start_processing_job_at(server_name, long_term, now)
    }

    /// Set the status of a job, stamped with the leader's clock. The
    /// time is given.
    pub fn update_status_at(
        job_id: u64,
        status: Result<Vec<u8>, String>,
        now: i64,
    ) -> (w: Result<Write, CubeError>)
        ensures
            if status is Err {
                fails(w, "update_status"@, "status"@, status->Err_0@)
            } else {
                w matches Ok(w) && writes(
                    w,
                    "update_status"@,
                    MetaCommand::UpdateStatus {
                        job_id,
                        status_blob: status->Ok_0,
                        assigned_now_millis: now,
                    },
                )
            },
    {
        let status_blob: Vec<u8> = RaftMetaStore::encode_blob("update_status", "status", status)?;
        Ok(
            Write {
                method: "update_status",
                command: MetaCommand::UpdateStatus {
                    job_id,
                    status_blob,
                    assigned_now_millis: now,
                },
                expected: ResultShape::IdRow(IdRowKind::Job),
            },
        )
    }

    /// Set the status of a job, stamped with the leader's clock.
    pub fn update_status(
        job_id: u64,
        status: Result<Vec<u8>, String>,
    ) -> (w: Result<Write, CubeError>)
        ensures
            if status is Err {
                fails(w, "update_status"@, "status"@, status->Err_0@)
            } else {
                w matches Ok(w) && stamped_by_clock(w.command) && writes(
                    w,
                    "update_status"@,
                    MetaCommand::UpdateStatus {
                        job_id,
                        status_blob: status->Ok_0,
                        assigned_now_millis: stamp(w.command),
                    },
                )
            },
    {
        let now: i64 = now_millis();
        RaftMetaStore::update_status_at(job_id, status, now)
    }

    /// Record a job's heart beat, stamped with the leader's clock. The
    /// time is given.
    pub fn update_heart_beat_at(job_id: u64, now: i64) -> (w: Write)
        ensures
            writes(
                w,
                "update_heart_beat"@,
                MetaCommand::UpdateHeartBeat { job_id, assigned_now_millis: now },
            ),
    {
        Write {
            method: "update_heart_beat",
            command: MetaCommand::UpdateHeartBeat { job_id, assigned_now_millis: now },
            expected: ResultShape::IdRow(IdRowKind::Job),
        }
    }

    /// Record a job's heart beat, stamped with the leader's clock.
    pub fn update_heart_beat(job_id: u64) -> (w: Write)
        ensures
            stamped_by_clock(w.command)
                && writes(
                    w,
                    "update_heart_beat"@,
                    MetaCommand::UpdateHeartBeat { job_id, assigned_now_millis: stamp(w.command) },
                ),
    {
        let now: i64 = now_millis();
        RaftMetaStore::update_heart_beat_at(job_id, now)
    }

    /// Create a source or update its credentials.
    pub fn create_or_update_source(
        name: String,
        credentials: Result<Vec<u8>, String>,
    ) -> (w: Result<Write, CubeError>)
        ensures
            if credentials is Err {
                fails(w, "create_or_update_source"@, "credentials"@, credentials->Err_0@)
            } else {
                w matches Ok(w) && writes(
                    w,
                    "create_or_update_source"@,
                    MetaCommand::CreateOrUpdateSource { name, credentials_blob: credentials->Ok_0 },
                )
            },
    {
        let credentials_blob: Vec<u8> = RaftMetaStore::encode_blob(
            "create_or_update_source",
            "credentials",
            credentials,
        )?;
        Ok(
            Write {
                method: "create_or_update_source",
                command: MetaCommand::CreateOrUpdateSource { name, credentials_blob },
                expected: ResultShape::IdRow(IdRowKind::Source),
            },
        )
    }

    /// Delete the source of the id.
    pub fn delete_source(id: u64) -> (w: Write)
        ensures
            writes(w, "delete_source"@, MetaCommand::DeleteSource { id }),
    {
        Write {
            method: "delete_source",
            command: MetaCommand::DeleteSource { id },
            expected: ResultShape::IdRow(IdRowKind::Source),
        }
    }

    /// Create a replay handle of one location, stamped with the leader's clock. The
    /// time is given.
    pub fn create_replay_handle_at(
        table_id: u64,
        location_index: usize,
        seq_pointer: Result<Vec<u8>, String>,
        now: i64,
    ) -> (w: Result<Write, CubeError>)
        ensures
            if seq_pointer is Err {
                fails(w, "create_replay_handle"@, "seq_pointer"@, seq_pointer->Err_0@)
            } else {
                w matches Ok(w) && writes(
                    w,
                    "create_replay_handle"@,
                    MetaCommand::CreateReplayHandle {
                        table_id,
                        location_index: location_index as u64,
                        seq_pointer_blob: seq_pointer->Ok_0,
                        assigned_now_millis: now,
                    },
                )
            },
    {
        let seq_pointer_blob: Vec<u8> = RaftMetaStore::encode_blob(
            "create_replay_handle",
            "seq_pointer",
            seq_pointer,
        )?;
        Ok(
            Write {
                method: "create_replay_handle",
                command: MetaCommand::CreateReplayHandle {
                    table_id,
                    location_index: location_index as u64,
                    seq_pointer_blob,
                    assigned_now_millis: now,
                },
                expected: ResultShape::IdRow(IdRowKind::ReplayHandle),
            },
        )
    }

    /// Create a replay handle of one location, stamped with the leader's clock.
    pub fn create_replay_handle(
        table_id: u64,
        location_index: usize,
        seq_pointer: Result<Vec<u8>, String>,
    ) -> (w: Result<Write, CubeError>)
        ensures
            if seq_pointer is Err {
                fails(w, "create_replay_handle"@, "seq_pointer"@, seq_pointer->Err_0@)
            } else {
                w matches Ok(w) && stamped_by_clock(w.command) && writes(
                    w,
                    "create_replay_handle"@,
                    MetaCommand::CreateReplayHandle {
                        table_id,
                        location_index: location_index as u64,
                        seq_pointer_blob: seq_pointer->Ok_0,
                        assigned_now_millis: stamp(w.command),
                    },
                )
            },
    {
        let now: i64 = now_millis();
        RaftMetaStore::create_replay_handle_at(table_id, location_index, seq_pointer, now)
    }

    /// Create a replay handle of all locations, stamped with the leader's clock. The
    /// time is given.
    pub fn create_replay_handle_from_seq_pointers_at(
        table_id: u64,
        seq_pointers: Result<Vec<u8>, String>,
        now: i64,
    ) -> (w: Result<Write, CubeError>)
        ensures
            if seq_pointers is Err {
                fails(
                    w,
                    "create_replay_handle_from_seq_pointers"@,
                    "seq_pointers"@,
                    seq_pointers->Err_0@,
                )
            } else {
                w matches Ok(w) && writes(
                    w,
                    "create_replay_handle_from_seq_pointers"@,
                    MetaCommand::CreateReplayHandleFromSeqPointers {
                        table_id,
                        seq_pointers_blob: seq_pointers->Ok_0,
                        assigned_now_millis: now,
                    },
                )
            },
    {
        let seq_pointers_blob: Vec<u8> = RaftMetaStore::encode_blob(
            "create_replay_handle_from_seq_pointers",
            "seq_pointers",
            seq_pointers,
        )?;
        Ok(
            Write {
                method: "create_replay_handle_from_seq_pointers",
                command: MetaCommand::CreateReplayHandleFromSeqPointers {
                    table_id,
                    seq_pointers_blob,
                    assigned_now_millis: now,
                },
                expected: ResultShape::IdRow(IdRowKind::ReplayHandle),
            },
        )
    }

    /// Create a replay handle of all locations, stamped with the leader's clock.
    pub fn create_replay_handle_from_seq_pointers(
        table_id: u64,
        seq_pointers: Result<Vec<u8>, String>,
    ) -> (w: Result<Write, CubeError>)
        ensures
            if seq_pointers is Err {
                fails(
                    w,
                    "create_replay_handle_from_seq_pointers"@,
                    "seq_pointers"@,
                    seq_pointers->Err_0@,
                )
            } else {
                w matches Ok(w) && stamped_by_clock(w.command) && writes(
                    w,
                    "create_replay_handle_from_seq_pointers"@,
                    MetaCommand::CreateReplayHandleFromSeqPointers {
                        table_id,
                        seq_pointers_blob: seq_pointers->Ok_0,
                        assigned_now_millis: stamp(w.command),
                    },
                )
            },
    {
        let now: i64 = now_millis();
        RaftMetaStore::create_replay_handle_from_seq_pointers_at(table_id, seq_pointers, now)
    }

    /// Set whether a replay handle failed.
    pub fn update_replay_handle_failed_if_exists(id: u64, failed: bool) -> (w: Write)
        ensures
            writes(
                w,
                "update_replay_handle_failed_if_exists"@,
                MetaCommand::UpdateReplayHandleFailedIfExists { id, failed },
            ),
    {
        Write {
            method: "update_replay_handle_failed_if_exists",
            command: MetaCommand::UpdateReplayHandleFailedIfExists { id, failed },
            expected: ResultShape::Unit,
        }
    }

    /// Replace replay handles by one.
    pub fn replace_replay_handles(
        old_ids: Vec<u64>,
        new_seq_pointer: Result<Vec<u8>, String>,
    ) -> (w: Result<Write, CubeError>)
        ensures
            if new_seq_pointer is Err {
                fails(w, "replace_replay_handles"@, "new_seq_pointer"@, new_seq_pointer->Err_0@)
            } else {
                w matches Ok(w) && writes(
                    w,
                    "replace_replay_handles"@,
                    MetaCommand::ReplaceReplayHandles {
                        old_ids,
                        new_seq_pointer_blob: new_seq_pointer->Ok_0,
                    },
                )
            },
    {
        let new_seq_pointer_blob: Vec<u8> = RaftMetaStore::encode_blob(
            "replace_replay_handles",
            "new_seq_pointer",
            new_seq_pointer,
        )?;
        Ok(
            Write {
                method: "replace_replay_handles",
                command: MetaCommand::ReplaceReplayHandles { old_ids, new_seq_pointer_blob },
                expected: ResultShape::OptionalIdRow(IdRowKind::ReplayHandle),
            },
        )
    }

    /// Select a snapshot, its number in two halves.
    pub fn set_current_snapshot(snapshot_id: u128) -> (w: Write)
        ensures
            writes(
                w,
                "set_current_snapshot"@,
                MetaCommand::SetCurrentSnapshot {
                    snapshot_id_low: (snapshot_id % 0x1_0000_0000_0000_0000) as u64,
                    snapshot_id_high: (snapshot_id / 0x1_0000_0000_0000_0000) as u64,
                },
            ),
    {
        let snapshot_id_low: u64 = (snapshot_id % 0x1_0000_0000_0000_0000) as u64;
        let snapshot_id_high: u64 = (snapshot_id / 0x1_0000_0000_0000_0000) as u64;
        Write {
            method: "set_current_snapshot",
            command: MetaCommand::SetCurrentSnapshot { snapshot_id_low, snapshot_id_high },
            expected: ResultShape::Unit,
        }
    }

}

pub open spec fn optional_taken(value: Option<Result<Vec<u8>, String>>) -> Option<Vec<u8>> {
    match value {
        None => None,
        Some(v) => Some(v->Ok_0),
    }
}

/// A value that may be absent is taken as it was encoded, and an absent one stays absent.
pub proof fn law_optional_values(blob: Vec<u8>)
    ensures
        optional_taken(None) is None,
        optional_taken(Some(Ok(blob))) == Some(blob),
{
}

// ---------------------------------------------------------------------------
// Results
// ---------------------------------------------------------------------------

/// The error of a write whose result does not have the form that was expected.
pub open spec fn is_mismatch(
    e: CubeError,
    method: Seq<char>,
    expected: ResultShape,
    found: MetaCommandResult,
) -> bool {
    e.message@ == mismatch_text(
        method,
        MetaCommandResultMismatch { expected, found: result::shape_of(found) },
    )
}

impl RaftMetaStore {
    /// Ends a write that gives nothing back.
    pub fn finish_unit(method: &'static str, applied: Result<MetaCommandResult, CubeError>) -> (r:
        Result<(), CubeError>)
        ensures
            match applied {
                Err(e) => r == Err::<(), _>(e),
                Ok(x) => match r {
                    Ok(_) => result::shape_of(x) == ResultShape::Unit,
                    Err(e) => result::shape_of(x) != ResultShape::Unit && is_mismatch(
                        e,
                        method@,
                        ResultShape::Unit,
                        x,
                    ),
                },
            },
    {
        match applied {
            Err(e) => Err(e),
            Ok(x) => match x.into_unit() {
                Ok(_) => Ok(()),
                Err(m) => Err(RaftMetaStore::mismatch(method, m)),
            },
        }
    }

    /// Ends a write that gives true or false back.
    pub fn finish_bool(method: &'static str, applied: Result<MetaCommandResult, CubeError>) -> (r:
        Result<bool, CubeError>)
        ensures
            match applied {
                Err(e) => r == Err::<bool, _>(e),
                Ok(x) => match r {
                    Ok(v) => x == MetaCommandResult::Bool(v),
                    Err(e) => result::shape_of(x) != ResultShape::Bool && is_mismatch(
                        e,
                        method@,
                        ResultShape::Bool,
                        x,
                    ),
                },
            },
    {
        match applied {
            Err(e) => Err(e),
            Ok(x) => match x.into_bool() {
                Ok(v) => Ok(v),
                Err(m) => Err(RaftMetaStore::mismatch(method, m)),
            },
        }
    }

    /// Ends a write that gives a row back.
    pub fn finish_id_row(
        method: &'static str,
        kind: IdRowKind,
        applied: Result<MetaCommandResult, CubeError>,
    ) -> (r: Result<Vec<u8>, CubeError>)
        ensures
            match applied {
                Err(e) => r == Err::<Vec<u8>, _>(e),
                Ok(x) => match r {
                    Ok(payload) => x == (MetaCommandResult::IdRow { kind, payload }),
                    Err(e) => result::shape_of(x) != ResultShape::IdRow(kind) && is_mismatch(
                        e,
                        method@,
                        ResultShape::IdRow(kind),
                        x,
                    ),
                },
            },
    {
        match applied {
            Err(e) => Err(e),
            Ok(x) => match x.into_id_row(kind) {
                Ok(payload) => Ok(payload),
                Err(m) => Err(RaftMetaStore::mismatch(method, m)),
            },
        }
    }

    /// Ends a write that gives a row back, or none.
    pub fn finish_optional_id_row(
        method: &'static str,
        kind: IdRowKind,
        applied: Result<MetaCommandResult, CubeError>,
    ) -> (r: Result<Option<Vec<u8>>, CubeError>)
        ensures
            match applied {
                Err(e) => r == Err::<Option<Vec<u8>>, _>(e),
                Ok(x) => match r {
                    Ok(payload) => x == (MetaCommandResult::OptionalIdRow { kind, payload }),
                    Err(e) => result::shape_of(x) != ResultShape::OptionalIdRow(kind)
                        && is_mismatch(e, method@, ResultShape::OptionalIdRow(kind), x),
                },
            },
    {
        match applied {
            Err(e) => Err(e),
            Ok(x) => match x.into_optional_id_row(kind) {
                Ok(payload) => Ok(payload),
                Err(m) => Err(RaftMetaStore::mismatch(method, m)),
            },
        }
    }

    /// Ends a write that gives rows back.
    pub fn finish_id_row_list(
        method: &'static str,
        kind: IdRowKind,
        applied: Result<MetaCommandResult, CubeError>,
    ) -> (r: Result<Vec<u8>, CubeError>)
        ensures
            match applied {
                Err(e) => r == Err::<Vec<u8>, _>(e),
                Ok(x) => match r {
                    Ok(payload) => x == (MetaCommandResult::IdRowList { kind, payload }),
                    Err(e) => result::shape_of(x) != ResultShape::IdRowList(kind) && is_mismatch(
                        e,
                        method@,
                        ResultShape::IdRowList(kind),
                        x,
                    ),
                },
            },
    {
        match applied {
            Err(e) => Err(e),
            Ok(x) => match x.into_id_row_list(kind) {
                Ok(payload) => Ok(payload),
                Err(m) => Err(RaftMetaStore::mismatch(method, m)),
            },
        }
    }
}

/// A write that is applied without an error gives its caller a result of the form that
/// the caller expects, whatever the store replied.
pub proof fn law_expected_result(w: Write, method: Seq<char>, reply: rocks_apply::StoreReply)
    requires
        writes(w, method, w.command),
        rocks_apply::reply_fits(w.expected, reply),
        rocks_apply::dispatched(w.command) is Call,
    ensures
        ({
            let call = rocks_apply::dispatched(w.command)->Call_0;
            rocks_apply::finished(
                rocks_apply::call_shape(call),
                rocks_apply::optional_command(call),
                reply,
            ) matches Ok(x) ==> result::shape_of(x) == w.expected
        }),
{
    rocks_apply::law_result_shape(w.command);
}

/// A write reaches the store as the write that its caller made: the call that its command
/// becomes is that of the same method, and carries out that command.
pub proof fn law_write_reaches_the_store(w: Write, method: Seq<char>, command: MetaCommand)
    requires
        writes(w, method, command),
    ensures
        rocks_apply::dispatched(w.command) matches rocks_apply::Dispatched::Call(call)
            ==> rocks_apply::write_behind(call) == method && rocks_apply::carried_out(call)
            == command,
        rocks_apply::numbers_fit(command) ==> rocks_apply::dispatched(w.command) is Call,
{
    rocks_apply::law_dispatch_succeeds(command);
    if let rocks_apply::Dispatched::Call(call) = rocks_apply::dispatched(w.command) {
        rocks_apply::law_call_carries_out_its_command(command, call);
    }
}

/// A command that the leader stamps with its own clock is not refused for its stamp:
/// what the clock gives is a time that every replica can hold. Only the other numbers and
/// times of a command can be refused.
pub proof fn law_stamp_is_accepted(command: MetaCommand)
    requires
        stamped_by_clock(command),
    ensures
        rocks_apply::dispatched(command) is Call <==> match command {
            MetaCommand::CreateReplayHandle { location_index, .. } => location_index <= usize::MAX,
            MetaCommand::CreateTableStructured { build_range_end_millis, seal_at_millis, .. } =>
                rocks_apply::optional_millis(
                    build_range_end_millis,
                ) && rocks_apply::optional_millis(
                    seal_at_millis,
                ),
            _ => true,
        },
{
}

/// The number of a snapshot reaches the store as its caller gave it.
pub proof fn law_snapshot_id(w: Write, snapshot_id: u128)
    requires
        writes(
            w,
            "set_current_snapshot"@,
            MetaCommand::SetCurrentSnapshot {
                snapshot_id_low: (snapshot_id % 0x1_0000_0000_0000_0000) as u64,
                snapshot_id_high: (snapshot_id / 0x1_0000_0000_0000_0000) as u64,
            },
        ),
    ensures
        rocks_apply::dispatched(w.command) == rocks_apply::Dispatched::Call(
            rocks_apply::StoreCall::SetCurrentSnapshot { snapshot_id },
        ),
{
    rocks_apply::law_halves(snapshot_id);
}

// ---------------------------------------------------------------------------
// Snapshots of the state machine
// ---------------------------------------------------------------------------

/// The name under which the latest snapshot is kept remotely.
pub const REMOTE_SNAPSHOT_NAME: &'static str = "latest.bin";

/// A snapshot that is being taken: it covers the log up to `applied`, and that many
/// entries behind it are to stay in the log.
#[derive(Debug)]
pub struct SnapshotRun {
    pub metadata: SnapshotMetadata,
    pub keep_past: u64,
}

/// The term of the entry in a row, 0 where there is none.
pub open spec fn term_or_zero(row: Option<Seq<u8>>) -> u64 {
    match row {
        Some(b) => match proto::entry_parsed(b) {
            Some(e) => e.term,
            None => 0,
        },
        None => 0,
    }
}

/// The index below which the log is dropped once a snapshot covers it up to
/// `applied`: `keep_past` entries behind the snapshot stay, and with nothing to drop
/// the log is left alone.
pub open spec fn compacts_to(applied: u64, keep_past: u64) -> Option<u64> {
    if applied - keep_past > 1 {
        Some((applied - keep_past) as u64)
    } else {
        None
    }
}

/// Where to compact the log, if at all.
pub fn compact_target(applied: u64, keep_past: u64) -> (r: Option<u64>)
    ensures
        r == compacts_to(applied, keep_past),
{
    if applied > keep_past {
        let compact_to: u64 = applied - keep_past;
        if compact_to > 1 {
            return Some(compact_to);
        }
    }
    None
}

fn copy_ids(ids: &Vec<u64>) -> (r: Vec<u64>)
    ensures
        r@ == ids@,
{
    let mut r: Vec<u64> = Vec::new();
    let mut i: usize = 0;
    while i < ids.len()
        invariant
            i <= ids@.len(),
            r@ == ids@.take(i as int),
        decreases ids@.len() - i,
    {
        r.push(ids[i]);
        i = i + 1;
        assert(r@ =~= ids@.take(i as int));
    }
    assert(r@ =~= ids@);
    r
}

fn copy_conf_state(cs: &ConfState) -> (r: ConfState)
    ensures
        r@ == cs@,
{
    ConfState {
        voters: copy_ids(&cs.voters),
        learners: copy_ids(&cs.learners),
        voters_outgoing: copy_ids(&cs.voters_outgoing),
        learners_next: copy_ids(&cs.learners_next),
        auto_leave: cs.auto_leave,
    }
}

/// The metadata of a snapshot, from the members and the rows of the applied index and of the
/// entry there.
pub open spec fn snapshot_metadata(
    members: proto::ConfStateView,
    applied_row: Option<Seq<u8>>,
    entry_row: Option<Seq<u8>>,
) -> proto::SnapshotMetadataView {
    proto::SnapshotMetadataView {
        conf_state: members,
        index: match storage::applied_at(applied_row) {
            Some(applied) => applied,
            None => 0,
        },
        term: term_or_zero(entry_row),
    }
}

/// A snapshot stands at the index that was stored as applied last, at the term of the entry
/// there, with the members of the group; before anything was applied it stands at 0.
pub proof fn law_snapshot_stands_at_what_was_applied(
    d: storage::Disk,
    members: proto::ConfStateView,
    idx: u64,
    entry_row: Option<Seq<u8>>,
)
    ensures
        ({
            let after = storage::write_one(
                d,
                storage::put_meta(storage::applied_index_key(), storage::key_of(idx)),
            );
            let m = snapshot_metadata(
                members,
                storage::meta_row(after, storage::applied_index_key()),
                entry_row,
            );
            &&& m.index == idx
            &&& m.conf_state == members
            &&& entry_row matches Some(row) ==> (proto::entry_parsed(row) matches Some(e) ==> m.term
                == e.term)
        }),
        snapshot_metadata(members, None, None).index == 0,
        snapshot_metadata(members, None, None).term == 0,
{
    storage::law_applied_index(d, idx);
}

impl SnapshotRun {
    /// Begins to take a snapshot at the applied index, from the rows of that index and
    /// of the entry there. Both rows may be absent: then the snapshot is that of an
    /// empty group.
    pub fn begin(
        storage: &RaftStorage,
        applied_row: Option<&[u8]>,
        entry_row: Option<&[u8]>,
        keep_past: u64,
    ) -> (run: SnapshotRun)
        ensures
            run.keep_past == keep_past,
            run.metadata@ == snapshot_metadata(
                storage.conf_state@,
                storage::opt_bytes(applied_row),
                storage::opt_bytes(entry_row),
            ),
    {
        let index: u64 = storage.applied_index_or_zero(applied_row);
        let term: u64 = match storage.term(entry_row) {
            Ok(term) => term,
            Err(_) => 0,
        };
        let conf_state: ConfState = copy_conf_state(&storage.conf_state);
        SnapshotRun { metadata: SnapshotMetadata { conf_state, index, term }, keep_past }
    }

    /// Says how to save the snapshot once the state machine is packed.
    pub fn save(&self, storage: &RaftStorage, data: Vec<u8>) -> (plan: SavePlan)
        requires
            proto::conf_state_fits(self.metadata@.conf_state),
        ensures
            storage::saves(plan, proto::SnapshotView { data: data@, metadata: self.metadata@ }),
    {
        let metadata: SnapshotMetadata = SnapshotMetadata {
            conf_state: copy_conf_state(&self.metadata.conf_state),
            index: self.metadata.index,
            term: self.metadata.term,
        };
        let snapshot: Snapshot = Snapshot { data, metadata };
        assert(snapshot@ =~= proto::SnapshotView { data: data@, metadata: self.metadata@ });
        storage.save_snapshot(&snapshot)
    }

    /// The remote name to upload the data file to, where there is such a file. The local
    /// copy is what counts: a failed upload does not fail the snapshot.
    pub fn upload(&self, data_file_exists: bool) -> (r: Option<&'static str>)
        ensures
            match r {
                Some(name) => data_file_exists && name@ == REMOTE_SNAPSHOT_NAME@,
                None => !data_file_exists,
            },
    {
        if data_file_exists {
            Some(REMOTE_SNAPSHOT_NAME)
        } else {
            None
        }
    }

    /// Says how to drop the entries that the snapshot covers, if any are to go.
    pub fn compact(&self, storage: &RaftStorage) -> (op: Option<WriteOp>)
        ensures
            match compacts_to(self.metadata.index, self.keep_past) {
                Some(compact_to) => op matches Some(op) && op@ == storage::compact_op(compact_to),
                None => op is None,
            },
    {
        match compact_target(self.metadata.index, self.keep_past) {
            Some(compact_to) => Some(storage.compact(compact_to)),
            None => None,
        }
    }
}

/// A snapshot stands at the term of the entry that was applied last, and at term 0 where that
/// entry is not there or cannot be parsed.
pub proof fn law_snapshot_term(row: Seq<u8>)
    ensures
        term_or_zero(None) == 0,
        proto::entry_parsed(row) matches Some(e) ==> term_or_zero(Some(row)) == e.term,
        proto::entry_parsed(row) is None ==> term_or_zero(Some(row)) == 0,
{
}

/// Compacting behind a snapshot at `applied` drops what is further back than `keep_past`
/// entries. Only where nothing but the zeroth entry would go is the log left alone.
pub proof fn law_snapshot_drops_old_entries(
    d: storage::Disk,
    applied: u64,
    keep_past: u64,
    i: u64,
)
    requires
        storage::keys_are_indices(d),
    ensures
        compacts_to(applied, keep_past) is None <==> applied <= keep_past + 1,
        i + keep_past < applied ==> (compacts_to(applied, keep_past) matches Some(compact_to) ==> {
            let after = storage::write_one(d, storage::compact_op(compact_to));
            !storage::log_of(after).dom().contains(i)
        }),
{
    if let Some(compact_to) = compacts_to(applied, keep_past) {
        storage::law_compact(d, compact_to);
    }
}

/// Compacting behind a snapshot at `applied` keeps the entry at `applied`, the
/// `keep_past` entries before it and everything after it, as they are.
pub proof fn law_snapshot_keeps_entries(d: storage::Disk, applied: u64, keep_past: u64, i: u64)
    requires
        storage::keys_are_indices(d),
        i >= applied - keep_past,
    ensures
        compacts_to(applied, keep_past) matches Some(compact_to) ==> {
            let after = storage::write_one(d, storage::compact_op(compact_to));
            &&& 1 < compact_to <= applied
            &&& storage::log_of(after).dom().contains(i) <==> storage::log_of(d).dom().contains(i)
            &&& storage::log_of(d).dom().contains(i) ==> storage::log_of(after)[i]
                == storage::log_of(d)[i]
        },
{
    if let Some(compact_to) = compacts_to(applied, keep_past) {
        storage::law_compact(d, compact_to);
    }
}

} // verus!
