//! How a committed command reaches the local store.
//!
//! Every replica applies the same commands in the same order, so what a command
//! does to the store depends on the command alone: the times that it writes are
//! those that the leader stamped on it, and the rows that it inserts are those that
//! the leader built. A command becomes one call on the store, a batch one call for
//! each of its commands; what the call gives is wrapped for the caller that proposed
//! the command.

#[allow(unused_imports)]
use crate::codec;
use crate::command::MetaCommand;
use crate::error::CubeError;
#[allow(unused_imports)]
use crate::flex;
use crate::flex::flex_root;
#[allow(unused_imports)]
use crate::flex::Flex;
#[allow(unused_imports)]
use crate::result;
use crate::result::{IdRowKind, MetaCommandResult, ResultShape};
#[allow(unused_imports)]
use crate::text;
use crate::text::{push_decimal, push_signed_decimal};
#[allow(unused_imports)]
use crate::wire;
use chrono::{TimeZone, Utc};
use vstd::prelude::*;

verus! {

/// A call on the local store. Blobs are still encoded, and times are milliseconds
/// since the epoch that a date can hold.
#[derive(Debug, PartialEq)]
pub enum StoreCall {
    CreateSchema { schema_name: String, if_not_exists: bool },
    RenameSchema { old_schema_name: String, new_schema_name: String },
    RenameSchemaById { schema_id: u64, new_schema_name: String },
    DeleteSchema { schema_name: String },
    DeleteSchemaById { schema_id: u64 },
    CreateTableWithNow {
        schema_name: String,
        table_name: String,
        columns_blob: Vec<u8>,
        locations: Option<Vec<String>>,
        import_format_blob: Option<Vec<u8>>,
        indexes_blob: Vec<u8>,
        is_ready: bool,
        build_range_end_millis: Option<i64>,
        seal_at_millis: Option<i64>,
        select_statement: Option<String>,
        source_columns_blob: Option<Vec<u8>>,
        stream_offset_blob: Option<Vec<u8>>,
        unique_key_column_names: Option<Vec<String>>,
        aggregates: Option<Vec<(String, String)>>,
        partition_split_threshold: Option<u64>,
        trace_obj: Option<String>,
        drop_if_exists: bool,
        extension: Option<String>,
        now_millis: i64,
    },
    DropTable { table_id: u64 },
    SealTable { table_id: u64 },
    UpdateLocationDownloadSize { table_id: u64, location: String, download_size: u64 },
    TableReady { table_id: u64, is_ready: bool },
    CreatePartition { partition_blob: Vec<u8> },
    DeletePartition { partition_id: u64 },
    MarkPartitionWarmedUp { partition_id: u64 },
    DeleteMiddleManPartition { partition_id: u64 },
    SwapActivePartitions {
        current_active_blob: Vec<u8>,
        new_active_blob: Vec<u8>,
        new_active_min_max_blob: Vec<u8>,
    },
    CreateMultiPartition { multi_partition_blob: Vec<u8> },
    CommitMultiPartitionSplit {
        multi_partition_id: u64,
        new_multi_partitions: Vec<u64>,
        new_multi_partition_rows: Vec<u64>,
        old_partitions_blob: Vec<u8>,
        new_partitions_blob: Vec<u8>,
        new_partition_rows: Vec<u64>,
        initial_split: bool,
    },
    CreateIndex { schema_name: String, table_name: String, index_def_blob: Vec<u8> },
    CreatePartitionedIndex {
        schema: String,
        name: String,
        columns_blob: Vec<u8>,
        if_not_exists: bool,
    },
    DropPartitionedIndex { schema: String, name: String },
    InsertChunkPreBuilt { chunk_blob: Vec<u8> },
    InsertChunks { chunks_blob: Vec<u8> },
    SwapCompactedChunks {
        partition_id: u64,
        old_chunk_ids: Vec<u64>,
        new_chunk: u64,
        new_chunk_file_size: u64,
    },
    DeleteChunk { chunk_id: u64 },
    DeleteChunksWithoutChecks { chunk_ids: Vec<u64> },
    ChunkUploaded { chunk_id: u64 },
    ChunkUpdateLastInserted { chunk_ids: Vec<u64>, last_inserted_at_millis: Option<i64> },
    SwapChunks {
        deactivate_ids: Vec<u64>,
        uploaded_ids_and_sizes: Vec<(u64, Option<u64>)>,
        new_replay_handle_id: Option<u64>,
    },
    SwapChunksWithoutCheck {
        deactivate_ids: Vec<u64>,
        uploaded_ids_and_sizes: Vec<(u64, Option<u64>)>,
        new_replay_handle_id: Option<u64>,
    },
    ActivateChunks {
        table_id: u64,
        uploaded_chunk_ids: Vec<(u64, Option<u64>)>,
        replay_handle_id: Option<u64>,
    },
    DeactivateChunkWithNow { chunk_id: u64, now_millis: i64 },
    DeactivateChunksWithNow { chunk_ids: Vec<u64>, now_millis: i64 },
    DeactivateChunksWithoutCheck { deactivate_ids: Vec<u64> },
    CreateWal { table_id: u64, row_count: usize },
    DeleteWal { wal_id: u64 },
    WalUploaded { wal_id: u64 },
    AddJob { job_blob: Vec<u8> },
    DeleteJob { job_id: u64 },
    DeleteAllJobs,
    StartProcessingJobWithNow { server_name: String, long_term: bool, now_millis: i64 },
    UpdateStatusWithNow { job_id: u64, status_blob: Vec<u8>, now_millis: i64 },
    UpdateHeartBeatWithNow { job_id: u64, now_millis: i64 },
    CreateOrUpdateSource { name: String, credentials_blob: Vec<u8> },
    DeleteSource { id: u64 },
    CreateReplayHandleWithNow {
        table_id: u64,
        location_index: usize,
        seq_pointer_blob: Vec<u8>,
        now_millis: i64,
    },
    CreateReplayHandleFromSeqPointersWithNow {
        table_id: u64,
        seq_pointers_blob: Vec<u8>,
        now_millis: i64,
    },
    UpdateReplayHandleFailedIfExists { id: u64, failed: bool },
    ReplaceReplayHandles { old_ids: Vec<u64>, new_seq_pointer_blob: Vec<u8> },
    SetCurrentSnapshot { snapshot_id: u128 },
}

/// The form of what a call gives back.
pub open spec fn call_shape(call: StoreCall) -> ResultShape {
    match call {
        StoreCall::CreateSchema { .. }
        | StoreCall::RenameSchema { .. }
        | StoreCall::RenameSchemaById { .. } => ResultShape::IdRow(IdRowKind::Schema),
        StoreCall::DeleteSchema { .. }
        | StoreCall::DeleteSchemaById { .. }
        | StoreCall::MarkPartitionWarmedUp { .. }
        | StoreCall::SwapActivePartitions { .. }
        | StoreCall::CommitMultiPartitionSplit { .. }
        | StoreCall::DropPartitionedIndex { .. }
        | StoreCall::DeleteChunksWithoutChecks { .. }
        | StoreCall::ChunkUpdateLastInserted { .. }
        | StoreCall::SwapChunks { .. }
        | StoreCall::SwapChunksWithoutCheck { .. }
        | StoreCall::ActivateChunks { .. }
        | StoreCall::DeactivateChunkWithNow { .. }
        | StoreCall::DeactivateChunksWithNow { .. }
        | StoreCall::DeactivateChunksWithoutCheck { .. }
        | StoreCall::DeleteWal { .. }
        | StoreCall::UpdateReplayHandleFailedIfExists { .. }
        | StoreCall::SetCurrentSnapshot { .. } => ResultShape::Unit,
        StoreCall::CreateTableWithNow { .. }
        | StoreCall::DropTable { .. }
        | StoreCall::SealTable { .. }
        | StoreCall::UpdateLocationDownloadSize { .. }
        | StoreCall::TableReady { .. } => ResultShape::IdRow(IdRowKind::Table),
        StoreCall::CreatePartition { .. }
        | StoreCall::DeletePartition { .. }
        | StoreCall::DeleteMiddleManPartition { .. } => ResultShape::IdRow(IdRowKind::Partition),
        StoreCall::CreateMultiPartition { .. } => ResultShape::IdRow(IdRowKind::MultiPartition),
        StoreCall::CreateIndex { .. } => ResultShape::IdRow(IdRowKind::Index),
        StoreCall::CreatePartitionedIndex { .. } => ResultShape::IdRow(IdRowKind::MultiIndex),
        StoreCall::InsertChunkPreBuilt { .. }
        | StoreCall::DeleteChunk { .. }
        | StoreCall::ChunkUploaded { .. } => ResultShape::IdRow(IdRowKind::Chunk),
        StoreCall::InsertChunks { .. } => ResultShape::IdRowList(IdRowKind::Chunk),
        StoreCall::SwapCompactedChunks { .. } => ResultShape::Bool,
        StoreCall::CreateWal { .. }
        | StoreCall::WalUploaded { .. } => ResultShape::IdRow(IdRowKind::Wal),
        StoreCall::AddJob { .. }
        | StoreCall::StartProcessingJobWithNow { .. } => ResultShape::OptionalIdRow(IdRowKind::Job),
        StoreCall::DeleteJob { .. }
        | StoreCall::UpdateStatusWithNow { .. }
        | StoreCall::UpdateHeartBeatWithNow { .. } => ResultShape::IdRow(IdRowKind::Job),
        StoreCall::DeleteAllJobs => ResultShape::IdRowList(IdRowKind::Job),
        StoreCall::CreateOrUpdateSource { .. }
        | StoreCall::DeleteSource { .. } => ResultShape::IdRow(IdRowKind::Source),
        StoreCall::CreateReplayHandleWithNow { .. }
        | StoreCall::CreateReplayHandleFromSeqPointersWithNow { .. } => ResultShape::IdRow(
            IdRowKind::ReplayHandle,
        ),
        StoreCall::ReplaceReplayHandles { .. } => ResultShape::OptionalIdRow(
            IdRowKind::ReplayHandle,
        ),
    }
}

/// The form of what applying a command gives, where it can succeed at all.
pub open spec fn command_shape(cmd: MetaCommand) -> Option<ResultShape> {
    match cmd {
        MetaCommand::CreateSchema { .. }
        | MetaCommand::RenameSchema { .. }
        | MetaCommand::RenameSchemaById { .. } => Some(ResultShape::IdRow(IdRowKind::Schema)),
        MetaCommand::DeleteSchema { .. }
        | MetaCommand::DeleteSchemaById { .. }
        | MetaCommand::MarkPartitionWarmedUp { .. }
        | MetaCommand::SwapActivePartitionsStructured { .. }
        | MetaCommand::CommitMultiPartitionSplit { .. }
        | MetaCommand::DropPartitionedIndex { .. }
        | MetaCommand::DeleteChunksWithoutChecks { .. }
        | MetaCommand::ChunkUpdateLastInserted { .. }
        | MetaCommand::SwapChunks { .. }
        | MetaCommand::SwapChunksWithoutCheck { .. }
        | MetaCommand::ActivateChunks { .. }
        | MetaCommand::DeactivateChunk { .. }
        | MetaCommand::DeactivateChunks { .. }
        | MetaCommand::DeactivateChunksWithoutCheck { .. }
        | MetaCommand::DeleteWal { .. }
        | MetaCommand::UpdateReplayHandleFailedIfExists { .. }
        | MetaCommand::SetCurrentSnapshot { .. }
        | MetaCommand::Batch { .. } => Some(ResultShape::Unit),
        MetaCommand::CreateTableStructured { .. }
        | MetaCommand::DropTable { .. }
        | MetaCommand::SealTable { .. }
        | MetaCommand::UpdateLocationDownloadSize { .. }
        | MetaCommand::TableReady { .. } => Some(ResultShape::IdRow(IdRowKind::Table)),
        MetaCommand::CreatePartition { .. }
        | MetaCommand::DeletePartition { .. }
        | MetaCommand::DeleteMiddleManPartition { .. } => Some(
            ResultShape::IdRow(IdRowKind::Partition),
        ),
        MetaCommand::CreateMultiPartition { .. } => Some(
            ResultShape::IdRow(IdRowKind::MultiPartition),
        ),
        MetaCommand::CreateIndex { .. } => Some(ResultShape::IdRow(IdRowKind::Index)),
        MetaCommand::CreatePartitionedIndex { .. } => Some(
            ResultShape::IdRow(IdRowKind::MultiIndex),
        ),
        MetaCommand::CreateChunk { .. }
        | MetaCommand::DeleteChunk { .. }
        | MetaCommand::ChunkUploaded { .. } => Some(ResultShape::IdRow(IdRowKind::Chunk)),
        MetaCommand::InsertChunks { .. } => Some(ResultShape::IdRowList(IdRowKind::Chunk)),
        MetaCommand::SwapCompactedChunks { .. } => Some(ResultShape::Bool),
        MetaCommand::CreateWal { .. }
        | MetaCommand::WalUploaded { .. } => Some(ResultShape::IdRow(IdRowKind::Wal)),
        MetaCommand::AddJob { .. }
        | MetaCommand::StartProcessingJob { .. } => Some(
            ResultShape::OptionalIdRow(IdRowKind::Job),
        ),
        MetaCommand::DeleteJob { .. }
        | MetaCommand::UpdateStatus { .. }
        | MetaCommand::UpdateHeartBeat { .. } => Some(ResultShape::IdRow(IdRowKind::Job)),
        MetaCommand::DeleteAllJobs => Some(ResultShape::IdRowList(IdRowKind::Job)),
        MetaCommand::CreateOrUpdateSource { .. }
        | MetaCommand::DeleteSource { .. } => Some(ResultShape::IdRow(IdRowKind::Source)),
        MetaCommand::CreateReplayHandle { .. }
        | MetaCommand::CreateReplayHandleFromSeqPointers { .. } => Some(
            ResultShape::IdRow(IdRowKind::ReplayHandle),
        ),
        MetaCommand::ReplaceReplayHandles { .. } => Some(
            ResultShape::OptionalIdRow(IdRowKind::ReplayHandle),
        ),
        _ => None,
    }
}

// ---------------------------------------------------------------------------
// Messages
// ---------------------------------------------------------------------------

pub const LOCK_REASON: &'static str = "cluster-side lock op, no MetaStore equivalent yet";

pub const OPAQUE_REASON: &'static str = "opaque payload, only the structured form is dispatched";

pub const NESTED_BATCH: &'static str =
    "MetaCommand::Batch nested inside Batch is rejected — flatten on the wrapper before propose";

pub const EMPTY_BATCH: &'static str = "MetaCommand::Batch without commands is rejected";

pub open spec fn deferred_text(variant: Seq<char>, reason: Seq<char>) -> Seq<char> {
    "MetaCommand::"@ + variant + " dispatch not yet implemented ("@ + reason
        + "); see docs/ha/M3-NOTES.md"@
}

/// The error for a command that no call stands for yet.
pub fn not_yet_implemented(variant: &str, reason: &str) -> (e: CubeError)
    ensures
        e.message@ == deferred_text(variant@, reason@),
{
    let mut s: String = "MetaCommand::".to_owned();
    s.push_str(variant);
    s.push_str(" dispatch not yet implemented (");
    s.push_str(reason);
    s.push_str("); see docs/ha/M3-NOTES.md");
    CubeError::internal(s)
}

pub open spec fn generic_text(method: Seq<char>) -> Seq<char> {
    "Generic command for `"@ + method
        + "` cannot be dispatched on this replica — this peer is older than the leader and is "@
        + "missing the typed variant. Upgrade the binary or roll back the leader."@
}

fn generic_error(method: &String) -> (e: CubeError)
    ensures
        e.message@ == generic_text(method@),
{
    let mut s: String = "Generic command for `".to_owned();
    s.push_str(method.as_str());
    s.push_str(
        "` cannot be dispatched on this replica — this peer is older than the leader and is ",
    );
    s.push_str("missing the typed variant. Upgrade the binary or roll back the leader.");
    CubeError::internal(s)
}

pub open spec fn row_count_text(n: u64) -> Seq<char> {
    "CreateWal row_count "@ + text::decimal(n as nat) + " exceeds usize::MAX on this platform"@
}

fn row_count_error(n: u64) -> (e: CubeError)
    ensures
        e.message@ == row_count_text(n),
{
    let mut s: String = "CreateWal row_count ".to_owned();
    push_decimal(&mut s, n as u128);
    s.push_str(" exceeds usize::MAX on this platform");
    CubeError::internal(s)
}

pub open spec fn location_index_text(n: u64) -> Seq<char> {
    "CreateReplayHandle location_index "@ + text::decimal(n as nat) + " exceeds usize::MAX"@
}

fn location_index_error(n: u64) -> (e: CubeError)
    ensures
        e.message@ == location_index_text(n),
{
    let mut s: String = "CreateReplayHandle location_index ".to_owned();
    push_decimal(&mut s, n as u128);
    s.push_str(" exceeds usize::MAX");
    CubeError::internal(s)
}

// ---------------------------------------------------------------------------
// Numbers and times
// ---------------------------------------------------------------------------

fn to_usize(n: u64) -> (r: Option<usize>)
    ensures
        match r {
            Some(m) => m == n,
            None => n > usize::MAX,
        },
{
    if n <= usize::MAX as u64 {
        Some(n as usize)
    } else {
        None
    }
}

/// A number of 128 bits from its halves.
pub open spec fn joined(low: u64, high: u64) -> u128 {
    (high * 0x1_0000_0000_0000_0000 + low) as u128
}

/// Joins the halves of a number.
pub fn join_halves(low: u64, high: u64) -> (n: u128)
    ensures
        n == high * 0x1_0000_0000_0000_0000 + low,
        n == joined(low, high),
{
    let n: u128 = (high as u128) << 64 | low as u128;
    assert(n == (high as u128) * 0x1_0000_0000_0000_0000 + low as u128) by (bit_vector)
        requires
            n == (high as u128) << 64 | low as u128,
    ;
    n
}

/// Milliseconds since the epoch that lie between the first and the last instant
/// that a date can hold.
pub open spec fn representable_millis(ms: i64) -> bool {
    -8_334_601_228_800_000 <= ms <= 8_210_266_876_799_999
}

/// Calls `chrono::TimeZone::timestamp_millis_opt` on `Utc` and `single` on its
/// result: there is a date for the milliseconds exactly if they lie between the
/// first and the last instant that `DateTime<Utc>` can hold.
#[verifier::external_body]
fn has_date(ms: i64) -> (r: bool)
    ensures
        r == representable_millis(ms),
{
    Utc.timestamp_millis_opt(ms).single().is_some()
}

pub open spec fn millis_text(field: Seq<char>, ms: i64) -> Seq<char> {
    "MetaCommand apply: "@ + field + " = "@ + text::signed_decimal(ms as int)
        + " ms-since-epoch is out of representable DateTime<Utc> range"@
}

/// Checks the milliseconds of a field that is always there.
pub fn decode_required_millis(ms: i64, field: &str) -> (r: Result<i64, CubeError>)
    ensures
        match r {
            Ok(v) => v == ms && representable_millis(ms),
            Err(e) => !representable_millis(ms) && e.message@ == millis_text(field@, ms),
        },
{
    if has_date(ms) {
        Ok(ms)
    } else {
        let mut s: String = "MetaCommand apply: ".to_owned();
        s.push_str(field);
        s.push_str(" = ");
        push_signed_decimal(&mut s, ms);
        s.push_str(" ms-since-epoch is out of representable DateTime<Utc> range");
        Err(CubeError::internal(s))
    }
}

pub open spec fn optional_millis(ms: Option<i64>) -> bool {
    match ms {
        Some(v) => representable_millis(v),
        None => true,
    }
}

/// Checks the milliseconds of a field that may be absent.
pub fn decode_optional_millis(ms: Option<i64>, field: &str) -> (r: Result<Option<i64>, CubeError>)
    ensures
        match r {
            Ok(v) => v == ms && optional_millis(ms),
            Err(e) => !optional_millis(ms) && e.message@ == millis_text(field@, ms->0),
        },
{
    match ms {
        None => Ok(None),
        Some(v) => match decode_required_millis(v, field) {
            Ok(v) => Ok(Some(v)),
            Err(e) => Err(e),
        },
    }
}

// ---------------------------------------------------------------------------
// Blobs
// ---------------------------------------------------------------------------

/// A field of a command that holds an encoded value.
pub struct BlobField<'a> {
    pub name: &'static str,
    pub bytes: &'a [u8],
}

/// The name of such a field, and its bytes.
pub struct BlobView {
    pub name: Seq<char>,
    pub bytes: Seq<u8>,
}

pub open spec fn blob(name: Seq<char>, bytes: Seq<u8>) -> BlobView {
    BlobView { name, bytes }
}

pub open spec fn optional_blob(name: Seq<char>, bytes: Option<Vec<u8>>) -> Seq<BlobView> {
    match bytes {
        Some(b) => seq![blob(name, b@)],
        None => seq![],
    }
}

pub open spec fn fields_view(fields: Seq<BlobField<'_>>) -> Seq<BlobView> {
    fields.map_values(|f: BlobField<'_>| blob(f.name@, f.bytes@))
}

fn push_blob<'a>(fields: &mut Vec<BlobField<'a>>, name: &'static str, bytes: &'a Vec<u8>)
    ensures
        fields_view(final(fields)@) == fields_view(old(fields)@).push(blob(name@, bytes@)),
{
    fields.push(BlobField { name, bytes: bytes.as_slice() });
    assert(fields_view(fields@) =~= fields_view(old(fields)@).push(blob(name@, bytes@)));
}

fn push_optional<'a>(
    fields: &mut Vec<BlobField<'a>>,
    name: &'static str,
    bytes: &'a Option<Vec<u8>>,
)
    ensures
        fields_view(final(fields)@) == fields_view(old(fields)@) + optional_blob(name@, *bytes),
{
    if let Some(b) = bytes {
        fields.push(BlobField { name, bytes: b.as_slice() });
    }
    assert(fields_view(fields@) =~= fields_view(old(fields)@) + optional_blob(name@, *bytes));
}

pub open spec fn blob_text(field: Seq<char>, reason: Seq<char>) -> Seq<char> {
    "MetaCommand apply: "@ + field + " decode failed: "@ + reason
}

fn blob_error(field: &str, reason: &str) -> (e: CubeError)
    ensures
        e.message@ == blob_text(field@, reason@),
{
    let mut s: String = "MetaCommand apply: ".to_owned();
    s.push_str(field);
    s.push_str(" decode failed: ");
    s.push_str(reason);
    CubeError::internal(s)
}

/// Whether a blob cannot be decoded: its bytes have no root, or what the root holds
/// is not the value that the field is for.
pub open spec fn blob_fails(b: BlobView, fault: Option<String>) -> bool {
    flex::document_root(b.bytes) is None || fault is Some
}

/// The message about a blob that cannot be decoded.
pub open spec fn blob_message(b: BlobView, fault: Option<String>) -> Seq<char> {
    blob_text(
        b.name,
        if flex::document_root(b.bytes) is None {
            flex::fault_text(flex::root_fault(b.bytes))
        } else {
            fault->0@
        },
    )
}

/// Decodes a blob: its root here, and what the root holds by the caller, who says
/// what was wrong with it.
pub fn decode_typed_blob(field: &BlobField<'_>, fault: &Option<String>) -> (r: Result<
    (),
    CubeError,
>)
    ensures
        match r {
            Ok(_) => !blob_fails(blob(field.name@, field.bytes@), *fault),
            Err(e) => blob_fails(blob(field.name@, field.bytes@), *fault) && e.message@
                == blob_message(blob(field.name@, field.bytes@), *fault),
        },
{
    match flex_root(field.bytes) {
        Err(e) => {
            let reason: String = e.message();
            Err(blob_error(field.name, reason.as_str()))
        },
        Ok(_) => match fault {
            Some(reason) => Err(blob_error(field.name, reason.as_str())),
            None => Ok(()),
        },
    }
}

/// The fields of a command that hold an encoded value, in the order in which they
/// are decoded.
pub open spec fn blobs_of(cmd: MetaCommand) -> Seq<BlobView> {
    match cmd {
        MetaCommand::CreateTableStructured {
            columns_blob,
            import_format_blob,
            indexes_blob,
            source_columns_blob,
            stream_offset_blob,
            ..
        } => seq![blob("columns_blob"@, columns_blob@)]
            + optional_blob("import_format_blob"@, import_format_blob)
            + seq![blob("indexes_blob"@, indexes_blob@)]
            + optional_blob("source_columns_blob"@, source_columns_blob)
            + optional_blob("stream_offset_blob"@, stream_offset_blob),
        MetaCommand::CreatePartition { partition_blob } =>
            seq![blob("partition_blob"@, partition_blob@)],
        MetaCommand::SwapActivePartitionsStructured {
            current_active_blob,
            new_active_blob,
            new_active_min_max_blob,
        } =>
            seq![
                blob("current_active_blob"@, current_active_blob@),
                blob("new_active_blob"@, new_active_blob@),
                blob("new_active_min_max_blob"@, new_active_min_max_blob@),
            ],
        MetaCommand::CreateMultiPartition { multi_partition_blob } =>
            seq![blob("multi_partition_blob"@, multi_partition_blob@)],
        MetaCommand::CommitMultiPartitionSplit { old_partitions_blob, new_partitions_blob, .. } =>
            seq![
                blob("old_partitions_blob"@, old_partitions_blob@),
                blob("new_partitions_blob"@, new_partitions_blob@),
            ],
        MetaCommand::CreateIndex { index_def_blob, .. } =>
            seq![blob("index_def_blob"@, index_def_blob@)],
        MetaCommand::CreatePartitionedIndex { columns_blob, .. } =>
            seq![blob("columns_blob"@, columns_blob@)],
        MetaCommand::CreateChunk { chunk_blob } => seq![blob("chunk_blob"@, chunk_blob@)],
        MetaCommand::InsertChunks { chunks_blob } => seq![blob("chunks_blob"@, chunks_blob@)],
        MetaCommand::AddJob { job_blob } => seq![blob("job_blob"@, job_blob@)],
        MetaCommand::UpdateStatus { status_blob, .. } => seq![blob("status_blob"@, status_blob@)],
        MetaCommand::CreateOrUpdateSource { credentials_blob, .. } =>
            seq![blob("credentials_blob"@, credentials_blob@)],
        MetaCommand::CreateReplayHandle { seq_pointer_blob, .. } =>
            seq![blob("seq_pointer_blob"@, seq_pointer_blob@)],
        MetaCommand::CreateReplayHandleFromSeqPointers { seq_pointers_blob, .. } =>
            seq![blob("seq_pointers_blob"@, seq_pointers_blob@)],
        MetaCommand::ReplaceReplayHandles { new_seq_pointer_blob, .. } =>
            seq![blob("new_seq_pointer_blob"@, new_seq_pointer_blob@)],
        _ => seq![],
    }
}

/// The fields of a command that hold an encoded value, in the order in which they
/// are decoded.
pub fn blob_fields(cmd: &MetaCommand) -> (fields: Vec<BlobField<'_>>)
    ensures
        fields_view(fields@) == blobs_of(*cmd),
{
    let mut fields: Vec<BlobField<'_>> = Vec::new();
    assert(fields_view(fields@) =~= seq![]);
    match cmd {
        MetaCommand::CreateTableStructured {
            columns_blob,
            import_format_blob,
            indexes_blob,
            source_columns_blob,
            stream_offset_blob,
            ..
        } => {
            push_blob(&mut fields, "columns_blob", columns_blob);
            push_optional(&mut fields, "import_format_blob", import_format_blob);
            push_blob(&mut fields, "indexes_blob", indexes_blob);
            push_optional(&mut fields, "source_columns_blob", source_columns_blob);
            push_optional(&mut fields, "stream_offset_blob", stream_offset_blob);
        },
        MetaCommand::CreatePartition { partition_blob } => {
            push_blob(&mut fields, "partition_blob", partition_blob);
        },
        MetaCommand::SwapActivePartitionsStructured {
            current_active_blob,
            new_active_blob,
            new_active_min_max_blob,
        } => {
            push_blob(&mut fields, "current_active_blob", current_active_blob);
            push_blob(&mut fields, "new_active_blob", new_active_blob);
            push_blob(&mut fields, "new_active_min_max_blob", new_active_min_max_blob);
        },
        MetaCommand::CreateMultiPartition { multi_partition_blob } => {
            push_blob(&mut fields, "multi_partition_blob", multi_partition_blob);
        },
        MetaCommand::CommitMultiPartitionSplit { old_partitions_blob, new_partitions_blob, .. } => {
            push_blob(&mut fields, "old_partitions_blob", old_partitions_blob);
            push_blob(&mut fields, "new_partitions_blob", new_partitions_blob);
        },
        MetaCommand::CreateIndex { index_def_blob, .. } => {
            push_blob(&mut fields, "index_def_blob", index_def_blob);
        },
        MetaCommand::CreatePartitionedIndex { columns_blob, .. } => {
            push_blob(&mut fields, "columns_blob", columns_blob);
        },
        MetaCommand::CreateChunk { chunk_blob } => {
            push_blob(&mut fields, "chunk_blob", chunk_blob);
        },
        MetaCommand::InsertChunks { chunks_blob } => {
            push_blob(&mut fields, "chunks_blob", chunks_blob);
        },
        MetaCommand::AddJob { job_blob } => {
            push_blob(&mut fields, "job_blob", job_blob);
        },
        MetaCommand::UpdateStatus { status_blob, .. } => {
            push_blob(&mut fields, "status_blob", status_blob);
        },
        MetaCommand::CreateOrUpdateSource { credentials_blob, .. } => {
            push_blob(&mut fields, "credentials_blob", credentials_blob);
        },
        MetaCommand::CreateReplayHandle { seq_pointer_blob, .. } => {
            push_blob(&mut fields, "seq_pointer_blob", seq_pointer_blob);
        },
        MetaCommand::CreateReplayHandleFromSeqPointers { seq_pointers_blob, .. } => {
            push_blob(&mut fields, "seq_pointers_blob", seq_pointers_blob);
        },
        MetaCommand::ReplaceReplayHandles { new_seq_pointer_blob, .. } => {
            push_blob(&mut fields, "new_seq_pointer_blob", new_seq_pointer_blob);
        },
        _ => {},
    }
    assert(fields_view(fields@) =~= blobs_of(*cmd));
    fields
}

/// What becomes of a command.
pub enum Dispatched {
    Call(StoreCall),
    Fail(Seq<char>),
}

pub open spec fn dispatched_as(r: Result<StoreCall, CubeError>, d: Dispatched) -> bool {
    match (r, d) {
        (Ok(call), Dispatched::Call(c)) => call == c,
        (Err(e), Dispatched::Fail(message)) => e.message@ == message,
        _ => false,
    }
}

/// What becomes of a command other than a batch, once its blobs are decoded.
pub open spec fn dispatched(cmd: MetaCommand) -> Dispatched {
    match cmd {
        MetaCommand::CreateSchema { schema_name, if_not_exists } => Dispatched::Call(
            StoreCall::CreateSchema { schema_name, if_not_exists },
        ),
        MetaCommand::RenameSchema { old_schema_name, new_schema_name } => Dispatched::Call(
            StoreCall::RenameSchema { old_schema_name, new_schema_name },
        ),
        MetaCommand::RenameSchemaById { schema_id, new_schema_name } => Dispatched::Call(
            StoreCall::RenameSchemaById { schema_id, new_schema_name },
        ),
        MetaCommand::DeleteSchema { schema_name } => Dispatched::Call(
            StoreCall::DeleteSchema { schema_name },
        ),
        MetaCommand::DeleteSchemaById { schema_id } => Dispatched::Call(
            StoreCall::DeleteSchemaById { schema_id },
        ),
        MetaCommand::CreateTableStructured {
            schema_name,
            table_name,
            columns_blob,
            locations,
            import_format_blob,
            indexes_blob,
            is_ready,
            build_range_end_millis,
            seal_at_millis,
            select_statement,
            source_columns_blob,
            stream_offset_blob,
            unique_key_column_names,
            aggregates,
            partition_split_threshold,
            trace_obj,
            drop_if_exists,
            extension,
            assigned_now_millis,
        } => if !optional_millis(build_range_end_millis) {
            Dispatched::Fail(millis_text("build_range_end_millis"@, build_range_end_millis->0))
        } else if !optional_millis(seal_at_millis) {
            Dispatched::Fail(millis_text("seal_at_millis"@, seal_at_millis->0))
        } else if !representable_millis(assigned_now_millis) {
            Dispatched::Fail(millis_text("assigned_now_millis"@, assigned_now_millis))
        } else {
            Dispatched::Call(
                StoreCall::CreateTableWithNow {
                    schema_name,
                    table_name,
                    columns_blob,
                    locations,
                    import_format_blob,
                    indexes_blob,
                    is_ready,
                    build_range_end_millis,
                    seal_at_millis,
                    select_statement,
                    source_columns_blob,
                    stream_offset_blob,
                    unique_key_column_names,
                    aggregates,
                    partition_split_threshold,
                    trace_obj,
                    drop_if_exists,
                    extension,
                    now_millis: assigned_now_millis,
                },
            )
        },
        MetaCommand::DropTable { table_id } => Dispatched::Call(StoreCall::DropTable { table_id }),
        MetaCommand::SealTable { table_id } => Dispatched::Call(StoreCall::SealTable { table_id }),
        MetaCommand::UpdateLocationDownloadSize { table_id, location, download_size } =>
            Dispatched::Call(
                StoreCall::UpdateLocationDownloadSize { table_id, location, download_size },
            ),
        MetaCommand::TableReady { table_id, is_ready } => Dispatched::Call(
            StoreCall::TableReady { table_id, is_ready },
        ),
        MetaCommand::CreatePartition { partition_blob } => Dispatched::Call(
            StoreCall::CreatePartition { partition_blob },
        ),
        MetaCommand::DeletePartition { partition_id } => Dispatched::Call(
            StoreCall::DeletePartition { partition_id },
        ),
        MetaCommand::MarkPartitionWarmedUp { partition_id } => Dispatched::Call(
            StoreCall::MarkPartitionWarmedUp { partition_id },
        ),
        MetaCommand::DeleteMiddleManPartition { partition_id } => Dispatched::Call(
            StoreCall::DeleteMiddleManPartition { partition_id },
        ),
        MetaCommand::SwapActivePartitionsStructured {
            current_active_blob,
            new_active_blob,
            new_active_min_max_blob,
        } => Dispatched::Call(
            StoreCall::SwapActivePartitions {
                current_active_blob,
                new_active_blob,
                new_active_min_max_blob,
            },
        ),
        MetaCommand::CreateMultiPartition { multi_partition_blob } => Dispatched::Call(
            StoreCall::CreateMultiPartition { multi_partition_blob },
        ),
        MetaCommand::CommitMultiPartitionSplit {
            multi_partition_id,
            new_multi_partitions,
            new_multi_partition_rows,
            old_partitions_blob,
            new_partitions_blob,
            new_partition_rows,
            initial_split,
        } => Dispatched::Call(
            StoreCall::CommitMultiPartitionSplit {
                multi_partition_id,
                new_multi_partitions,
                new_multi_partition_rows,
                old_partitions_blob,
                new_partitions_blob,
                new_partition_rows,
                initial_split,
            },
        ),
        MetaCommand::CreateIndex { schema_name, table_name, index_def_blob } => Dispatched::Call(
            StoreCall::CreateIndex { schema_name, table_name, index_def_blob },
        ),
        MetaCommand::CreatePartitionedIndex { schema, name, columns_blob, if_not_exists } =>
            Dispatched::Call(
                StoreCall::CreatePartitionedIndex { schema, name, columns_blob, if_not_exists },
            ),
        MetaCommand::DropPartitionedIndex { schema, name } => Dispatched::Call(
            StoreCall::DropPartitionedIndex { schema, name },
        ),
        MetaCommand::CreateChunk { chunk_blob } => Dispatched::Call(
            StoreCall::InsertChunkPreBuilt { chunk_blob },
        ),
        MetaCommand::InsertChunks { chunks_blob } => Dispatched::Call(
            StoreCall::InsertChunks { chunks_blob },
        ),
        MetaCommand::SwapCompactedChunks {
            partition_id,
            old_chunk_ids,
            new_chunk,
            new_chunk_file_size,
        } => Dispatched::Call(
            StoreCall::SwapCompactedChunks {
                partition_id,
                old_chunk_ids,
                new_chunk,
                new_chunk_file_size,
            },
        ),
        MetaCommand::DeleteChunk { chunk_id } => Dispatched::Call(
            StoreCall::DeleteChunk { chunk_id },
        ),
        MetaCommand::DeleteChunksWithoutChecks { chunk_ids } => Dispatched::Call(
            StoreCall::DeleteChunksWithoutChecks { chunk_ids },
        ),
        MetaCommand::ChunkUploaded { chunk_id } => Dispatched::Call(
            StoreCall::ChunkUploaded { chunk_id },
        ),
        MetaCommand::ChunkUpdateLastInserted { chunk_ids, last_inserted_at_millis } => if !optional_millis(
            last_inserted_at_millis,
        ) {
            Dispatched::Fail(millis_text("last_inserted_at_millis"@, last_inserted_at_millis->0))
        } else {
            Dispatched::Call(
                StoreCall::ChunkUpdateLastInserted { chunk_ids, last_inserted_at_millis },
            )
        },
        MetaCommand::SwapChunks {
            deactivate_ids,
            uploaded_ids_and_sizes,
            new_replay_handle_id,
        } => Dispatched::Call(
            StoreCall::SwapChunks { deactivate_ids, uploaded_ids_and_sizes, new_replay_handle_id },
        ),
        MetaCommand::SwapChunksWithoutCheck {
            deactivate_ids,
            uploaded_ids_and_sizes,
            new_replay_handle_id,
        } => Dispatched::Call(
            StoreCall::SwapChunksWithoutCheck {
                deactivate_ids,
                uploaded_ids_and_sizes,
                new_replay_handle_id,
            },
        ),
        MetaCommand::ActivateChunks { table_id, uploaded_chunk_ids, replay_handle_id } =>
            Dispatched::Call(
                StoreCall::ActivateChunks { table_id, uploaded_chunk_ids, replay_handle_id },
            ),
        MetaCommand::DeactivateChunk { chunk_id, assigned_now_millis } => if !representable_millis(
            assigned_now_millis,
        ) {
            Dispatched::Fail(millis_text("assigned_now_millis"@, assigned_now_millis))
        } else {
            Dispatched::Call(
                StoreCall::DeactivateChunkWithNow { chunk_id, now_millis: assigned_now_millis },
            )
        },
        MetaCommand::DeactivateChunks { chunk_ids, assigned_now_millis } => if !representable_millis(
            assigned_now_millis,
        ) {
            Dispatched::Fail(millis_text("assigned_now_millis"@, assigned_now_millis))
        } else {
            Dispatched::Call(
                StoreCall::DeactivateChunksWithNow { chunk_ids, now_millis: assigned_now_millis },
            )
        },
        MetaCommand::DeactivateChunksWithoutCheck { deactivate_ids } => Dispatched::Call(
            StoreCall::DeactivateChunksWithoutCheck { deactivate_ids },
        ),
        MetaCommand::CreateWal { table_id, row_count } => if row_count > usize::MAX {
            Dispatched::Fail(row_count_text(row_count))
        } else {
            Dispatched::Call(StoreCall::CreateWal { table_id, row_count: row_count as usize })
        },
        MetaCommand::DeleteWal { wal_id } => Dispatched::Call(StoreCall::DeleteWal { wal_id }),
        MetaCommand::WalUploaded { wal_id } => Dispatched::Call(StoreCall::WalUploaded { wal_id }),
        MetaCommand::AddJob { job_blob } => Dispatched::Call(StoreCall::AddJob { job_blob }),
        MetaCommand::DeleteJob { job_id } => Dispatched::Call(StoreCall::DeleteJob { job_id }),
        MetaCommand::DeleteAllJobs => Dispatched::Call(StoreCall::DeleteAllJobs),
        MetaCommand::StartProcessingJob { server_name, long_term, assigned_now_millis } => if !representable_millis(
            assigned_now_millis,
        ) {
            Dispatched::Fail(millis_text("assigned_now_millis"@, assigned_now_millis))
        } else {
            Dispatched::Call(
                StoreCall::StartProcessingJobWithNow {
                    server_name,
                    long_term,
                    now_millis: assigned_now_millis,
                },
            )
        },
        MetaCommand::UpdateStatus { job_id, status_blob, assigned_now_millis } => if !representable_millis(
            assigned_now_millis,
        ) {
            Dispatched::Fail(millis_text("assigned_now_millis"@, assigned_now_millis))
        } else {
            Dispatched::Call(
                StoreCall::UpdateStatusWithNow {
                    job_id,
                    status_blob,
                    now_millis: assigned_now_millis,
                },
            )
        },
        MetaCommand::UpdateHeartBeat { job_id, assigned_now_millis } => if !representable_millis(
            assigned_now_millis,
        ) {
            Dispatched::Fail(millis_text("assigned_now_millis"@, assigned_now_millis))
        } else {
            Dispatched::Call(
                StoreCall::UpdateHeartBeatWithNow { job_id, now_millis: assigned_now_millis },
            )
        },
        MetaCommand::CreateOrUpdateSource { name, credentials_blob } => Dispatched::Call(
            StoreCall::CreateOrUpdateSource { name, credentials_blob },
        ),
        MetaCommand::DeleteSource { id } => Dispatched::Call(StoreCall::DeleteSource { id }),
        MetaCommand::CreateReplayHandle {
            table_id,
            location_index,
            seq_pointer_blob,
            assigned_now_millis,
        } => if location_index > usize::MAX {
            Dispatched::Fail(location_index_text(location_index))
        } else if !representable_millis(assigned_now_millis) {
            Dispatched::Fail(millis_text("assigned_now_millis"@, assigned_now_millis))
        } else {
            Dispatched::Call(
                StoreCall::CreateReplayHandleWithNow {
                    table_id,
                    location_index: location_index as usize,
                    seq_pointer_blob,
                    now_millis: assigned_now_millis,
                },
            )
        },
        MetaCommand::CreateReplayHandleFromSeqPointers {
            table_id,
            seq_pointers_blob,
            assigned_now_millis,
        } => if !representable_millis(assigned_now_millis) {
            Dispatched::Fail(millis_text("assigned_now_millis"@, assigned_now_millis))
        } else {
            Dispatched::Call(
                StoreCall::CreateReplayHandleFromSeqPointersWithNow {
                    table_id,
                    seq_pointers_blob,
                    now_millis: assigned_now_millis,
                },
            )
        },
        MetaCommand::UpdateReplayHandleFailedIfExists { id, failed } => Dispatched::Call(
            StoreCall::UpdateReplayHandleFailedIfExists { id, failed },
        ),
        MetaCommand::ReplaceReplayHandles { old_ids, new_seq_pointer_blob } => Dispatched::Call(
            StoreCall::ReplaceReplayHandles { old_ids, new_seq_pointer_blob },
        ),
        MetaCommand::SetCurrentSnapshot { snapshot_id_low, snapshot_id_high } => Dispatched::Call(
            StoreCall::SetCurrentSnapshot {
                snapshot_id: joined(snapshot_id_low, snapshot_id_high),
            },
        ),
        MetaCommand::AcquirePartitionedLock { .. } => Dispatched::Fail(
            deferred_text("AcquirePartitionedLock"@, LOCK_REASON@),
        ),
        MetaCommand::ReleasePartitionedLock { .. } => Dispatched::Fail(
            deferred_text("ReleasePartitionedLock"@, LOCK_REASON@),
        ),
        MetaCommand::CreateTable { .. } => Dispatched::Fail(
            deferred_text("CreateTable"@, OPAQUE_REASON@),
        ),
        MetaCommand::SwapActivePartitions { .. } => Dispatched::Fail(
            deferred_text("SwapActivePartitions"@, OPAQUE_REASON@),
        ),
        MetaCommand::Batch { .. } => Dispatched::Fail(NESTED_BATCH@),
        MetaCommand::Generic { method, .. } => Dispatched::Fail(generic_text(method@)),
    }
}

/// Turns a command other than a batch, whose blobs are decoded, into a call.
fn dispatch_fields(cmd: MetaCommand) -> (r: Result<StoreCall, CubeError>)
    ensures
        dispatched_as(r, dispatched(cmd)),
{
    match cmd {
        MetaCommand::CreateSchema { schema_name, if_not_exists } => Ok(
            StoreCall::CreateSchema { schema_name, if_not_exists },
        ),
        MetaCommand::RenameSchema { old_schema_name, new_schema_name } => Ok(
            StoreCall::RenameSchema { old_schema_name, new_schema_name },
        ),
        MetaCommand::RenameSchemaById { schema_id, new_schema_name } => Ok(
            StoreCall::RenameSchemaById { schema_id, new_schema_name },
        ),
        MetaCommand::DeleteSchema { schema_name } => Ok(StoreCall::DeleteSchema { schema_name }),
        MetaCommand::DeleteSchemaById { schema_id } => Ok(
            StoreCall::DeleteSchemaById { schema_id },
        ),
        MetaCommand::CreateTableStructured {
            schema_name,
            table_name,
            columns_blob,
            locations,
            import_format_blob,
            indexes_blob,
            is_ready,
            build_range_end_millis,
            seal_at_millis,
            select_statement,
            source_columns_blob,
            stream_offset_blob,
            unique_key_column_names,
            aggregates,
            partition_split_threshold,
            trace_obj,
            drop_if_exists,
            extension,
            assigned_now_millis,
        } => {
            decode_optional_millis(build_range_end_millis, "build_range_end_millis")?;
            decode_optional_millis(seal_at_millis, "seal_at_millis")?;
            decode_required_millis(assigned_now_millis, "assigned_now_millis")?;
            Ok(
                StoreCall::CreateTableWithNow {
                    schema_name,
                    table_name,
                    columns_blob,
                    locations,
                    import_format_blob,
                    indexes_blob,
                    is_ready,
                    build_range_end_millis,
                    seal_at_millis,
                    select_statement,
                    source_columns_blob,
                    stream_offset_blob,
                    unique_key_column_names,
                    aggregates,
                    partition_split_threshold,
                    trace_obj,
                    drop_if_exists,
                    extension,
                    now_millis: assigned_now_millis,
                },
            )
        },
        MetaCommand::DropTable { table_id } => Ok(StoreCall::DropTable { table_id }),
        MetaCommand::SealTable { table_id } => Ok(StoreCall::SealTable { table_id }),
        MetaCommand::UpdateLocationDownloadSize { table_id, location, download_size } => Ok(
            StoreCall::UpdateLocationDownloadSize { table_id, location, download_size },
        ),
        MetaCommand::TableReady { table_id, is_ready } => Ok(
            StoreCall::TableReady { table_id, is_ready },
        ),
        MetaCommand::CreatePartition { partition_blob } => Ok(
            StoreCall::CreatePartition { partition_blob },
        ),
        MetaCommand::DeletePartition { partition_id } => Ok(
            StoreCall::DeletePartition { partition_id },
        ),
        MetaCommand::MarkPartitionWarmedUp { partition_id } => Ok(
            StoreCall::MarkPartitionWarmedUp { partition_id },
        ),
        MetaCommand::DeleteMiddleManPartition { partition_id } => Ok(
            StoreCall::DeleteMiddleManPartition { partition_id },
        ),
        MetaCommand::SwapActivePartitionsStructured {
            current_active_blob,
            new_active_blob,
            new_active_min_max_blob,
        } => Ok(
            StoreCall::SwapActivePartitions {
                current_active_blob,
                new_active_blob,
                new_active_min_max_blob,
            },
        ),
        MetaCommand::CreateMultiPartition { multi_partition_blob } => Ok(
            StoreCall::CreateMultiPartition { multi_partition_blob },
        ),
        MetaCommand::CommitMultiPartitionSplit {
            multi_partition_id,
            new_multi_partitions,
            new_multi_partition_rows,
            old_partitions_blob,
            new_partitions_blob,
            new_partition_rows,
            initial_split,
        } => Ok(
            StoreCall::CommitMultiPartitionSplit {
                multi_partition_id,
                new_multi_partitions,
                new_multi_partition_rows,
                old_partitions_blob,
                new_partitions_blob,
                new_partition_rows,
                initial_split,
            },
        ),
        MetaCommand::CreateIndex { schema_name, table_name, index_def_blob } => Ok(
            StoreCall::CreateIndex { schema_name, table_name, index_def_blob },
        ),
        MetaCommand::CreatePartitionedIndex { schema, name, columns_blob, if_not_exists } => Ok(
            StoreCall::CreatePartitionedIndex { schema, name, columns_blob, if_not_exists },
        ),
        MetaCommand::DropPartitionedIndex { schema, name } => Ok(
            StoreCall::DropPartitionedIndex { schema, name },
        ),
        MetaCommand::CreateChunk { chunk_blob } => Ok(
            StoreCall::InsertChunkPreBuilt { chunk_blob },
        ),
        MetaCommand::InsertChunks { chunks_blob } => Ok(StoreCall::InsertChunks { chunks_blob }),
        MetaCommand::SwapCompactedChunks {
            partition_id,
            old_chunk_ids,
            new_chunk,
            new_chunk_file_size,
        } => Ok(
            StoreCall::SwapCompactedChunks {
                partition_id,
                old_chunk_ids,
                new_chunk,
                new_chunk_file_size,
            },
        ),
        MetaCommand::DeleteChunk { chunk_id } => Ok(StoreCall::DeleteChunk { chunk_id }),
        MetaCommand::DeleteChunksWithoutChecks { chunk_ids } => Ok(
            StoreCall::DeleteChunksWithoutChecks { chunk_ids },
        ),
        MetaCommand::ChunkUploaded { chunk_id } => Ok(StoreCall::ChunkUploaded { chunk_id }),
        MetaCommand::ChunkUpdateLastInserted { chunk_ids, last_inserted_at_millis } => {
            decode_optional_millis(last_inserted_at_millis, "last_inserted_at_millis")?;
            Ok(StoreCall::ChunkUpdateLastInserted { chunk_ids, last_inserted_at_millis })
        },
        MetaCommand::SwapChunks {
            deactivate_ids,
            uploaded_ids_and_sizes,
            new_replay_handle_id,
        } => Ok(
            StoreCall::SwapChunks { deactivate_ids, uploaded_ids_and_sizes, new_replay_handle_id },
        ),
        MetaCommand::SwapChunksWithoutCheck {
            deactivate_ids,
            uploaded_ids_and_sizes,
            new_replay_handle_id,
        } => Ok(
            StoreCall::SwapChunksWithoutCheck {
                deactivate_ids,
                uploaded_ids_and_sizes,
                new_replay_handle_id,
            },
        ),
        MetaCommand::ActivateChunks { table_id, uploaded_chunk_ids, replay_handle_id } => Ok(
            StoreCall::ActivateChunks { table_id, uploaded_chunk_ids, replay_handle_id },
        ),
        MetaCommand::DeactivateChunk { chunk_id, assigned_now_millis } => {
            decode_required_millis(assigned_now_millis, "assigned_now_millis")?;
            Ok(StoreCall::DeactivateChunkWithNow { chunk_id, now_millis: assigned_now_millis })
        },
        MetaCommand::DeactivateChunks { chunk_ids, assigned_now_millis } => {
            decode_required_millis(assigned_now_millis, "assigned_now_millis")?;
            Ok(StoreCall::DeactivateChunksWithNow { chunk_ids, now_millis: assigned_now_millis })
        },
        MetaCommand::DeactivateChunksWithoutCheck { deactivate_ids } => Ok(
            StoreCall::DeactivateChunksWithoutCheck { deactivate_ids },
        ),
        MetaCommand::CreateWal { table_id, row_count } => {
            let row_count: usize = match to_usize(row_count) {
                Some(n) => n,
                None => {
                    return Err(row_count_error(row_count));
                },
            };
            Ok(StoreCall::CreateWal { table_id, row_count })
        },
        MetaCommand::DeleteWal { wal_id } => Ok(StoreCall::DeleteWal { wal_id }),
        MetaCommand::WalUploaded { wal_id } => Ok(StoreCall::WalUploaded { wal_id }),
        MetaCommand::AddJob { job_blob } => Ok(StoreCall::AddJob { job_blob }),
        MetaCommand::DeleteJob { job_id } => Ok(StoreCall::DeleteJob { job_id }),
        MetaCommand::DeleteAllJobs => Ok(StoreCall::DeleteAllJobs),
        MetaCommand::StartProcessingJob { server_name, long_term, assigned_now_millis } => {
            decode_required_millis(assigned_now_millis, "assigned_now_millis")?;
            Ok(
                StoreCall::StartProcessingJobWithNow {
                    server_name,
                    long_term,
                    now_millis: assigned_now_millis,
                },
            )
        },
        MetaCommand::UpdateStatus { job_id, status_blob, assigned_now_millis } => {
            decode_required_millis(assigned_now_millis, "assigned_now_millis")?;
            Ok(
                StoreCall::UpdateStatusWithNow {
                    job_id,
                    status_blob,
                    now_millis: assigned_now_millis,
                },
            )
        },
        MetaCommand::UpdateHeartBeat { job_id, assigned_now_millis } => {
            decode_required_millis(assigned_now_millis, "assigned_now_millis")?;
            Ok(StoreCall::UpdateHeartBeatWithNow { job_id, now_millis: assigned_now_millis })
        },
        MetaCommand::CreateOrUpdateSource { name, credentials_blob } => Ok(
            StoreCall::CreateOrUpdateSource { name, credentials_blob },
        ),
        MetaCommand::DeleteSource { id } => Ok(StoreCall::DeleteSource { id }),
        MetaCommand::CreateReplayHandle {
            table_id,
            location_index,
            seq_pointer_blob,
            assigned_now_millis,
        } => {
            let location_index: usize = match to_usize(location_index) {
                Some(n) => n,
                None => {
                    return Err(location_index_error(location_index));
                },
            };
            decode_required_millis(assigned_now_millis, "assigned_now_millis")?;
            Ok(
                StoreCall::CreateReplayHandleWithNow {
                    table_id,
                    location_index,
                    seq_pointer_blob,
                    now_millis: assigned_now_millis,
                },
            )
        },
        MetaCommand::CreateReplayHandleFromSeqPointers {
            table_id,
            seq_pointers_blob,
            assigned_now_millis,
        } => {
            decode_required_millis(assigned_now_millis, "assigned_now_millis")?;
            Ok(
                StoreCall::CreateReplayHandleFromSeqPointersWithNow {
                    table_id,
                    seq_pointers_blob,
                    now_millis: assigned_now_millis,
                },
            )
        },
        MetaCommand::UpdateReplayHandleFailedIfExists { id, failed } => Ok(
            StoreCall::UpdateReplayHandleFailedIfExists { id, failed },
        ),
        MetaCommand::ReplaceReplayHandles { old_ids, new_seq_pointer_blob } => Ok(
            StoreCall::ReplaceReplayHandles { old_ids, new_seq_pointer_blob },
        ),
        MetaCommand::SetCurrentSnapshot { snapshot_id_low, snapshot_id_high } => Ok(
            StoreCall::SetCurrentSnapshot {
                snapshot_id: join_halves(snapshot_id_low, snapshot_id_high),
            },
        ),
        MetaCommand::AcquirePartitionedLock { .. } => Err(
            not_yet_implemented("AcquirePartitionedLock", LOCK_REASON),
        ),
        MetaCommand::ReleasePartitionedLock { .. } => Err(
            not_yet_implemented("ReleasePartitionedLock", LOCK_REASON),
        ),
        MetaCommand::CreateTable { .. } => Err(not_yet_implemented("CreateTable", OPAQUE_REASON)),
        MetaCommand::SwapActivePartitions { .. } => Err(
            not_yet_implemented("SwapActivePartitions", OPAQUE_REASON),
        ),
        MetaCommand::Batch { .. } => Err(CubeError::internal(NESTED_BATCH.to_owned())),
        MetaCommand::Generic { method, .. } => Err(generic_error(&method)),
    }
}

/// The time that the leader stamped on a command.
pub open spec fn stamp_of(cmd: MetaCommand) -> Option<i64> {
    match cmd {
        MetaCommand::CreateTableStructured { assigned_now_millis, .. }
        | MetaCommand::DeactivateChunk { assigned_now_millis, .. }
        | MetaCommand::DeactivateChunks { assigned_now_millis, .. }
        | MetaCommand::StartProcessingJob { assigned_now_millis, .. }
        | MetaCommand::UpdateStatus { assigned_now_millis, .. }
        | MetaCommand::UpdateHeartBeat { assigned_now_millis, .. }
        | MetaCommand::CreateReplayHandle { assigned_now_millis, .. }
        | MetaCommand::CreateReplayHandleFromSeqPointers { assigned_now_millis, .. } => Some(
            assigned_now_millis,
        ),
        _ => None,
    }
}

/// The time that a call is made with.
pub open spec fn call_stamp(call: StoreCall) -> Option<i64> {
    match call {
        StoreCall::CreateTableWithNow { now_millis, .. }
        | StoreCall::DeactivateChunkWithNow { now_millis, .. }
        | StoreCall::DeactivateChunksWithNow { now_millis, .. }
        | StoreCall::StartProcessingJobWithNow { now_millis, .. }
        | StoreCall::UpdateStatusWithNow { now_millis, .. }
        | StoreCall::UpdateHeartBeatWithNow { now_millis, .. }
        | StoreCall::CreateReplayHandleWithNow { now_millis, .. }
        | StoreCall::CreateReplayHandleFromSeqPointersWithNow { now_millis, .. } => Some(
            now_millis,
        ),
        _ => None,
    }
}

impl StoreCall {
    /// How the call ends: the form of its result, and the name of the command that a
    /// message about it gives.
    pub fn end(&self) -> (e: CallEnd)
        ensures
            e.shape == call_shape(*self),
            e.command@ == optional_command(*self),
    {
        match self {
            StoreCall::CreateSchema { .. }
            | StoreCall::RenameSchema { .. }
            | StoreCall::RenameSchemaById { .. } => CallEnd {
                shape: ResultShape::IdRow(IdRowKind::Schema),
                command: "",
            },
            StoreCall::DeleteSchema { .. }
            | StoreCall::DeleteSchemaById { .. }
            | StoreCall::MarkPartitionWarmedUp { .. }
            | StoreCall::SwapActivePartitions { .. }
            | StoreCall::CommitMultiPartitionSplit { .. }
            | StoreCall::DropPartitionedIndex { .. }
            | StoreCall::DeleteChunksWithoutChecks { .. }
            | StoreCall::ChunkUpdateLastInserted { .. }
            | StoreCall::SwapChunks { .. }
            | StoreCall::SwapChunksWithoutCheck { .. }
            | StoreCall::ActivateChunks { .. }
            | StoreCall::DeactivateChunkWithNow { .. }
            | StoreCall::DeactivateChunksWithNow { .. }
            | StoreCall::DeactivateChunksWithoutCheck { .. }
            | StoreCall::DeleteWal { .. }
            | StoreCall::UpdateReplayHandleFailedIfExists { .. }
            | StoreCall::SetCurrentSnapshot { .. } => CallEnd {
                shape: ResultShape::Unit,
                command: "",
            },
            StoreCall::CreateTableWithNow { .. }
            | StoreCall::DropTable { .. }
            | StoreCall::SealTable { .. }
            | StoreCall::UpdateLocationDownloadSize { .. }
            | StoreCall::TableReady { .. } => CallEnd {
                shape: ResultShape::IdRow(IdRowKind::Table),
                command: "",
            },
            StoreCall::CreatePartition { .. }
            | StoreCall::DeletePartition { .. }
            | StoreCall::DeleteMiddleManPartition { .. } => CallEnd {
                shape: ResultShape::IdRow(IdRowKind::Partition),
                command: "",
            },
            StoreCall::CreateMultiPartition { .. } => CallEnd {
                shape: ResultShape::IdRow(IdRowKind::MultiPartition),
                command: "",
            },
            StoreCall::CreateIndex { .. } => CallEnd {
                shape: ResultShape::IdRow(IdRowKind::Index),
                command: "",
            },
            StoreCall::CreatePartitionedIndex { .. } => CallEnd {
                shape: ResultShape::IdRow(IdRowKind::MultiIndex),
                command: "",
            },
            StoreCall::InsertChunkPreBuilt { .. }
            | StoreCall::DeleteChunk { .. }
            | StoreCall::ChunkUploaded { .. } => CallEnd {
                shape: ResultShape::IdRow(IdRowKind::Chunk),
                command: "",
            },
            StoreCall::InsertChunks { .. } => CallEnd {
                shape: ResultShape::IdRowList(IdRowKind::Chunk),
                command: "",
            },
            StoreCall::SwapCompactedChunks { .. } => CallEnd {
                shape: ResultShape::Bool,
                command: "",
            },
            StoreCall::CreateWal { .. }
            | StoreCall::WalUploaded { .. } => CallEnd {
                shape: ResultShape::IdRow(IdRowKind::Wal),
                command: "",
            },
            StoreCall::AddJob { .. } => CallEnd {
                shape: ResultShape::OptionalIdRow(IdRowKind::Job),
                command: "AddJob",
            },
            StoreCall::StartProcessingJobWithNow { .. } => CallEnd {
                shape: ResultShape::OptionalIdRow(IdRowKind::Job),
                command: "StartProcessingJob",
            },
            StoreCall::DeleteJob { .. }
            | StoreCall::UpdateStatusWithNow { .. }
            | StoreCall::UpdateHeartBeatWithNow { .. } => CallEnd {
                shape: ResultShape::IdRow(IdRowKind::Job),
                command: "",
            },
            StoreCall::DeleteAllJobs => CallEnd {
                shape: ResultShape::IdRowList(IdRowKind::Job),
                command: "",
            },
            StoreCall::CreateOrUpdateSource { .. }
            | StoreCall::DeleteSource { .. } => CallEnd {
                shape: ResultShape::IdRow(IdRowKind::Source),
                command: "",
            },
            StoreCall::CreateReplayHandleWithNow { .. }
            | StoreCall::CreateReplayHandleFromSeqPointersWithNow { .. } => CallEnd {
                shape: ResultShape::IdRow(IdRowKind::ReplayHandle),
                command: "",
            },
            StoreCall::ReplaceReplayHandles { .. } => CallEnd {
                shape: ResultShape::OptionalIdRow(IdRowKind::ReplayHandle),
                command: "ReplaceReplayHandles",
            },
        }
    }
}

/// The command that a message about an absent-or-present row names.
pub open spec fn optional_command(call: StoreCall) -> Seq<char> {
    match call {
        StoreCall::AddJob { .. } => "AddJob"@,
        StoreCall::StartProcessingJobWithNow { .. } => "StartProcessingJob"@,
        StoreCall::ReplaceReplayHandles { .. } => "ReplaceReplayHandles"@,
        _ => ""@,
    }
}

/// Whether one of the first blobs of a command cannot be decoded.
pub open spec fn some_blob_fails(
    blobs: Seq<BlobView>,
    faults: Seq<Option<String>>,
    n: int,
) -> bool {
    exists|i: int| 0 <= i < n && #[trigger] blob_fails(blobs[i], faults[i])
}

/// Whether a message is about the first blob that cannot be decoded.
pub open spec fn first_blob_message(
    blobs: Seq<BlobView>,
    faults: Seq<Option<String>>,
    message: Seq<char>,
) -> bool {
    exists|i: int|
        0 <= i < blobs.len() && !some_blob_fails(blobs, faults, i) && #[trigger] blob_fails(
            blobs[i],
            faults[i],
        ) && message == blob_message(blobs[i], faults[i])
}

/// Turns a command other than a batch into a call on the store.
///
/// The blobs are decoded first, in the order of [`blob_fields`]; `faults` says of each
/// what was wrong with the value that it holds, if anything. Then the numbers and
/// times are checked. A batch inside a batch is refused.
pub fn dispatch(cmd: MetaCommand, faults: &Vec<Option<String>>) -> (r: Result<StoreCall, CubeError>)
    requires
        faults@.len() == blobs_of(cmd).len(),
    ensures
        if some_blob_fails(blobs_of(cmd), faults@, faults@.len() as int) {
            r matches Err(e) && first_blob_message(blobs_of(cmd), faults@, e.message@)
        } else {
            dispatched_as(r, dispatched(cmd))
        },
        r matches Ok(call) ==> carried_out(call) == cmd && forall|i: int|
            0 <= i < faults@.len() ==> #[trigger] faults@[i] is None && flex::document_root(
                blobs_of(cmd)[i].bytes,
            ) is Some,
{
    check_blobs(&cmd, faults)?;
    proof {
        if let Dispatched::Call(call) = dispatched(cmd) {
            law_call_carries_out_its_command(cmd, call);
        }
        assert forall|i: int| 0 <= i < faults@.len() implies #[trigger] faults@[i] is None
            && flex::document_root(blobs_of(cmd)[i].bytes) is Some by {
            assert(!blob_fails(blobs_of(cmd)[i], faults@[i]));
        }
    }
    dispatch_fields(cmd)
}

fn check_blobs(cmd: &MetaCommand, faults: &Vec<Option<String>>) -> (r: Result<(), CubeError>)
    requires
        faults@.len() == blobs_of(*cmd).len(),
    ensures
        match r {
            Ok(_) => !some_blob_fails(blobs_of(*cmd), faults@, faults@.len() as int),
            Err(e) => some_blob_fails(blobs_of(*cmd), faults@, faults@.len() as int)
                && first_blob_message(blobs_of(*cmd), faults@, e.message@),
        },
{
    let fields: Vec<BlobField<'_>> = blob_fields(cmd);
    let ghost blobs = blobs_of(*cmd);
    let mut i: usize = 0;
    while i < fields.len()
        invariant
            blobs == blobs_of(*cmd),
            fields_view(fields@) == blobs,
            faults@.len() == blobs.len(),
            fields@.len() == blobs.len(),
            i <= fields@.len(),
            !some_blob_fails(blobs, faults@, i as int),
        decreases fields@.len() - i,
    {
        assert(blobs[i as int] == blob(fields@[i as int].name@, fields@[i as int].bytes@));
        match decode_typed_blob(&fields[i], &faults[i]) {
            Ok(_) => {},
            Err(e) => {
                assert(blob_fails(blobs[i as int], faults@[i as int]));
                return Err(e);
            },
        }
        i = i + 1;
    }
    Ok(())
}

// ---------------------------------------------------------------------------
// Results
// ---------------------------------------------------------------------------

/// How a call ends.
pub struct CallEnd {
    pub shape: ResultShape,
    pub command: &'static str,
}

/// What a call on the store gave. A row is its encoded bytes, or what was wrong when
/// it was encoded.
pub enum StoreReply {
    Done,
    Flag(bool),
    Row(Result<Vec<u8>, String>),
    OptionalRow(Result<Option<Vec<u8>>, String>),
    Rows(Result<Vec<u8>, String>),
}

/// Whether a reply has the form that the call gives back.
pub open spec fn reply_fits(shape: ResultShape, reply: StoreReply) -> bool {
    match shape {
        ResultShape::Unit => reply is Done,
        ResultShape::Bool => reply is Flag,
        ResultShape::IdRow(_) => reply is Row,
        ResultShape::OptionalIdRow(_) => reply is OptionalRow,
        ResultShape::IdRowList(_) => reply is Rows,
    }
}

pub open spec fn encode_text(what: Seq<char>, reason: Seq<char>) -> Seq<char> {
    "encode "@ + what + ": "@ + reason
}

fn encode_error(what: &str, kind: &str, end: &str, reason: &str) -> (e: CubeError)
    ensures
        e.message@ == encode_text(what@ + kind@ + end@, reason@),
{
    let mut s: String = "encode ".to_owned();
    s.push_str(what);
    s.push_str(kind);
    s.push_str(end);
    s.push_str(": ");
    s.push_str(reason);
    assert(s@ =~= encode_text(what@ + kind@ + end@, reason@));
    CubeError::internal(s)
}

/// Wraps a row of the given kind.
pub fn wrap_id_row(kind: IdRowKind, row: Result<Vec<u8>, String>) -> (r: Result<
    MetaCommandResult,
    CubeError,
>)
    ensures
        match row {
            Ok(payload) => r == Ok::<_, CubeError>(MetaCommandResult::IdRow { kind, payload }),
            Err(reason) => r matches Err(e) && e.message@ == encode_text(
                "IdRow<"@ + result::kind_name(kind) + "> for apply result"@,
                reason@,
            ),
        },
{
    match row {
        Ok(payload) => Ok(MetaCommandResult::IdRow { kind, payload }),
        Err(reason) => Err(
            encode_error("IdRow<", kind.name(), "> for apply result", reason.as_str()),
        ),
    }
}

/// Wraps rows of the given kind.
pub fn wrap_id_row_list(kind: IdRowKind, rows: Result<Vec<u8>, String>) -> (r: Result<
    MetaCommandResult,
    CubeError,
>)
    ensures
        match rows {
            Ok(payload) => r == Ok::<_, CubeError>(MetaCommandResult::IdRowList { kind, payload }),
            Err(reason) => r matches Err(e) && e.message@ == encode_text(
                "IdRowList<"@ + result::kind_name(kind) + "> for apply result"@,
                reason@,
            ),
        },
{
    match rows {
        Ok(payload) => Ok(MetaCommandResult::IdRowList { kind, payload }),
        Err(reason) => Err(
            encode_error("IdRowList<", kind.name(), "> for apply result", reason.as_str()),
        ),
    }
}

/// Wraps a row of the given kind that may be absent.
pub fn wrap_optional_id_row(
    kind: IdRowKind,
    row: Result<Option<Vec<u8>>, String>,
    command: &str,
) -> (r: Result<MetaCommandResult, CubeError>)
    ensures
        match row {
            Ok(payload) => r == Ok::<_, CubeError>(
                MetaCommandResult::OptionalIdRow { kind, payload },
            ),
            Err(reason) => r matches Err(e) && e.message@ == encode_text(
                command@ + " result"@,
                reason@,
            ),
        },
{
    match row {
        Ok(payload) => Ok(MetaCommandResult::OptionalIdRow { kind, payload }),
        Err(reason) => {
            let e: CubeError = encode_error(command, " result", "", reason.as_str());
            proof {
                reveal_strlit("");
                assert(command@ + " result"@ + ""@ =~= command@ + " result"@);
            }
            Err(e)
        },
    }
}

/// What applying a command gives, from what its call gave.
pub open spec fn finished(
    shape: ResultShape,
    command: Seq<char>,
    reply: StoreReply,
) -> Result<MetaCommandResult, Seq<char>> {
    match (shape, reply) {
        (ResultShape::Bool, StoreReply::Flag(v)) => Ok(MetaCommandResult::Bool(v)),
        (ResultShape::IdRow(kind), StoreReply::Row(row)) => match row {
            Ok(payload) => Ok(MetaCommandResult::IdRow { kind, payload }),
            Err(reason) => Err(
                encode_text(
                    "IdRow<"@ + result::kind_name(kind) + "> for apply result"@,
                    reason@,
                ),
            ),
        },
        (ResultShape::OptionalIdRow(kind), StoreReply::OptionalRow(row)) => match row {
            Ok(payload) => Ok(MetaCommandResult::OptionalIdRow { kind, payload }),
            Err(reason) => Err(encode_text(command + " result"@, reason@)),
        },
        (ResultShape::IdRowList(kind), StoreReply::Rows(rows)) => match rows {
            Ok(payload) => Ok(MetaCommandResult::IdRowList { kind, payload }),
            Err(reason) => Err(
                encode_text(
                    "IdRowList<"@ + result::kind_name(kind) + "> for apply result"@,
                    reason@,
                ),
            ),
        },
        _ => Ok(MetaCommandResult::Unit),
    }
}

impl CallEnd {
    /// Whether a reply has the form that the call gives back.
    pub fn accepts(&self, reply: &StoreReply) -> (r: bool)
        ensures
            r == reply_fits(self.shape, *reply),
    {
        match (self.shape, reply) {
            (ResultShape::Unit, StoreReply::Done) => true,
            (ResultShape::Bool, StoreReply::Flag(_)) => true,
            (ResultShape::IdRow(_), StoreReply::Row(_)) => true,
            (ResultShape::OptionalIdRow(_), StoreReply::OptionalRow(_)) => true,
            (ResultShape::IdRowList(_), StoreReply::Rows(_)) => true,
            _ => false,
        }
    }

    /// Wraps what the call gave, or passes on the error of the store.
    pub fn finish(&self, reply: Result<StoreReply, CubeError>) -> (r: Result<
        MetaCommandResult,
        CubeError,
    >)
        requires
            reply matches Ok(v) ==> reply_fits(self.shape, v),
        ensures
            match reply {
                Err(e) => r == Err::<MetaCommandResult, _>(e),
                Ok(v) => match finished(self.shape, self.command@, v) {
                    Ok(x) => r == Ok::<_, CubeError>(x) && result::shape_of(x) == self.shape,
                    Err(message) => r matches Err(e) && e.message@ == message,
                },
            },
    {
        match reply {
            Err(e) => Err(e),
            Ok(reply) => match (self.shape, reply) {
                (ResultShape::Bool, StoreReply::Flag(v)) => Ok(MetaCommandResult::Bool(v)),
                (ResultShape::IdRow(kind), StoreReply::Row(row)) => wrap_id_row(kind, row),
                (ResultShape::OptionalIdRow(kind), StoreReply::OptionalRow(row)) =>
                    wrap_optional_id_row(kind, row, self.command),
                (ResultShape::IdRowList(kind), StoreReply::Rows(rows)) => wrap_id_row_list(
                    kind,
                    rows,
                ),
                _ => Ok(MetaCommandResult::Unit),
            },
        }
    }
}

// ---------------------------------------------------------------------------
// Application
// ---------------------------------------------------------------------------

/// Applies commands to a local store.
pub struct RocksMetaStoreApply<S> {
    pub store: S,
}

/// How a command is applied.
pub enum ApplyStep {
    /// By itself.
    One(MetaCommand),
    /// One command of it after the other.
    Batch(BatchRun),
}

impl<S> RocksMetaStoreApply<S> {
    /// Applies commands to the given store.
    pub fn new(store: S) -> (a: RocksMetaStoreApply<S>)
        ensures
            a.store == store,
    {
        RocksMetaStoreApply { store }
    }

    /// Begins to apply a command: a batch one command after the other, any other
    /// command by itself.
    pub fn apply(&self, cmd: MetaCommand) -> (step: ApplyStep)
        ensures
            match cmd {
                MetaCommand::Batch { commands } => step matches ApplyStep::Batch(run) && run@
                    == (BatchView { rest: commands@, begun: false }),
                _ => step == ApplyStep::One(cmd),
            },
    {
        match cmd {
            MetaCommand::Batch { commands } => ApplyStep::Batch(BatchRun::new(commands)),
            _ => ApplyStep::One(cmd),
        }
    }
}

/// A batch that is being applied: what is left of it, and whether a command of it was
/// handed out already.
pub struct BatchView {
    pub rest: Seq<MetaCommand>,
    pub begun: bool,
}

/// A batch that is being applied. All of its commands take effect together, or none does.
pub struct BatchRun {
    rest: Vec<MetaCommand>,
    begun: bool,
}

/// What to do next about a batch.
pub enum BatchStep {
    /// Apply this command, as a part of the one write that the batch is. If it fails, the
    /// batch has failed.
    Apply(MetaCommand),
    /// Take back whatever was applied of the batch, and answer with this error.
    Reject(CubeError),
    /// Let everything that was applied of the batch take effect, and answer with this
    /// result.
    Done(MetaCommandResult),
}

impl View for BatchRun {
    type V = BatchView;

    closed spec fn view(&self) -> BatchView {
        BatchView { rest: self.rest@.reverse(), begun: self.begun }
    }
}

/// Whether a batch fails before its next command: it has no commands at all, or the next
/// one is a batch itself.
pub open spec fn refused(b: BatchView) -> Option<Seq<char>> {
    if b.rest.len() == 0 {
        if b.begun {
            None
        } else {
            Some(EMPTY_BATCH@)
        }
    } else if b.rest[0] is Batch {
        Some(NESTED_BATCH@)
    } else {
        None
    }
}

/// The command of a batch that is applied next.
pub open spec fn next_in(b: BatchView) -> MetaCommand {
    b.rest[0]
}

/// A batch once its next command was taken.
pub open spec fn behind_next(b: BatchView) -> BatchView {
    BatchView { rest: b.rest.skip(1), begun: true }
}

impl BatchRun {
    fn new(commands: Vec<MetaCommand>) -> (run: BatchRun)
        ensures
            run@ == (BatchView { rest: commands@, begun: false }),
    {
        let ghost all = commands@;
        let mut left: Vec<MetaCommand> = commands;
        let mut rest: Vec<MetaCommand> = Vec::new();
        while left.len() > 0
            invariant
                all == left@ + rest@.reverse(),
            decreases left@.len(),
        {
            let ghost before = left@;
            match left.pop() {
                Some(cmd) => {
                    let ghost moved = rest@;
                    rest.push(cmd);
                    assert(rest@.reverse() =~= seq![cmd] + moved.reverse());
                    assert(before =~= left@ + seq![cmd]);
                    assert(all =~= left@ + rest@.reverse());
                },
                None => {},
            }
        }
        assert(all =~= rest@.reverse());
        BatchRun { rest, begun: false }
    }

    /// Takes the next command of the batch. A batch without commands is refused, and so is
    /// a batch inside it.
    pub fn next(&mut self) -> (step: BatchStep)
        ensures
            match refused(old(self)@) {
                Some(message) => step matches BatchStep::Reject(e) && e.message@ == message,
                None => if old(self)@.rest.len() == 0 {
                    step == BatchStep::Done(MetaCommandResult::Unit)
                } else {
                    step == BatchStep::Apply(next_in(old(self)@))
                },
            },
            final(self)@ == (if old(self)@.rest.len() == 0 {
                old(self)@
            } else {
                behind_next(old(self)@)
            }),
    {
        let ghost before = self.rest@;
        match self.rest.pop() {
            None => {
                assert(before.reverse().len() == 0);
                if self.begun {
                    BatchStep::Done(MetaCommandResult::Unit)
                } else {
                    BatchStep::Reject(CubeError::internal(EMPTY_BATCH.to_owned()))
                }
            },
            Some(cmd) => {
                self.begun = true;
                assert(self.rest@.reverse() =~= before.reverse().skip(1));
                assert(before.reverse()[0] == cmd);
                match cmd {
                    MetaCommand::Batch { .. } => BatchStep::Reject(
                        CubeError::internal(NESTED_BATCH.to_owned()),
                    ),
                    _ => BatchStep::Apply(cmd),
                }
            },
        }
    }

    /// Ends the batch, because the command that was handed out last failed.
    pub fn failed(self, e: CubeError) -> (step: BatchStep)
        ensures
            step == BatchStep::Reject(e),
    {
        BatchStep::Reject(e)
    }
}

// ---------------------------------------------------------------------------
// Laws
// ---------------------------------------------------------------------------

/// What a batch comes to, step by step. `before` is the state of the store when the batch
/// began, `now` its state with what was applied of the batch so far; `effect` is what a
/// command makes of a state, or the error with which it fails.
pub open spec fn batch_end<S>(
    b: BatchView,
    before: S,
    now: S,
    effect: spec_fn(S, MetaCommand) -> Result<S, Seq<char>>,
) -> (S, Result<(), Seq<char>>)
    decreases b.rest.len(),
{
    match refused(b) {
        Some(message) => (before, Err(message)),
        None => if b.rest.len() == 0 {
            (now, Ok(()))
        } else {
            match effect(now, next_in(b)) {
                Err(message) => (before, Err(message)),
                Ok(then) => batch_end(behind_next(b), before, then, effect),
            }
        },
    }
}

/// The state after commands were applied in order, `None` where one of them failed.
pub open spec fn all_applied<S>(
    commands: Seq<MetaCommand>,
    now: S,
    effect: spec_fn(S, MetaCommand) -> Result<S, Seq<char>>,
) -> Option<S>
    decreases commands.len(),
{
    if commands.len() == 0 {
        Some(now)
    } else {
        match effect(now, commands[0]) {
            Err(_) => None,
            Ok(then) => all_applied(commands.skip(1), then, effect),
        }
    }
}

proof fn lemma_batch_end<S>(
    b: BatchView,
    before: S,
    now: S,
    effect: spec_fn(S, MetaCommand) -> Result<S, Seq<char>>,
)
    ensures
        ({
            let (after, r) = batch_end(b, before, now, effect);
            &&& r is Err ==> after == before
            &&& r is Ok <==> (b.begun || b.rest.len() > 0) && all_applied(b.rest, now, effect)
                is Some && forall|i: int|
                0 <= i < b.rest.len() ==> !(#[trigger] b.rest[i] is Batch)
            &&& r is Ok ==> Some(after) == all_applied(b.rest, now, effect)
        }),
    decreases b.rest.len(),
{
    let rest = b.rest;
    if rest.len() > 0 {
        let tail = rest.skip(1);
        if !(rest[0] is Batch) {
            if let Ok(then) = effect(now, rest[0]) {
                lemma_batch_end(BatchView { rest: tail, begun: true }, before, then, effect);
            }
        }
        if exists|i: int| 0 <= i < tail.len() && #[trigger] tail[i] is Batch {
            let i = choose|i: int| 0 <= i < tail.len() && #[trigger] tail[i] is Batch;
            assert(rest[i + 1] is Batch);
        } else {
            assert forall|i: int| 0 < i < rest.len() implies !(#[trigger] rest[i] is Batch) by {
                assert(!(tail[i - 1] is Batch));
            }
        }
    }
}

/// A batch is all or nothing: it succeeds exactly if it has commands, none of them is a
/// batch and each of them succeeds behind those before it, and then all of them are
/// applied in order; otherwise the store is as it was before.
pub proof fn law_batch_all_or_nothing<S>(
    commands: Seq<MetaCommand>,
    before: S,
    effect: spec_fn(S, MetaCommand) -> Result<S, Seq<char>>,
)
    ensures
        ({
            let (after, r) = batch_end(
                BatchView { rest: commands, begun: false },
                before,
                before,
                effect,
            );
            &&& r is Err ==> after == before
            &&& r is Ok <==> commands.len() > 0 && all_applied(commands, before, effect) is Some
                && forall|i: int|
                0 <= i < commands.len() ==> !(#[trigger] commands[i] is Batch)
            &&& r is Ok ==> Some(after) == all_applied(commands, before, effect)
        }),
{
    lemma_batch_end(BatchView { rest: commands, begun: false }, before, before, effect);
}

/// A batch without commands is refused, whatever the store.
pub proof fn law_empty_batch<S>(
    before: S,
    effect: spec_fn(S, MetaCommand) -> Result<S, Seq<char>>,
)
    ensures
        batch_end(BatchView { rest: seq![], begun: false }, before, before, effect) == (
            before,
            Err::<(), Seq<char>>(EMPTY_BATCH@),
        ),
{
}

/// What a call gives back has the form that the proposer of the command expects.
pub proof fn law_result_shape(cmd: MetaCommand)
    ensures
        dispatched(cmd) matches Dispatched::Call(call) ==> command_shape(cmd) == Some(
            call_shape(call),
        ),
{
}

/// The error of a command with bad blobs is about the first of them: it gives the name of
/// that blob, and what its root or else the value in it was refused for.
pub proof fn law_first_bad_blob_is_reported(
    blobs: Seq<BlobView>,
    faults: Seq<Option<String>>,
    message: Seq<char>,
    i: int,
)
    requires
        first_blob_message(blobs, faults, message),
        0 <= i < blobs.len(),
        flex::document_root(blobs[i].bytes) is None || faults[i] is Some,
        forall|j: int|
            0 <= j < i ==> flex::document_root((#[trigger] blobs[j]).bytes) is Some && faults[j]
                is None,
    ensures
        flex::document_root(blobs[i].bytes) is None ==> message == blob_text(
            blobs[i].name,
            flex::fault_text(flex::root_fault(blobs[i].bytes)),
        ),
        flex::document_root(blobs[i].bytes) is Some ==> message == blob_text(
            blobs[i].name,
            faults[i]->0@,
        ),
{
    let k = choose|k: int|
        0 <= k < blobs.len() && !some_blob_fails(blobs, faults, k) && #[trigger] blob_fails(
            blobs[k],
            faults[k],
        ) && message == blob_message(blobs[k], faults[k]);
    assert(blob_fails(blobs[i], faults[i]));
    if k < i {
        assert(flex::document_root(blobs[k].bytes) is Some);
    }
}

/// A result of dispatching is what becomes of the command: that call, or an error with that
/// message.
pub proof fn law_dispatch_gives_what_becomes(r: Result<StoreCall, CubeError>, d: Dispatched)
    requires
        dispatched_as(r, d),
    ensures
        r matches Ok(call) ==> d == Dispatched::Call(call),
        r matches Err(e) ==> d == Dispatched::Fail(e.message@),
{
}

/// A message about a row that may be absent names the command that asked for it.
pub proof fn law_optional_rows_name_their_command(call: StoreCall)
    requires
        call_shape(call) is OptionalIdRow,
    ensures
        ({
            let v = carried_out(call).value();
            v matches Flex::Record(whole) && whole[0].0 == optional_command(call)
        }),
{
    reveal(MetaCommand::value);
}

/// Which commands give which result: those about a row give that row, those that may find
/// none give a row or none, those about many give rows, a swap of compacted chunks says
/// whether it took place, and the others give nothing.
pub proof fn law_what_commands_give(cmd: MetaCommand)
    ensures
        command_shape(cmd) == Some(ResultShape::IdRow(IdRowKind::Schema)) <==> cmd is CreateSchema
            || cmd is RenameSchema || cmd is RenameSchemaById,
        command_shape(cmd) == Some(ResultShape::Unit) <==> cmd is DeleteSchema
            || cmd is DeleteSchemaById || cmd is MarkPartitionWarmedUp
            || cmd is SwapActivePartitionsStructured || cmd is CommitMultiPartitionSplit
            || cmd is DropPartitionedIndex || cmd is DeleteChunksWithoutChecks
            || cmd is ChunkUpdateLastInserted || cmd is SwapChunks
            || cmd is SwapChunksWithoutCheck || cmd is ActivateChunks || cmd is DeactivateChunk
            || cmd is DeactivateChunks || cmd is DeactivateChunksWithoutCheck || cmd is DeleteWal
            || cmd is UpdateReplayHandleFailedIfExists || cmd is SetCurrentSnapshot
            || cmd is Batch,
        command_shape(cmd) == Some(ResultShape::IdRow(IdRowKind::Table)) <==> cmd is CreateTableStructured
            || cmd is DropTable || cmd is SealTable || cmd is UpdateLocationDownloadSize
            || cmd is TableReady,
        command_shape(cmd) == Some(ResultShape::IdRow(IdRowKind::Partition)) <==> cmd is CreatePartition
            || cmd is DeletePartition || cmd is DeleteMiddleManPartition,
        command_shape(cmd) == Some(ResultShape::IdRow(IdRowKind::MultiPartition)) <==> cmd is CreateMultiPartition,
        command_shape(cmd) == Some(ResultShape::IdRow(IdRowKind::Index)) <==> cmd is CreateIndex,
        command_shape(cmd) == Some(ResultShape::IdRow(IdRowKind::MultiIndex)) <==> cmd is CreatePartitionedIndex,
        command_shape(cmd) == Some(ResultShape::IdRow(IdRowKind::Chunk)) <==> cmd is CreateChunk
            || cmd is DeleteChunk || cmd is ChunkUploaded,
        command_shape(cmd) == Some(ResultShape::IdRowList(IdRowKind::Chunk)) <==> cmd is InsertChunks,
        command_shape(cmd) == Some(ResultShape::Bool) <==> cmd is SwapCompactedChunks,
        command_shape(cmd) == Some(ResultShape::IdRow(IdRowKind::Wal)) <==> cmd is CreateWal
            || cmd is WalUploaded,
        command_shape(cmd) == Some(ResultShape::OptionalIdRow(IdRowKind::Job)) <==> cmd is AddJob
            || cmd is StartProcessingJob,
        command_shape(cmd) == Some(ResultShape::IdRow(IdRowKind::Job)) <==> cmd is DeleteJob
            || cmd is UpdateStatus || cmd is UpdateHeartBeat,
        command_shape(cmd) == Some(ResultShape::IdRowList(IdRowKind::Job)) <==> cmd is DeleteAllJobs,
        command_shape(cmd) == Some(ResultShape::IdRow(IdRowKind::Source)) <==> cmd is CreateOrUpdateSource
            || cmd is DeleteSource,
        command_shape(cmd) == Some(ResultShape::IdRow(IdRowKind::ReplayHandle)) <==> cmd is CreateReplayHandle
            || cmd is CreateReplayHandleFromSeqPointers,
        command_shape(cmd) == Some(ResultShape::OptionalIdRow(IdRowKind::ReplayHandle)) <==> cmd is ReplaceReplayHandles,
{
}

/// Whether the numbers of a command fit the machine, and its times the calendar.
pub open spec fn numbers_fit(cmd: MetaCommand) -> bool {
    &&& stamp_of(cmd) matches Some(now) ==> representable_millis(now)
    &&& match cmd {
        MetaCommand::CreateWal { row_count, .. } => row_count <= usize::MAX,
        MetaCommand::CreateReplayHandle { location_index, .. } => location_index <= usize::MAX,
        MetaCommand::ChunkUpdateLastInserted { last_inserted_at_millis, .. } => optional_millis(
            last_inserted_at_millis,
        ),
        MetaCommand::CreateTableStructured { build_range_end_millis, seal_at_millis, .. } =>
            optional_millis(build_range_end_millis) && optional_millis(seal_at_millis),
        _ => true,
    }
}

/// Every command but a batch that can succeed at all becomes a call, unless one of its
/// numbers does not fit; no other command does.
pub proof fn law_dispatch_succeeds(cmd: MetaCommand)
    ensures
        dispatched(cmd) is Call <==> command_shape(cmd) is Some && !(cmd is Batch) && numbers_fit(
            cmd,
        ),
{
}

/// A replica writes the time that the leader stamped on the command, never its own.
pub proof fn law_leader_time(cmd: MetaCommand)
    ensures
        dispatched(cmd) matches Dispatched::Call(call) ==> call_stamp(call) == stamp_of(cmd),
{
}

/// The command that a call carries out.
pub open spec fn carried_out(call: StoreCall) -> MetaCommand {
    match call {
        StoreCall::CreateSchema { schema_name, if_not_exists } => MetaCommand::CreateSchema {
            schema_name, if_not_exists,
        },
        StoreCall::RenameSchema { old_schema_name, new_schema_name } => MetaCommand::RenameSchema {
            old_schema_name, new_schema_name,
        },
        StoreCall::RenameSchemaById {
            schema_id,
            new_schema_name,
        } => MetaCommand::RenameSchemaById {
            schema_id, new_schema_name,
        },
        StoreCall::DeleteSchema { schema_name } => MetaCommand::DeleteSchema { schema_name },
        StoreCall::DeleteSchemaById { schema_id } => MetaCommand::DeleteSchemaById { schema_id },
        StoreCall::CreateTableWithNow {
            schema_name,
            table_name,
            columns_blob,
            locations,
            import_format_blob,
            indexes_blob,
            is_ready,
            build_range_end_millis,
            seal_at_millis,
            select_statement,
            source_columns_blob,
            stream_offset_blob,
            unique_key_column_names,
            aggregates,
            partition_split_threshold,
            trace_obj,
            drop_if_exists,
            extension,
            now_millis,
        } => MetaCommand::CreateTableStructured {
            schema_name,
            table_name,
            columns_blob,
            locations,
            import_format_blob,
            indexes_blob,
            is_ready,
            build_range_end_millis,
            seal_at_millis,
            select_statement,
            source_columns_blob,
            stream_offset_blob,
            unique_key_column_names,
            aggregates,
            partition_split_threshold,
            trace_obj,
            drop_if_exists,
            extension,
            assigned_now_millis: now_millis,
        },
        StoreCall::DropTable { table_id } => MetaCommand::DropTable { table_id },
        StoreCall::SealTable { table_id } => MetaCommand::SealTable { table_id },
        StoreCall::UpdateLocationDownloadSize {
            table_id,
            location,
            download_size,
        } => MetaCommand::UpdateLocationDownloadSize {
            table_id, location, download_size,
        },
        StoreCall::TableReady { table_id, is_ready } => MetaCommand::TableReady {
            table_id, is_ready,
        },
        StoreCall::CreatePartition { partition_blob } => MetaCommand::CreatePartition {
            partition_blob,
        },
        StoreCall::DeletePartition { partition_id } => MetaCommand::DeletePartition {
            partition_id,
        },
        StoreCall::MarkPartitionWarmedUp { partition_id } => MetaCommand::MarkPartitionWarmedUp {
            partition_id,
        },
        StoreCall::DeleteMiddleManPartition {
            partition_id,
        } => MetaCommand::DeleteMiddleManPartition {
            partition_id,
        },
        StoreCall::SwapActivePartitions {
            current_active_blob,
            new_active_blob,
            new_active_min_max_blob,
        } => MetaCommand::SwapActivePartitionsStructured {
            current_active_blob, new_active_blob, new_active_min_max_blob,
        },
        StoreCall::CreateMultiPartition {
            multi_partition_blob,
        } => MetaCommand::CreateMultiPartition {
            multi_partition_blob,
        },
        StoreCall::CommitMultiPartitionSplit {
            multi_partition_id,
            new_multi_partitions,
            new_multi_partition_rows,
            old_partitions_blob,
            new_partitions_blob,
            new_partition_rows,
            initial_split,
        } => MetaCommand::CommitMultiPartitionSplit {
            multi_partition_id,
            new_multi_partitions,
            new_multi_partition_rows,
            old_partitions_blob,
            new_partitions_blob,
            new_partition_rows,
            initial_split,
        },
        StoreCall::CreateIndex {
            schema_name,
            table_name,
            index_def_blob,
        } => MetaCommand::CreateIndex {
            schema_name, table_name, index_def_blob,
        },
        StoreCall::CreatePartitionedIndex {
            schema,
            name,
            columns_blob,
            if_not_exists,
        } => MetaCommand::CreatePartitionedIndex {
            schema, name, columns_blob, if_not_exists,
        },
        StoreCall::DropPartitionedIndex { schema, name } => MetaCommand::DropPartitionedIndex {
            schema, name,
        },
        StoreCall::InsertChunkPreBuilt { chunk_blob } => MetaCommand::CreateChunk { chunk_blob },
        StoreCall::InsertChunks { chunks_blob } => MetaCommand::InsertChunks { chunks_blob },
        StoreCall::SwapCompactedChunks {
            partition_id,
            old_chunk_ids,
            new_chunk,
            new_chunk_file_size,
        } => MetaCommand::SwapCompactedChunks {
            partition_id, old_chunk_ids, new_chunk, new_chunk_file_size,
        },
        StoreCall::DeleteChunk { chunk_id } => MetaCommand::DeleteChunk { chunk_id },
        StoreCall::DeleteChunksWithoutChecks {
            chunk_ids,
        } => MetaCommand::DeleteChunksWithoutChecks {
            chunk_ids,
        },
        StoreCall::ChunkUploaded { chunk_id } => MetaCommand::ChunkUploaded { chunk_id },
        StoreCall::ChunkUpdateLastInserted {
            chunk_ids,
            last_inserted_at_millis,
        } => MetaCommand::ChunkUpdateLastInserted {
            chunk_ids, last_inserted_at_millis,
        },
        StoreCall::SwapChunks {
            deactivate_ids,
            uploaded_ids_and_sizes,
            new_replay_handle_id,
        } => MetaCommand::SwapChunks {
            deactivate_ids, uploaded_ids_and_sizes, new_replay_handle_id,
        },
        StoreCall::SwapChunksWithoutCheck {
            deactivate_ids,
            uploaded_ids_and_sizes,
            new_replay_handle_id,
        } => MetaCommand::SwapChunksWithoutCheck {
            deactivate_ids, uploaded_ids_and_sizes, new_replay_handle_id,
        },
        StoreCall::ActivateChunks {
            table_id,
            uploaded_chunk_ids,
            replay_handle_id,
        } => MetaCommand::ActivateChunks {
            table_id, uploaded_chunk_ids, replay_handle_id,
        },
        StoreCall::DeactivateChunkWithNow { chunk_id, now_millis } => MetaCommand::DeactivateChunk {
            chunk_id, assigned_now_millis: now_millis,
        },
        StoreCall::DeactivateChunksWithNow {
            chunk_ids,
            now_millis,
        } => MetaCommand::DeactivateChunks {
            chunk_ids, assigned_now_millis: now_millis,
        },
        StoreCall::DeactivateChunksWithoutCheck {
            deactivate_ids,
        } => MetaCommand::DeactivateChunksWithoutCheck {
            deactivate_ids,
        },
        StoreCall::CreateWal { table_id, row_count } => MetaCommand::CreateWal {
            table_id, row_count: row_count as u64,
        },
        StoreCall::DeleteWal { wal_id } => MetaCommand::DeleteWal { wal_id },
        StoreCall::WalUploaded { wal_id } => MetaCommand::WalUploaded { wal_id },
        StoreCall::AddJob { job_blob } => MetaCommand::AddJob { job_blob },
        StoreCall::DeleteJob { job_id } => MetaCommand::DeleteJob { job_id },
        StoreCall::DeleteAllJobs => MetaCommand::DeleteAllJobs,
        StoreCall::StartProcessingJobWithNow {
            server_name,
            long_term,
            now_millis,
        } => MetaCommand::StartProcessingJob {
            server_name, long_term, assigned_now_millis: now_millis,
        },
        StoreCall::UpdateStatusWithNow {
            job_id,
            status_blob,
            now_millis,
        } => MetaCommand::UpdateStatus {
            job_id, status_blob, assigned_now_millis: now_millis,
        },
        StoreCall::UpdateHeartBeatWithNow { job_id, now_millis } => MetaCommand::UpdateHeartBeat {
            job_id, assigned_now_millis: now_millis,
        },
        StoreCall::CreateOrUpdateSource {
            name,
            credentials_blob,
        } => MetaCommand::CreateOrUpdateSource {
            name, credentials_blob,
        },
        StoreCall::DeleteSource { id } => MetaCommand::DeleteSource { id },
        StoreCall::CreateReplayHandleWithNow {
            table_id,
            location_index,
            seq_pointer_blob,
            now_millis,
        } => MetaCommand::CreateReplayHandle {
            table_id,
            location_index: location_index as u64,
            seq_pointer_blob,
            assigned_now_millis: now_millis,
        },
        StoreCall::CreateReplayHandleFromSeqPointersWithNow {
            table_id,
            seq_pointers_blob,
            now_millis,
        } => MetaCommand::CreateReplayHandleFromSeqPointers {
            table_id, seq_pointers_blob, assigned_now_millis: now_millis,
        },
        StoreCall::UpdateReplayHandleFailedIfExists {
            id,
            failed,
        } => MetaCommand::UpdateReplayHandleFailedIfExists {
            id, failed,
        },
        StoreCall::ReplaceReplayHandles {
            old_ids,
            new_seq_pointer_blob,
        } => MetaCommand::ReplaceReplayHandles {
            old_ids, new_seq_pointer_blob,
        },
        StoreCall::SetCurrentSnapshot { snapshot_id } => MetaCommand::SetCurrentSnapshot {
            snapshot_id_low: (snapshot_id % 0x1_0000_0000_0000_0000) as u64,
            snapshot_id_high: (snapshot_id / 0x1_0000_0000_0000_0000) as u64,
        },
    }
}

/// The write of the metadata store that a call carries out.
pub open spec fn write_behind(call: StoreCall) -> Seq<char> {
    match call {
        StoreCall::CreateSchema { .. } => "create_schema"@,
        StoreCall::RenameSchema { .. } => "rename_schema"@,
        StoreCall::RenameSchemaById { .. } => "rename_schema_by_id"@,
        StoreCall::DeleteSchema { .. } => "delete_schema"@,
        StoreCall::DeleteSchemaById { .. } => "delete_schema_by_id"@,
        StoreCall::CreateTableWithNow { .. } => "create_table"@,
        StoreCall::DropTable { .. } => "drop_table"@,
        StoreCall::SealTable { .. } => "seal_table"@,
        StoreCall::UpdateLocationDownloadSize { .. } => "update_location_download_size"@,
        StoreCall::TableReady { .. } => "table_ready"@,
        StoreCall::CreatePartition { .. } => "create_partition"@,
        StoreCall::DeletePartition { .. } => "delete_partition"@,
        StoreCall::MarkPartitionWarmedUp { .. } => "mark_partition_warmed_up"@,
        StoreCall::DeleteMiddleManPartition { .. } => "delete_middle_man_partition"@,
        StoreCall::SwapActivePartitions { .. } => "swap_active_partitions"@,
        StoreCall::CreateMultiPartition { .. } => "create_multi_partition"@,
        StoreCall::CommitMultiPartitionSplit { .. } => "commit_multi_partition_split"@,
        StoreCall::CreateIndex { .. } => "create_index"@,
        StoreCall::CreatePartitionedIndex { .. } => "create_partitioned_index"@,
        StoreCall::DropPartitionedIndex { .. } => "drop_partitioned_index"@,
        StoreCall::InsertChunkPreBuilt { .. } => "create_chunk"@,
        StoreCall::InsertChunks { .. } => "insert_chunks"@,
        StoreCall::SwapCompactedChunks { .. } => "swap_compacted_chunks"@,
        StoreCall::DeleteChunk { .. } => "delete_chunk"@,
        StoreCall::DeleteChunksWithoutChecks { .. } => "delete_chunks_without_checks"@,
        StoreCall::ChunkUploaded { .. } => "chunk_uploaded"@,
        StoreCall::ChunkUpdateLastInserted { .. } => "chunk_update_last_inserted"@,
        StoreCall::SwapChunks { .. } => "swap_chunks"@,
        StoreCall::SwapChunksWithoutCheck { .. } => "swap_chunks_without_check"@,
        StoreCall::ActivateChunks { .. } => "activate_chunks"@,
        StoreCall::DeactivateChunkWithNow { .. } => "deactivate_chunk"@,
        StoreCall::DeactivateChunksWithNow { .. } => "deactivate_chunks"@,
        StoreCall::DeactivateChunksWithoutCheck { .. } => "deactivate_chunks_without_check"@,
        StoreCall::CreateWal { .. } => "create_wal"@,
        StoreCall::DeleteWal { .. } => "delete_wal"@,
        StoreCall::WalUploaded { .. } => "wal_uploaded"@,
        StoreCall::AddJob { .. } => "add_job"@,
        StoreCall::DeleteJob { .. } => "delete_job"@,
        StoreCall::DeleteAllJobs => "delete_all_jobs"@,
        StoreCall::StartProcessingJobWithNow { .. } => "start_processing_job"@,
        StoreCall::UpdateStatusWithNow { .. } => "update_status"@,
        StoreCall::UpdateHeartBeatWithNow { .. } => "update_heart_beat"@,
        StoreCall::CreateOrUpdateSource { .. } => "create_or_update_source"@,
        StoreCall::DeleteSource { .. } => "delete_source"@,
        StoreCall::CreateReplayHandleWithNow { .. } => "create_replay_handle"@,
        StoreCall::CreateReplayHandleFromSeqPointersWithNow { .. } =>
            "create_replay_handle_from_seq_pointers"@,
        StoreCall::UpdateReplayHandleFailedIfExists { .. } =>
            "update_replay_handle_failed_if_exists"@,
        StoreCall::ReplaceReplayHandles { .. } => "replace_replay_handles"@,
        StoreCall::SetCurrentSnapshot { .. } => "set_current_snapshot"@,
    }
}

/// The encoded values that a call hands to the store, in order.
pub open spec fn encoded_in(call: StoreCall) -> Seq<Seq<u8>> {
    match call {
        StoreCall::CreateTableWithNow {
            columns_blob,
            import_format_blob,
            indexes_blob,
            source_columns_blob,
            stream_offset_blob,
            ..
        } => seq![
            Some(columns_blob),
            import_format_blob,
            Some(indexes_blob),
            source_columns_blob,
            stream_offset_blob,
        ].filter(|b: Option<Vec<u8>>| b is Some).map_values(|b: Option<Vec<u8>>| b->0@),
        StoreCall::CreatePartition { partition_blob } => seq![partition_blob@],
        StoreCall::SwapActivePartitions {
            current_active_blob,
            new_active_blob,
            new_active_min_max_blob,
        } => seq![current_active_blob@, new_active_blob@, new_active_min_max_blob@],
        StoreCall::CreateMultiPartition { multi_partition_blob } => seq![multi_partition_blob@],
        StoreCall::CommitMultiPartitionSplit { old_partitions_blob, new_partitions_blob, .. } =>
            seq![old_partitions_blob@, new_partitions_blob@],
        StoreCall::CreateIndex { index_def_blob, .. } => seq![index_def_blob@],
        StoreCall::CreatePartitionedIndex { columns_blob, .. } => seq![columns_blob@],
        StoreCall::InsertChunkPreBuilt { chunk_blob } => seq![chunk_blob@],
        StoreCall::InsertChunks { chunks_blob } => seq![chunks_blob@],
        StoreCall::AddJob { job_blob } => seq![job_blob@],
        StoreCall::UpdateStatusWithNow { status_blob, .. } => seq![status_blob@],
        StoreCall::CreateOrUpdateSource { credentials_blob, .. } => seq![credentials_blob@],
        StoreCall::CreateReplayHandleWithNow { seq_pointer_blob, .. } => seq![seq_pointer_blob@],
        StoreCall::CreateReplayHandleFromSeqPointersWithNow { seq_pointers_blob, .. } =>
            seq![seq_pointers_blob@],
        StoreCall::ReplaceReplayHandles { new_seq_pointer_blob, .. } =>
            seq![new_seq_pointer_blob@],
        _ => seq![],
    }
}

/// A call carries out the command that it came of, with every argument as the command has it,
/// and every call that a store can be given comes of the command that it carries out. So no
/// two commands become the same call, and no call is out of reach.
pub proof fn law_call_carries_out_its_command(cmd: MetaCommand, call: StoreCall)
    ensures
        dispatched(cmd) == Dispatched::Call(call) ==> carried_out(call) == cmd,
        numbers_fit(carried_out(call)) ==> dispatched(carried_out(call)) == Dispatched::Call(call),
{
    match call {
        StoreCall::SetCurrentSnapshot { snapshot_id } => law_halves(snapshot_id),
        _ => {},
    }
    if let MetaCommand::SetCurrentSnapshot { snapshot_id_low, snapshot_id_high } = cmd {
        let n = joined(snapshot_id_low, snapshot_id_high);
        assert(n % 0x1_0000_0000_0000_0000 == snapshot_id_low && n / 0x1_0000_0000_0000_0000
            == snapshot_id_high);
    }
}

/// Commands that are told apart become calls that are told apart.
pub proof fn law_different_commands_different_calls(a: MetaCommand, b: MetaCommand)
    requires
        dispatched(a) is Call,
        dispatched(a) == dispatched(b),
    ensures
        a == b,
{
    let call = dispatched(a)->Call_0;
    law_call_carries_out_its_command(a, call);
    law_call_carries_out_its_command(b, call);
}

/// Every encoded value that a call hands to the store was decoded before, and no other was.
pub proof fn law_every_blob_is_decoded(cmd: MetaCommand, call: StoreCall)
    requires
        dispatched(cmd) == Dispatched::Call(call),
    ensures
        blobs_of(cmd).map_values(|b: BlobView| b.bytes) == encoded_in(call),
{
    let bytes = blobs_of(cmd).map_values(|b: BlobView| b.bytes);
    if let MetaCommand::CreateTableStructured {
        columns_blob,
        import_format_blob,
        indexes_blob,
        source_columns_blob,
        stream_offset_blob,
        ..
    } = cmd {
        let some = |b: Option<Vec<u8>>| b is Some;
        let all = seq![
            Some(columns_blob),
            import_format_blob,
            Some(indexes_blob),
            source_columns_blob,
            stream_offset_blob,
        ];
        reveal(Seq::filter);
        let (a, b, c, d) = (
            all.drop_last(),
            all.drop_last().drop_last(),
            all.drop_last().drop_last().drop_last(),
            all.drop_last().drop_last().drop_last().drop_last(),
        );
        assert(d.drop_last().filter(some) =~= seq![]);
        assert(d.filter(some) =~= seq![all[0]]);
        assert(c.filter(some) == if all[1] is Some {
            d.filter(some).push(all[1])
        } else {
            d.filter(some)
        });
        assert(b.filter(some) == c.filter(some).push(all[2]));
        assert(a.filter(some) == if all[3] is Some {
            b.filter(some).push(all[3])
        } else {
            b.filter(some)
        });
        assert(all.filter(some) == if all[4] is Some {
            a.filter(some).push(all[4])
        } else {
            a.filter(some)
        });
    }
    assert(bytes =~= encoded_in(call));
}

/// A blob is a field of the command on the wire, and a message about it gives the name of
/// that field.
#[verifier::rlimit(40)]
pub proof fn law_blobs_are_fields(cmd: MetaCommand, i: int)
    requires
        0 <= i < blobs_of(cmd).len(),
    ensures
        codec::fields_in(cmd.value()).contains(
            (blobs_of(cmd)[i].name, wire::bytes_value(blobs_of(cmd)[i].bytes)),
        ),
{
    reveal(MetaCommand::value);
    let fields = codec::fields_in(cmd.value());
    let b = blobs_of(cmd)[i];
    let field = (b.name, wire::bytes_value(b.bytes));
    assert(fields.len() > 0);
    match cmd {
        MetaCommand::CreateTableStructured { .. } => {
            assert(field == fields[2] || field == fields[4] || field == fields[5] || field
                == fields[10] || field == fields[11]);
        },
        MetaCommand::SwapActivePartitionsStructured { .. } => {
            assert(field == fields[i]);
        },
        MetaCommand::CommitMultiPartitionSplit { .. } => {
            assert(field == fields[3 + i]);
        },
        MetaCommand::CreateIndex { .. }
        | MetaCommand::CreatePartitionedIndex { .. }
        | MetaCommand::CreateReplayHandle { .. } => {
            assert(field == fields[2]);
        },
        MetaCommand::UpdateStatus { .. }
        | MetaCommand::CreateOrUpdateSource { .. }
        | MetaCommand::CreateReplayHandleFromSeqPointers { .. }
        | MetaCommand::ReplaceReplayHandles { .. } => {
            assert(field == fields[1]);
        },
        _ => {
            assert(field == fields[0]);
        },
    }
}

/// A time is refused exactly if no date stands for it, and an absent one never is.
pub proof fn law_times_with_a_date(ms: i64)
    ensures
        optional_millis(None),
        optional_millis(Some(ms)) <==> representable_millis(ms),
        representable_millis(ms) <==> -8_334_601_228_800_000 <= ms <= 8_210_266_876_799_999,
{
}

/// What a call gave reaches the caller: its row, rows or flag as the store gave it, in the
/// form that was asked for. It fails exactly if a row could not be encoded, and then the
/// message ends with what was wrong.
pub proof fn law_reply_reaches_the_caller(
    shape: ResultShape,
    command: Seq<char>,
    reply: StoreReply,
)
    requires
        reply_fits(shape, reply),
    ensures
        ({
            let r = finished(shape, command, reply);
            match reply {
                StoreReply::Done => r matches Ok(x) && x is Unit,
                StoreReply::Flag(v) => r matches Ok(x) && x == MetaCommandResult::Bool(v),
                StoreReply::Row(Ok(row)) => r matches Ok(x) && (x matches MetaCommandResult::IdRow {
                    payload,
                    kind,
                } && payload == row && shape == ResultShape::IdRow(kind)),
                StoreReply::OptionalRow(Ok(row)) => r matches Ok(x) && (
                x matches MetaCommandResult::OptionalIdRow { payload, kind } && payload == row
                    && shape == ResultShape::OptionalIdRow(kind)),
                StoreReply::Rows(Ok(rows)) => r matches Ok(x) && (
                x matches MetaCommandResult::IdRowList { payload, kind } && payload == rows
                    && shape == ResultShape::IdRowList(kind)),
                StoreReply::Row(Err(reason))
                | StoreReply::OptionalRow(Err(reason))
                | StoreReply::Rows(Err(reason)) => r matches Err(message) && reason@.is_suffix_of(
                    message,
                ),
            }
        }),
{
    if let Err(message) = finished(shape, command, reply) {
        match reply {
            StoreReply::Row(Err(reason))
            | StoreReply::OptionalRow(Err(reason))
            | StoreReply::Rows(Err(reason)) => {
                assert(reason@ =~= message.subrange(
                    message.len() - reason@.len(),
                    message.len() as int,
                ));
            },
            _ => {},
        }
    }
}

/// A number survives being cut into halves and joined again.
pub proof fn law_halves(n: u128)
    ensures
        joined((n % 0x1_0000_0000_0000_0000) as u64, (n / 0x1_0000_0000_0000_0000) as u64) == n,
{
}

} // verus!
