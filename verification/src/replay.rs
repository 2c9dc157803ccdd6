//! Replicas that hold the same log make the same calls on their stores.

#[allow(unused_imports)]
use crate::command;
#[allow(unused_imports)]
use crate::command::MetaCommand;
#[allow(unused_imports)]
use crate::faithful;
#[allow(unused_imports)]
use crate::rocks_apply;
#[allow(unused_imports)]
use crate::rocks_apply::{BatchView, BlobView, Dispatched, StoreCall, StoreReply};
#[allow(unused_imports)]
use crate::wire;
use vstd::prelude::*;

verus! {

/// Whether two calls are the same: of one method, with the same arguments.
pub open spec fn same_call(a: StoreCall, b: StoreCall) -> bool {
    match (a, b) {
        (
            StoreCall::CreateSchema { schema_name: a0, if_not_exists: a1 },
            StoreCall::CreateSchema { schema_name: b0, if_not_exists: b1 },
        ) => a0@ == b0@ && a1 == b1,
        (
            StoreCall::RenameSchema { old_schema_name: a0, new_schema_name: a1 },
            StoreCall::RenameSchema { old_schema_name: b0, new_schema_name: b1 },
        ) => a0@ == b0@ && a1@ == b1@,
        (
            StoreCall::RenameSchemaById { schema_id: a0, new_schema_name: a1 },
            StoreCall::RenameSchemaById { schema_id: b0, new_schema_name: b1 },
        ) => a0 == b0 && a1@ == b1@,
        (
            StoreCall::DeleteSchema { schema_name: a0 },
            StoreCall::DeleteSchema { schema_name: b0 },
        ) => a0@ == b0@,
        (
            StoreCall::DeleteSchemaById { schema_id: a0 },
            StoreCall::DeleteSchemaById { schema_id: b0 },
        ) => a0 == b0,
        (
            StoreCall::CreateTableWithNow {
                schema_name: a0,
                table_name: a1,
                columns_blob: a2,
                locations: a3,
                import_format_blob: a4,
                indexes_blob: a5,
                is_ready: a6,
                build_range_end_millis: a7,
                seal_at_millis: a8,
                select_statement: a9,
                source_columns_blob: a10,
                stream_offset_blob: a11,
                unique_key_column_names: a12,
                aggregates: a13,
                partition_split_threshold: a14,
                trace_obj: a15,
                drop_if_exists: a16,
                extension: a17,
                now_millis: a18,
            },
            StoreCall::CreateTableWithNow {
                schema_name: b0,
                table_name: b1,
                columns_blob: b2,
                locations: b3,
                import_format_blob: b4,
                indexes_blob: b5,
                is_ready: b6,
                build_range_end_millis: b7,
                seal_at_millis: b8,
                select_statement: b9,
                source_columns_blob: b10,
                stream_offset_blob: b11,
                unique_key_column_names: b12,
                aggregates: b13,
                partition_split_threshold: b14,
                trace_obj: b15,
                drop_if_exists: b16,
                extension: b17,
                now_millis: b18,
            },
        ) => {
            &&& a0@ == b0@
            &&& a1@ == b1@
            &&& a2@ == b2@
            &&& wire::opt_texts_view(a3) == wire::opt_texts_view(b3)
            &&& wire::opt_bytes_view(a4) == wire::opt_bytes_view(b4)
            &&& a5@ == b5@
            &&& a6 == b6
            &&& a7 == b7
            &&& a8 == b8
            &&& wire::opt_text_view(a9) == wire::opt_text_view(b9)
            &&& wire::opt_bytes_view(a10) == wire::opt_bytes_view(b10)
            &&& wire::opt_bytes_view(a11) == wire::opt_bytes_view(b11)
            &&& wire::opt_texts_view(a12) == wire::opt_texts_view(b12)
            &&& wire::opt_pairs_view(a13) == wire::opt_pairs_view(b13)
            &&& a14 == b14
            &&& wire::opt_text_view(a15) == wire::opt_text_view(b15)
            &&& a16 == b16
            &&& wire::opt_text_view(a17) == wire::opt_text_view(b17)
            &&& a18 == b18
        },
        (StoreCall::DropTable { table_id: a0 }, StoreCall::DropTable { table_id: b0 }) => a0 == b0,
        (StoreCall::SealTable { table_id: a0 }, StoreCall::SealTable { table_id: b0 }) => a0 == b0,
        (
            StoreCall::UpdateLocationDownloadSize { table_id: a0, location: a1, download_size: a2 },
            StoreCall::UpdateLocationDownloadSize { table_id: b0, location: b1, download_size: b2 },
        ) => a0 == b0 && a1@ == b1@ && a2 == b2,
        (
            StoreCall::TableReady { table_id: a0, is_ready: a1 },
            StoreCall::TableReady { table_id: b0, is_ready: b1 },
        ) => a0 == b0 && a1 == b1,
        (
            StoreCall::CreatePartition { partition_blob: a0 },
            StoreCall::CreatePartition { partition_blob: b0 },
        ) => a0@ == b0@,
        (
            StoreCall::DeletePartition { partition_id: a0 },
            StoreCall::DeletePartition { partition_id: b0 },
        ) => a0 == b0,
        (
            StoreCall::MarkPartitionWarmedUp { partition_id: a0 },
            StoreCall::MarkPartitionWarmedUp { partition_id: b0 },
        ) => a0 == b0,
        (
            StoreCall::DeleteMiddleManPartition { partition_id: a0 },
            StoreCall::DeleteMiddleManPartition { partition_id: b0 },
        ) => a0 == b0,
        (
            StoreCall::SwapActivePartitions {
                current_active_blob: a0,
                new_active_blob: a1,
                new_active_min_max_blob: a2,
            },
            StoreCall::SwapActivePartitions {
                current_active_blob: b0,
                new_active_blob: b1,
                new_active_min_max_blob: b2,
            },
        ) => a0@ == b0@ && a1@ == b1@ && a2@ == b2@,
        (
            StoreCall::CreateMultiPartition { multi_partition_blob: a0 },
            StoreCall::CreateMultiPartition { multi_partition_blob: b0 },
        ) => a0@ == b0@,
        (
            StoreCall::CommitMultiPartitionSplit {
                multi_partition_id: a0,
                new_multi_partitions: a1,
                new_multi_partition_rows: a2,
                old_partitions_blob: a3,
                new_partitions_blob: a4,
                new_partition_rows: a5,
                initial_split: a6,
            },
            StoreCall::CommitMultiPartitionSplit {
                multi_partition_id: b0,
                new_multi_partitions: b1,
                new_multi_partition_rows: b2,
                old_partitions_blob: b3,
                new_partitions_blob: b4,
                new_partition_rows: b5,
                initial_split: b6,
            },
        ) => {
            &&& a0 == b0
            &&& a1@ == b1@
            &&& a2@ == b2@
            &&& a3@ == b3@
            &&& a4@ == b4@
            &&& a5@ == b5@
            &&& a6 == b6
        },
        (
            StoreCall::CreateIndex { schema_name: a0, table_name: a1, index_def_blob: a2 },
            StoreCall::CreateIndex { schema_name: b0, table_name: b1, index_def_blob: b2 },
        ) => a0@ == b0@ && a1@ == b1@ && a2@ == b2@,
        (
            StoreCall::CreatePartitionedIndex {
                schema: a0,
                name: a1,
                columns_blob: a2,
                if_not_exists: a3,
            },
            StoreCall::CreatePartitionedIndex {
                schema: b0,
                name: b1,
                columns_blob: b2,
                if_not_exists: b3,
            },
        ) => a0@ == b0@ && a1@ == b1@ && a2@ == b2@ && a3 == b3,
        (
            StoreCall::DropPartitionedIndex { schema: a0, name: a1 },
            StoreCall::DropPartitionedIndex { schema: b0, name: b1 },
        ) => a0@ == b0@ && a1@ == b1@,
        (
            StoreCall::InsertChunkPreBuilt { chunk_blob: a0 },
            StoreCall::InsertChunkPreBuilt { chunk_blob: b0 },
        ) => a0@ == b0@,
        (
            StoreCall::InsertChunks { chunks_blob: a0 },
            StoreCall::InsertChunks { chunks_blob: b0 },
        ) => a0@ == b0@,
        (
            StoreCall::SwapCompactedChunks {
                partition_id: a0,
                old_chunk_ids: a1,
                new_chunk: a2,
                new_chunk_file_size: a3,
            },
            StoreCall::SwapCompactedChunks {
                partition_id: b0,
                old_chunk_ids: b1,
                new_chunk: b2,
                new_chunk_file_size: b3,
            },
        ) => a0 == b0 && a1@ == b1@ && a2 == b2 && a3 == b3,
        (
            StoreCall::DeleteChunk { chunk_id: a0 },
            StoreCall::DeleteChunk { chunk_id: b0 },
        ) => a0 == b0,
        (
            StoreCall::DeleteChunksWithoutChecks { chunk_ids: a0 },
            StoreCall::DeleteChunksWithoutChecks { chunk_ids: b0 },
        ) => a0@ == b0@,
        (
            StoreCall::ChunkUploaded { chunk_id: a0 },
            StoreCall::ChunkUploaded { chunk_id: b0 },
        ) => a0 == b0,
        (
            StoreCall::ChunkUpdateLastInserted { chunk_ids: a0, last_inserted_at_millis: a1 },
            StoreCall::ChunkUpdateLastInserted { chunk_ids: b0, last_inserted_at_millis: b1 },
        ) => a0@ == b0@ && a1 == b1,
        (
            StoreCall::SwapChunks {
                deactivate_ids: a0,
                uploaded_ids_and_sizes: a1,
                new_replay_handle_id: a2,
            },
            StoreCall::SwapChunks {
                deactivate_ids: b0,
                uploaded_ids_and_sizes: b1,
                new_replay_handle_id: b2,
            },
        ) => a0@ == b0@ && a1@ == b1@ && a2 == b2,
        (
            StoreCall::SwapChunksWithoutCheck {
                deactivate_ids: a0,
                uploaded_ids_and_sizes: a1,
                new_replay_handle_id: a2,
            },
            StoreCall::SwapChunksWithoutCheck {
                deactivate_ids: b0,
                uploaded_ids_and_sizes: b1,
                new_replay_handle_id: b2,
            },
        ) => a0@ == b0@ && a1@ == b1@ && a2 == b2,
        (
            StoreCall::ActivateChunks {
                table_id: a0,
                uploaded_chunk_ids: a1,
                replay_handle_id: a2,
            },
            StoreCall::ActivateChunks {
                table_id: b0,
                uploaded_chunk_ids: b1,
                replay_handle_id: b2,
            },
        ) => a0 == b0 && a1@ == b1@ && a2 == b2,
        (
            StoreCall::DeactivateChunkWithNow { chunk_id: a0, now_millis: a1 },
            StoreCall::DeactivateChunkWithNow { chunk_id: b0, now_millis: b1 },
        ) => a0 == b0 && a1 == b1,
        (
            StoreCall::DeactivateChunksWithNow { chunk_ids: a0, now_millis: a1 },
            StoreCall::DeactivateChunksWithNow { chunk_ids: b0, now_millis: b1 },
        ) => a0@ == b0@ && a1 == b1,
        (
            StoreCall::DeactivateChunksWithoutCheck { deactivate_ids: a0 },
            StoreCall::DeactivateChunksWithoutCheck { deactivate_ids: b0 },
        ) => a0@ == b0@,
        (
            StoreCall::CreateWal { table_id: a0, row_count: a1 },
            StoreCall::CreateWal { table_id: b0, row_count: b1 },
        ) => a0 == b0 && a1 == b1,
        (StoreCall::DeleteWal { wal_id: a0 }, StoreCall::DeleteWal { wal_id: b0 }) => a0 == b0,
        (StoreCall::WalUploaded { wal_id: a0 }, StoreCall::WalUploaded { wal_id: b0 }) => a0 == b0,
        (StoreCall::AddJob { job_blob: a0 }, StoreCall::AddJob { job_blob: b0 }) => a0@ == b0@,
        (StoreCall::DeleteJob { job_id: a0 }, StoreCall::DeleteJob { job_id: b0 }) => a0 == b0,
        (StoreCall::DeleteAllJobs, StoreCall::DeleteAllJobs) => true,
        (
            StoreCall::StartProcessingJobWithNow { server_name: a0, long_term: a1, now_millis: a2 },
            StoreCall::StartProcessingJobWithNow { server_name: b0, long_term: b1, now_millis: b2 },
        ) => a0@ == b0@ && a1 == b1 && a2 == b2,
        (
            StoreCall::UpdateStatusWithNow { job_id: a0, status_blob: a1, now_millis: a2 },
            StoreCall::UpdateStatusWithNow { job_id: b0, status_blob: b1, now_millis: b2 },
        ) => a0 == b0 && a1@ == b1@ && a2 == b2,
        (
            StoreCall::UpdateHeartBeatWithNow { job_id: a0, now_millis: a1 },
            StoreCall::UpdateHeartBeatWithNow { job_id: b0, now_millis: b1 },
        ) => a0 == b0 && a1 == b1,
        (
            StoreCall::CreateOrUpdateSource { name: a0, credentials_blob: a1 },
            StoreCall::CreateOrUpdateSource { name: b0, credentials_blob: b1 },
        ) => a0@ == b0@ && a1@ == b1@,
        (StoreCall::DeleteSource { id: a0 }, StoreCall::DeleteSource { id: b0 }) => a0 == b0,
        (
            StoreCall::CreateReplayHandleWithNow {
                table_id: a0,
                location_index: a1,
                seq_pointer_blob: a2,
                now_millis: a3,
            },
            StoreCall::CreateReplayHandleWithNow {
                table_id: b0,
                location_index: b1,
                seq_pointer_blob: b2,
                now_millis: b3,
            },
        ) => a0 == b0 && a1 == b1 && a2@ == b2@ && a3 == b3,
        (
            StoreCall::CreateReplayHandleFromSeqPointersWithNow {
                table_id: a0,
                seq_pointers_blob: a1,
                now_millis: a2,
            },
            StoreCall::CreateReplayHandleFromSeqPointersWithNow {
                table_id: b0,
                seq_pointers_blob: b1,
                now_millis: b2,
            },
        ) => a0 == b0 && a1@ == b1@ && a2 == b2,
        (
            StoreCall::UpdateReplayHandleFailedIfExists { id: a0, failed: a1 },
            StoreCall::UpdateReplayHandleFailedIfExists { id: b0, failed: b1 },
        ) => a0 == b0 && a1 == b1,
        (
            StoreCall::ReplaceReplayHandles { old_ids: a0, new_seq_pointer_blob: a1 },
            StoreCall::ReplaceReplayHandles { old_ids: b0, new_seq_pointer_blob: b1 },
        ) => a0@ == b0@ && a1@ == b1@,
        (
            StoreCall::SetCurrentSnapshot { snapshot_id: a0 },
            StoreCall::SetCurrentSnapshot { snapshot_id: b0 },
        ) => a0 == b0,
        _ => false,
    }
}

/// Whether the same becomes of two commands: the same call, or the same error.
pub open spec fn same_dispatch(a: Dispatched, b: Dispatched) -> bool {
    match (a, b) {
        (Dispatched::Call(x), Dispatched::Call(y)) => same_call(x, y),
        (Dispatched::Fail(x), Dispatched::Fail(y)) => x == y,
        _ => false,
    }
}

/// What a command does to a store depends on the command alone: of the same command the
/// same blobs are decoded, and the same call or error comes of it.
pub proof fn law_same_command_same_call(a: MetaCommand, b: MetaCommand)
    requires
        faithful::same_command(a, b),
    ensures
        same_dispatch(rocks_apply::dispatched(a), rocks_apply::dispatched(b)),
        rocks_apply::blobs_of(a) == rocks_apply::blobs_of(b),
        rocks_apply::command_shape(a) == rocks_apply::command_shape(b),
{
}

/// Replicas that decode the same bytes make the same call: whatever command each of them
/// got from an entry, the commands are the same, and so are the blobs, the call and the
/// form of its result.
pub proof fn law_replicas_agree(bytes: Seq<u8>, a: MetaCommand, b: MetaCommand)
    requires
        command::decodes_as(bytes, Ok(a)),
        command::decodes_as(bytes, Ok(b)),
    ensures
        faithful::same_command(a, b),
        same_dispatch(rocks_apply::dispatched(a), rocks_apply::dispatched(b)),
        rocks_apply::blobs_of(a) == rocks_apply::blobs_of(b),
        rocks_apply::command_shape(a) == rocks_apply::command_shape(b),
{
    faithful::law_value_is_faithful(a, b);
    law_same_command_same_call(a, b);
}

/// What calls do to a store, and which errors blobs have. Like a store it tells the same
/// calls from the same state apart in nothing.
#[verifier::reject_recursive_types(S)]
#[verifier::reject_recursive_types(Q)]
pub struct World<S, Q> {
    pub call: spec_fn(S, StoreCall) -> (S, Result<Q, Seq<char>>),
    pub fault: spec_fn(BlobView) -> Option<Seq<char>>,
}

pub open spec fn is_store<S, Q>(w: World<S, Q>) -> bool {
    forall|s: S, x: StoreCall, y: StoreCall|
        same_call(x, y) ==> #[trigger] (w.call)(s, x) == #[trigger] (w.call)(s, y)
}

/// The error of the first of some blobs that has one.
pub open spec fn first_fault<S, Q>(blobs: Seq<BlobView>, w: World<S, Q>) -> Option<Seq<char>>
    decreases blobs.len(),
{
    if blobs.len() == 0 {
        None
    } else if (w.fault)(blobs[0]) is Some {
        (w.fault)(blobs[0])
    } else {
        first_fault(blobs.skip(1), w)
    }
}

/// What applying a command other than a batch makes of a store, and gives.
pub open spec fn one_applied<S, Q>(s: S, cmd: MetaCommand, w: World<S, Q>) -> (
    S,
    Result<Q, Seq<char>>,
) {
    match (first_fault(rocks_apply::blobs_of(cmd), w), rocks_apply::dispatched(cmd)) {
        (Some(message), _) => (s, Err(message)),
        (None, Dispatched::Fail(message)) => (s, Err(message)),
        (None, Dispatched::Call(call)) => (w.call)(s, call),
    }
}

/// The effect of a command inside a batch.
pub open spec fn effect_in<S, Q>(w: World<S, Q>) -> spec_fn(S, MetaCommand) -> Result<
    S,
    Seq<char>,
> {
    |s: S, cmd: MetaCommand|
        match one_applied(s, cmd, w) {
            (then, Ok(_)) => Ok(then),
            (_, Err(message)) => Err(message),
        }
}

/// What applying a command gave: what its call gave, or of a batch only that it did.
pub enum Given<Q> {
    One(Result<Q, Seq<char>>),
    Batch(Result<(), Seq<char>>),
}

pub open spec fn applied<S, Q>(s: S, cmd: MetaCommand, w: World<S, Q>) -> (S, Given<Q>) {
    match cmd {
        MetaCommand::Batch { commands } => {
            let (then, r) = rocks_apply::batch_end(
                BatchView { rest: commands@, begun: false },
                s,
                s,
                effect_in(w),
            );
            (then, Given::Batch(r))
        },
        _ => {
            let (then, r) = one_applied(s, cmd, w);
            (then, Given::One(r))
        },
    }
}

/// The state of a store after commands were applied in order, and what each of them gave.
pub open spec fn replayed<S, Q>(s: S, commands: Seq<MetaCommand>, w: World<S, Q>) -> (
    S,
    Seq<Given<Q>>,
)
    decreases commands.len(),
{
    if commands.len() == 0 {
        (s, seq![])
    } else {
        let (before, given) = replayed(s, commands.drop_last(), w);
        let (then, g) = applied(before, commands.last(), w);
        (then, given.push(g))
    }
}

proof fn lemma_same_one<S, Q>(s: S, a: MetaCommand, b: MetaCommand, w: World<S, Q>)
    requires
        is_store(w),
        faithful::same_command(a, b),
    ensures
        one_applied(s, a, w) == one_applied(s, b, w),
{
    law_same_command_same_call(a, b);
    if let (Dispatched::Call(x), Dispatched::Call(y)) = (
        rocks_apply::dispatched(a),
        rocks_apply::dispatched(b),
    ) {
        assert((w.call)(s, x) == (w.call)(s, y));
    }
}

proof fn lemma_same_batch<S, Q>(
    a: Seq<MetaCommand>,
    b: Seq<MetaCommand>,
    begun: bool,
    before: S,
    now: S,
    w: World<S, Q>,
)
    requires
        is_store(w),
        faithful::same_commands(a, b),
    ensures
        rocks_apply::batch_end(BatchView { rest: a, begun }, before, now, effect_in(w))
            == rocks_apply::batch_end(BatchView { rest: b, begun }, before, now, effect_in(w)),
    decreases a.len(),
{
    if a.len() > 0 {
        assert(faithful::same_command(a[0], b[0]));
        lemma_same_one(now, a[0], b[0], w);
        assert forall|i: int| #![trigger a.skip(1)[i]] 0 <= i < a.skip(1).len() implies
            faithful::same_command(a.skip(1)[i], b.skip(1)[i]) by {
            assert(faithful::same_command(a[i + 1], b[i + 1]));
        }
        if let Ok(then) = effect_in(w)(now, a[0]) {
            lemma_same_batch(a.skip(1), b.skip(1), true, before, then, w);
        }
    }
}

/// Replicas whose stores are in the same state, and which apply the same commands in the
/// same order, get the same results, batches included, and their stores stay the same.
pub proof fn law_replay_is_deterministic<S, Q>(
    s: S,
    a: Seq<MetaCommand>,
    b: Seq<MetaCommand>,
    w: World<S, Q>,
)
    requires
        is_store(w),
        faithful::same_commands(a, b),
    ensures
        replayed(s, a, w) == replayed(s, b, w),
    decreases a.len(),
{
    if a.len() > 0 {
        let (c, d) = (a.drop_last(), b.drop_last());
        assert forall|i: int| #![trigger c[i]] 0 <= i < c.len() implies faithful::same_command(
            c[i],
            d[i],
        ) by {
            assert(faithful::same_command(a[i], b[i]));
        }
        law_replay_is_deterministic(s, c, d, w);
        let before = replayed(s, c, w).0;
        assert(faithful::same_command(a[a.len() - 1], b[a.len() - 1]));
        match (a.last(), b.last()) {
            (MetaCommand::Batch { commands: x }, MetaCommand::Batch { commands: y }) => {
                lemma_same_batch(x@, y@, false, before, before, w);
            },
            _ => {
                lemma_same_one(before, a.last(), b.last(), w);
            },
        }
    }
}

/// Replicas wrap the same replies alike: the same call gives the same result, or the same
/// error.
pub proof fn law_results_agree(x: StoreCall, y: StoreCall, reply: StoreReply)
    requires
        same_call(x, y),
    ensures
        rocks_apply::call_shape(x) == rocks_apply::call_shape(y),
        rocks_apply::optional_command(x) == rocks_apply::optional_command(y),
        rocks_apply::finished(
            rocks_apply::call_shape(x),
            rocks_apply::optional_command(x),
            reply,
        ) == rocks_apply::finished(
            rocks_apply::call_shape(y),
            rocks_apply::optional_command(y),
            reply,
        ),
{
}

} // verus!
