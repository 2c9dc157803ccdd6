//! The form of a command on the wire leaves nothing of it out.

#[allow(unused_imports)]
use crate::codec;
#[allow(unused_imports)]
use crate::command;
#[allow(unused_imports)]
use crate::command::MetaCommand;
#[allow(unused_imports)]
use crate::flex::Flex;
#[allow(unused_imports)]
use crate::wire;
use vstd::prelude::*;

verus! {

/// The name of the variant that a value stands for.
spec fn tag_in(v: Flex) -> Seq<char> {
    match v {
        Flex::Text(name) => name,
        Flex::Record(entries) => entries[0].0,
        _ => seq![],
    }
}

proof fn lemma_same_u64s(a: Seq<u64>, b: Seq<u64>)
    requires
        wire::u64s_value(a) == wire::u64s_value(b),
    ensures
        a == b,
{
    let (x, y) = (wire::u64s_value(a)->Vector_0, wire::u64s_value(b)->Vector_0);
    assert(x.len() == a.len() && y.len() == b.len());
    assert forall|i: int| 0 <= i < a.len() implies a[i] == b[i] by {
        assert(x[i] == Flex::UInt(a[i]) && y[i] == Flex::UInt(b[i]));
    }
    assert(a =~= b);
}

proof fn lemma_same_bytes(a: Seq<u8>, b: Seq<u8>)
    requires
        wire::bytes_value(a) == wire::bytes_value(b),
    ensures
        a == b,
{
    let (x, y) = (wire::bytes_value(a)->Vector_0, wire::bytes_value(b)->Vector_0);
    assert(x.len() == a.len() && y.len() == b.len());
    assert forall|i: int| 0 <= i < a.len() implies a[i] == b[i] by {
        assert(x[i] == Flex::UInt(a[i] as u64) && y[i] == Flex::UInt(b[i] as u64));
    }
    assert(a =~= b);
}

proof fn lemma_same_opt_bytes(a: Option<Seq<u8>>, b: Option<Seq<u8>>)
    requires
        wire::opt_bytes_value(a) == wire::opt_bytes_value(b),
    ensures
        a == b,
{
    if let (Some(p), Some(q)) = (a, b) {
        lemma_same_bytes(p, q);
    }
}

proof fn lemma_same_opt_texts(a: Option<Seq<Seq<char>>>, b: Option<Seq<Seq<char>>>)
    requires
        wire::opt_texts_value(a) == wire::opt_texts_value(b),
    ensures
        a == b,
{
    if let (Some(p), Some(q)) = (a, b) {
        let (x, y) = (wire::texts_value(p)->Vector_0, wire::texts_value(q)->Vector_0);
        assert(x.len() == p.len() && y.len() == q.len());
        assert forall|i: int| 0 <= i < p.len() implies p[i] == q[i] by {
            assert(x[i] == Flex::Text(p[i]) && y[i] == Flex::Text(q[i]));
        }
        assert(p =~= q);
    }
}

proof fn lemma_same_opt_pairs(
    a: Option<Seq<(Seq<char>, Seq<char>)>>,
    b: Option<Seq<(Seq<char>, Seq<char>)>>,
)
    requires
        wire::opt_pairs_value(a) == wire::opt_pairs_value(b),
    ensures
        a == b,
{
    if let (Some(p), Some(q)) = (a, b) {
        let (x, y) = (wire::pairs_value(p)->Vector_0, wire::pairs_value(q)->Vector_0);
        assert(x.len() == p.len() && y.len() == q.len());
        assert forall|i: int| 0 <= i < p.len() implies p[i] == q[i] by {
            assert(x[i] == wire::pair_value(p[i]) && y[i] == wire::pair_value(q[i]));
            let (s, t) = (wire::pair_value(p[i])->Vector_0, wire::pair_value(q[i])->Vector_0);
            assert(s[0] == t[0] && s[1] == t[1]);
        }
        assert(p =~= q);
    }
}

proof fn lemma_same_id_sizes(a: Seq<(u64, Option<u64>)>, b: Seq<(u64, Option<u64>)>)
    requires
        wire::id_sizes_value(a) == wire::id_sizes_value(b),
    ensures
        a == b,
{
    let (x, y) = (wire::id_sizes_value(a)->Vector_0, wire::id_sizes_value(b)->Vector_0);
    assert(x.len() == a.len() && y.len() == b.len());
    assert forall|i: int| 0 <= i < a.len() implies a[i] == b[i] by {
        assert(x[i] == wire::id_size_value(a[i]) && y[i] == wire::id_size_value(b[i]));
        let (s, t) = (wire::id_size_value(a[i])->Vector_0, wire::id_size_value(b[i])->Vector_0);
        assert(s[0] == t[0] && s[1] == t[1]);
    }
    assert(a =~= b);
}

/// Whether two commands are the same: of one variant, with the same fields.
pub open spec fn same_command(a: MetaCommand, b: MetaCommand) -> bool
    decreases a,
{
    match (a, b) {
        (
            MetaCommand::CreateSchema { schema_name: a0, if_not_exists: a1 },
            MetaCommand::CreateSchema { schema_name: b0, if_not_exists: b1 },
        ) => a0@ == b0@ && a1 == b1,
        (
            MetaCommand::RenameSchema { old_schema_name: a0, new_schema_name: a1 },
            MetaCommand::RenameSchema { old_schema_name: b0, new_schema_name: b1 },
        ) => a0@ == b0@ && a1@ == b1@,
        (
            MetaCommand::RenameSchemaById { schema_id: a0, new_schema_name: a1 },
            MetaCommand::RenameSchemaById { schema_id: b0, new_schema_name: b1 },
        ) => a0 == b0 && a1@ == b1@,
        (
            MetaCommand::DeleteSchema { schema_name: a0 },
            MetaCommand::DeleteSchema { schema_name: b0 },
        ) => a0@ == b0@,
        (
            MetaCommand::DeleteSchemaById { schema_id: a0 },
            MetaCommand::DeleteSchemaById { schema_id: b0 },
        ) => a0 == b0,
        (
            MetaCommand::CreateTable {
                schema_name: a0,
                table_name: a1,
                payload_version: a2,
                payload: a3,
            },
            MetaCommand::CreateTable {
                schema_name: b0,
                table_name: b1,
                payload_version: b2,
                payload: b3,
            },
        ) => a0@ == b0@ && a1@ == b1@ && a2 == b2 && a3@ == b3@,
        (
            MetaCommand::CreateTableStructured {
                schema_name: a0,
                table_name: a1,
                columns_blob: a2,
                locations: a3,
                import_format_blob: a4,
                indexes_blob: a5,
                is_ready: a6,
                build_range_end_millis: a7,
                seal_at_millis: a8,
                select_statement: a9,
                source_columns_blob: a10,
                stream_offset_blob: a11,
                unique_key_column_names: a12,
                aggregates: a13,
                partition_split_threshold: a14,
                trace_obj: a15,
                drop_if_exists: a16,
                extension: a17,
                assigned_now_millis: a18,
            },
            MetaCommand::CreateTableStructured {
                schema_name: b0,
                table_name: b1,
                columns_blob: b2,
                locations: b3,
                import_format_blob: b4,
                indexes_blob: b5,
                is_ready: b6,
                build_range_end_millis: b7,
                seal_at_millis: b8,
                select_statement: b9,
                source_columns_blob: b10,
                stream_offset_blob: b11,
                unique_key_column_names: b12,
                aggregates: b13,
                partition_split_threshold: b14,
                trace_obj: b15,
                drop_if_exists: b16,
                extension: b17,
                assigned_now_millis: b18,
            },
        ) => {
            &&& a0@ == b0@
            &&& a1@ == b1@
            &&& a2@ == b2@
            &&& wire::opt_texts_view(a3) == wire::opt_texts_view(b3)
            &&& wire::opt_bytes_view(a4) == wire::opt_bytes_view(b4)
            &&& a5@ == b5@
            &&& a6 == b6
            &&& a7 == b7
            &&& a8 == b8
            &&& wire::opt_text_view(a9) == wire::opt_text_view(b9)
            &&& wire::opt_bytes_view(a10) == wire::opt_bytes_view(b10)
            &&& wire::opt_bytes_view(a11) == wire::opt_bytes_view(b11)
            &&& wire::opt_texts_view(a12) == wire::opt_texts_view(b12)
            &&& wire::opt_pairs_view(a13) == wire::opt_pairs_view(b13)
            &&& a14 == b14
            &&& wire::opt_text_view(a15) == wire::opt_text_view(b15)
            &&& a16 == b16
            &&& wire::opt_text_view(a17) == wire::opt_text_view(b17)
            &&& a18 == b18
        },
        (MetaCommand::DropTable { table_id: a0 }, MetaCommand::DropTable { table_id: b0 }) =>
            a0 == b0,
        (MetaCommand::SealTable { table_id: a0 }, MetaCommand::SealTable { table_id: b0 }) =>
            a0 == b0,
        (
            MetaCommand::UpdateLocationDownloadSize {
                table_id: a0,
                location: a1,
                download_size: a2,
            },
            MetaCommand::UpdateLocationDownloadSize {
                table_id: b0,
                location: b1,
                download_size: b2,
            },
        ) => a0 == b0 && a1@ == b1@ && a2 == b2,
        (
            MetaCommand::TableReady { table_id: a0, is_ready: a1 },
            MetaCommand::TableReady { table_id: b0, is_ready: b1 },
        ) => a0 == b0 && a1 == b1,
        (
            MetaCommand::CreatePartition { partition_blob: a0 },
            MetaCommand::CreatePartition { partition_blob: b0 },
        ) => a0@ == b0@,
        (
            MetaCommand::DeletePartition { partition_id: a0 },
            MetaCommand::DeletePartition { partition_id: b0 },
        ) => a0 == b0,
        (
            MetaCommand::MarkPartitionWarmedUp { partition_id: a0 },
            MetaCommand::MarkPartitionWarmedUp { partition_id: b0 },
        ) => a0 == b0,
        (
            MetaCommand::DeleteMiddleManPartition { partition_id: a0 },
            MetaCommand::DeleteMiddleManPartition { partition_id: b0 },
        ) => a0 == b0,
        (
            MetaCommand::SwapActivePartitions { payload_version: a0, payload: a1 },
            MetaCommand::SwapActivePartitions { payload_version: b0, payload: b1 },
        ) => a0 == b0 && a1@ == b1@,
        (
            MetaCommand::SwapActivePartitionsStructured {
                current_active_blob: a0,
                new_active_blob: a1,
                new_active_min_max_blob: a2,
            },
            MetaCommand::SwapActivePartitionsStructured {
                current_active_blob: b0,
                new_active_blob: b1,
                new_active_min_max_blob: b2,
            },
        ) => a0@ == b0@ && a1@ == b1@ && a2@ == b2@,
        (
            MetaCommand::CreateMultiPartition { multi_partition_blob: a0 },
            MetaCommand::CreateMultiPartition { multi_partition_blob: b0 },
        ) => a0@ == b0@,
        (
            MetaCommand::CommitMultiPartitionSplit {
                multi_partition_id: a0,
                new_multi_partitions: a1,
                new_multi_partition_rows: a2,
                old_partitions_blob: a3,
                new_partitions_blob: a4,
                new_partition_rows: a5,
                initial_split: a6,
            },
            MetaCommand::CommitMultiPartitionSplit {
                multi_partition_id: b0,
                new_multi_partitions: b1,
                new_multi_partition_rows: b2,
                old_partitions_blob: b3,
                new_partitions_blob: b4,
                new_partition_rows: b5,
                initial_split: b6,
            },
        ) => {
            &&& a0 == b0
            &&& a1@ == b1@
            &&& a2@ == b2@
            &&& a3@ == b3@
            &&& a4@ == b4@
            &&& a5@ == b5@
            &&& a6 == b6
        },
        (
            MetaCommand::CreateIndex { schema_name: a0, table_name: a1, index_def_blob: a2 },
            MetaCommand::CreateIndex { schema_name: b0, table_name: b1, index_def_blob: b2 },
        ) => a0@ == b0@ && a1@ == b1@ && a2@ == b2@,
        (
            MetaCommand::CreatePartitionedIndex {
                schema: a0,
                name: a1,
                columns_blob: a2,
                if_not_exists: a3,
            },
            MetaCommand::CreatePartitionedIndex {
                schema: b0,
                name: b1,
                columns_blob: b2,
                if_not_exists: b3,
            },
        ) => a0@ == b0@ && a1@ == b1@ && a2@ == b2@ && a3 == b3,
        (
            MetaCommand::DropPartitionedIndex { schema: a0, name: a1 },
            MetaCommand::DropPartitionedIndex { schema: b0, name: b1 },
        ) => a0@ == b0@ && a1@ == b1@,
        (
            MetaCommand::CreateChunk { chunk_blob: a0 },
            MetaCommand::CreateChunk { chunk_blob: b0 },
        ) => a0@ == b0@,
        (
            MetaCommand::InsertChunks { chunks_blob: a0 },
            MetaCommand::InsertChunks { chunks_blob: b0 },
        ) => a0@ == b0@,
        (
            MetaCommand::SwapCompactedChunks {
                partition_id: a0,
                old_chunk_ids: a1,
                new_chunk: a2,
                new_chunk_file_size: a3,
            },
            MetaCommand::SwapCompactedChunks {
                partition_id: b0,
                old_chunk_ids: b1,
                new_chunk: b2,
                new_chunk_file_size: b3,
            },
        ) => a0 == b0 && a1@ == b1@ && a2 == b2 && a3 == b3,
        (MetaCommand::DeleteChunk { chunk_id: a0 }, MetaCommand::DeleteChunk { chunk_id: b0 }) =>
            a0 == b0,
        (
            MetaCommand::DeleteChunksWithoutChecks { chunk_ids: a0 },
            MetaCommand::DeleteChunksWithoutChecks { chunk_ids: b0 },
        ) => a0@ == b0@,
        (
            MetaCommand::ChunkUploaded { chunk_id: a0 },
            MetaCommand::ChunkUploaded { chunk_id: b0 },
        ) => a0 == b0,
        (
            MetaCommand::ChunkUpdateLastInserted { chunk_ids: a0, last_inserted_at_millis: a1 },
            MetaCommand::ChunkUpdateLastInserted { chunk_ids: b0, last_inserted_at_millis: b1 },
        ) => a0@ == b0@ && a1 == b1,
        (
            MetaCommand::SwapChunks {
                deactivate_ids: a0,
                uploaded_ids_and_sizes: a1,
                new_replay_handle_id: a2,
            },
            MetaCommand::SwapChunks {
                deactivate_ids: b0,
                uploaded_ids_and_sizes: b1,
                new_replay_handle_id: b2,
            },
        ) => a0@ == b0@ && a1@ == b1@ && a2 == b2,
        (
            MetaCommand::SwapChunksWithoutCheck {
                deactivate_ids: a0,
                uploaded_ids_and_sizes: a1,
                new_replay_handle_id: a2,
            },
            MetaCommand::SwapChunksWithoutCheck {
                deactivate_ids: b0,
                uploaded_ids_and_sizes: b1,
                new_replay_handle_id: b2,
            },
        ) => a0@ == b0@ && a1@ == b1@ && a2 == b2,
        (
            MetaCommand::ActivateChunks {
                table_id: a0,
                uploaded_chunk_ids: a1,
                replay_handle_id: a2,
            },
            MetaCommand::ActivateChunks {
                table_id: b0,
                uploaded_chunk_ids: b1,
                replay_handle_id: b2,
            },
        ) => a0 == b0 && a1@ == b1@ && a2 == b2,
        (
            MetaCommand::DeactivateChunk { chunk_id: a0, assigned_now_millis: a1 },
            MetaCommand::DeactivateChunk { chunk_id: b0, assigned_now_millis: b1 },
        ) => a0 == b0 && a1 == b1,
        (
            MetaCommand::DeactivateChunks { chunk_ids: a0, assigned_now_millis: a1 },
            MetaCommand::DeactivateChunks { chunk_ids: b0, assigned_now_millis: b1 },
        ) => a0@ == b0@ && a1 == b1,
        (
            MetaCommand::DeactivateChunksWithoutCheck { deactivate_ids: a0 },
            MetaCommand::DeactivateChunksWithoutCheck { deactivate_ids: b0 },
        ) => a0@ == b0@,
        (
            MetaCommand::CreateWal { table_id: a0, row_count: a1 },
            MetaCommand::CreateWal { table_id: b0, row_count: b1 },
        ) => a0 == b0 && a1 == b1,
        (MetaCommand::DeleteWal { wal_id: a0 }, MetaCommand::DeleteWal { wal_id: b0 }) => a0 == b0,
        (MetaCommand::WalUploaded { wal_id: a0 }, MetaCommand::WalUploaded { wal_id: b0 }) =>
            a0 == b0,
        (MetaCommand::AddJob { job_blob: a0 }, MetaCommand::AddJob { job_blob: b0 }) => a0@ == b0@,
        (MetaCommand::DeleteJob { job_id: a0 }, MetaCommand::DeleteJob { job_id: b0 }) => a0 == b0,
        (MetaCommand::DeleteAllJobs, MetaCommand::DeleteAllJobs) => true,
        (
            MetaCommand::StartProcessingJob {
                server_name: a0,
                long_term: a1,
                assigned_now_millis: a2,
            },
            MetaCommand::StartProcessingJob {
                server_name: b0,
                long_term: b1,
                assigned_now_millis: b2,
            },
        ) => a0@ == b0@ && a1 == b1 && a2 == b2,
        (
            MetaCommand::UpdateStatus { job_id: a0, status_blob: a1, assigned_now_millis: a2 },
            MetaCommand::UpdateStatus { job_id: b0, status_blob: b1, assigned_now_millis: b2 },
        ) => a0 == b0 && a1@ == b1@ && a2 == b2,
        (
            MetaCommand::UpdateHeartBeat { job_id: a0, assigned_now_millis: a1 },
            MetaCommand::UpdateHeartBeat { job_id: b0, assigned_now_millis: b1 },
        ) => a0 == b0 && a1 == b1,
        (
            MetaCommand::CreateOrUpdateSource { name: a0, credentials_blob: a1 },
            MetaCommand::CreateOrUpdateSource { name: b0, credentials_blob: b1 },
        ) => a0@ == b0@ && a1@ == b1@,
        (MetaCommand::DeleteSource { id: a0 }, MetaCommand::DeleteSource { id: b0 }) => a0 == b0,
        (
            MetaCommand::CreateReplayHandle {
                table_id: a0,
                location_index: a1,
                seq_pointer_blob: a2,
                assigned_now_millis: a3,
            },
            MetaCommand::CreateReplayHandle {
                table_id: b0,
                location_index: b1,
                seq_pointer_blob: b2,
                assigned_now_millis: b3,
            },
        ) => a0 == b0 && a1 == b1 && a2@ == b2@ && a3 == b3,
        (
            MetaCommand::CreateReplayHandleFromSeqPointers {
                table_id: a0,
                seq_pointers_blob: a1,
                assigned_now_millis: a2,
            },
            MetaCommand::CreateReplayHandleFromSeqPointers {
                table_id: b0,
                seq_pointers_blob: b1,
                assigned_now_millis: b2,
            },
        ) => a0 == b0 && a1@ == b1@ && a2 == b2,
        (
            MetaCommand::UpdateReplayHandleFailedIfExists { id: a0, failed: a1 },
            MetaCommand::UpdateReplayHandleFailedIfExists { id: b0, failed: b1 },
        ) => a0 == b0 && a1 == b1,
        (
            MetaCommand::ReplaceReplayHandles { old_ids: a0, new_seq_pointer_blob: a1 },
            MetaCommand::ReplaceReplayHandles { old_ids: b0, new_seq_pointer_blob: b1 },
        ) => a0@ == b0@ && a1@ == b1@,
        (
            MetaCommand::SetCurrentSnapshot { snapshot_id_low: a0, snapshot_id_high: a1 },
            MetaCommand::SetCurrentSnapshot { snapshot_id_low: b0, snapshot_id_high: b1 },
        ) => a0 == b0 && a1 == b1,
        (
            MetaCommand::AcquirePartitionedLock { payload_version: a0, payload: a1 },
            MetaCommand::AcquirePartitionedLock { payload_version: b0, payload: b1 },
        ) => a0 == b0 && a1@ == b1@,
        (
            MetaCommand::ReleasePartitionedLock { payload_version: a0, payload: a1 },
            MetaCommand::ReleasePartitionedLock { payload_version: b0, payload: b1 },
        ) => a0 == b0 && a1@ == b1@,
        (MetaCommand::Batch { commands: a0 }, MetaCommand::Batch { commands: b0 }) => same_commands(
            a0@,
            b0@,
        ),
        (
            MetaCommand::Generic { method: a0, body: a1 },
            MetaCommand::Generic { method: b0, body: b1 },
        ) => a0@ == b0@ && a1@ == b1@,
        _ => false,
    }
}

/// Whether two lists hold the same commands, in the same order.
pub open spec fn same_commands(a: Seq<MetaCommand>, b: Seq<MetaCommand>) -> bool
    decreases a,
{
    a.len() == b.len() && forall|i: int|
        #![trigger a[i]]
        0 <= i < a.len() ==> same_command(a[i], b[i])
}

/// The code of the name of a command's variant, as [`codec::name_code`] gives it.
spec fn variant_code(c: MetaCommand) -> int {
    match c {
        MetaCommand::CreateSchema { .. } => 26274273,
        MetaCommand::RenameSchema { .. } => 26520033,
        MetaCommand::RenameSchemaById { .. } => 34911332,
        MetaCommand::DeleteSchema { .. } => 26290657,
        MetaCommand::DeleteSchemaById { .. } => 34681956,
        MetaCommand::CreateTable { .. } => 24179429,
        MetaCommand::CreateTableStructured { .. } => 45150948,
        MetaCommand::DropTable { .. } => 19999333,
        MetaCommand::SealTable { .. } => 20245093,
        MetaCommand::UpdateLocationDownloadSize { .. } => 55932773,
        MetaCommand::TableReady { .. } => 22358393,
        MetaCommand::CreatePartition { .. } => 32567534,
        MetaCommand::DeletePartition { .. } => 32583918,
        MetaCommand::MarkPartitionWarmedUp { .. } => 45315312,
        MetaCommand::DeleteMiddleManPartition { .. } => 51455726,
        MetaCommand::SwapActivePartitions { .. } => 43313267,
        MetaCommand::SwapActivePartitionsStructured { .. } => 64289380,
        MetaCommand::CreateMultiPartition { .. } => 43054318,
        MetaCommand::CommitMultiPartitionSplit { .. } => 53539060,
        MetaCommand::CreateIndex { .. } => 24179448,
        MetaCommand::CreatePartitionedIndex { .. } => 47250040,
        MetaCommand::DropPartitionedIndex { .. } => 43070712,
        MetaCommand::CreateChunk { .. } => 24179435,
        MetaCommand::InsertChunks { .. } => 26370547,
        MetaCommand::SwapCompactedChunks { .. } => 41218547,
        MetaCommand::DeleteChunk { .. } => 24195819,
        MetaCommand::DeleteChunksWithoutChecks { .. } => 53554163,
        MetaCommand::ChunkUploaded { .. } => 28375140,
        MetaCommand::ChunkUpdateLastInserted { .. } => 49342052,
        MetaCommand::SwapChunks { .. } => 22344819,
        MetaCommand::SwapChunksWithoutCheck { .. } => 47510763,
        MetaCommand::ActivateChunks { .. } => 30438131,
        MetaCommand::DeactivateChunk { .. } => 32583915,
        MetaCommand::DeactivateChunks { .. } => 34683507,
        MetaCommand::DeactivateChunksWithoutCheck { .. } => 59848171,
        MetaCommand::CreateWal { .. } => 19987052,
        MetaCommand::DeleteWal { .. } => 20003436,
        MetaCommand::WalUploaded { .. } => 24508004,
        MetaCommand::AddJob { .. } => 13657442,
        MetaCommand::DeleteJob { .. } => 20003426,
        MetaCommand::DeleteAllJobs => 28385523,
        MetaCommand::StartProcessingJob { .. } => 39121634,
        MetaCommand::UpdateStatus { .. } => 26569203,
        MetaCommand::UpdateHeartBeat { .. } => 32862964,
        MetaCommand::CreateOrUpdateSource { .. } => 43053669,
        MetaCommand::DeleteSource { .. } => 26290661,
        MetaCommand::CreateReplayHandle { .. } => 38860389,
        MetaCommand::CreateReplayHandleFromSeqPointers { .. } => 70317683,
        MetaCommand::UpdateReplayHandleFailedIfExists { .. } => 68515443,
        MetaCommand::ReplaceReplayHandles { .. } => 43300467,
        MetaCommand::SetCurrentSnapshot { .. } => 39123572,
        MetaCommand::AcquirePartitionedLock { .. } => 47215851,
        MetaCommand::ReleasePartitionedLock { .. } => 47494379,
        MetaCommand::Batch { .. } => 11582056,
        MetaCommand::Generic { .. } => 15856355,
    }
}

proof fn lemma_variant_code(c: MetaCommand)
    ensures
        codec::name_code(tag_in(c.value())) == variant_code(c),
{
    reveal(MetaCommand::value);
    codec::lemma_variant_names();
}

proof fn lemma_create_schema(a0: Seq<char>, a1: bool, b0: Seq<char>, b1: bool)
    requires
        codec::create_schema_value(a0, a1)
            == codec::create_schema_value(b0, b1),
    ensures
        a0 == b0,
        a1 == b1,
{
    let x = codec::fields_in(codec::create_schema_value(a0, a1));
    let y = codec::fields_in(codec::create_schema_value(b0, b1));
    assert(x[0] == y[0]);
    assert(x[1] == y[1]);
}

proof fn lemma_rename_schema(a0: Seq<char>, a1: Seq<char>, b0: Seq<char>, b1: Seq<char>)
    requires
        codec::rename_schema_value(a0, a1)
            == codec::rename_schema_value(b0, b1),
    ensures
        a0 == b0,
        a1 == b1,
{
    let x = codec::fields_in(codec::rename_schema_value(a0, a1));
    let y = codec::fields_in(codec::rename_schema_value(b0, b1));
    assert(x[0] == y[0]);
    assert(x[1] == y[1]);
}

proof fn lemma_rename_schema_by_id(a0: u64, a1: Seq<char>, b0: u64, b1: Seq<char>)
    requires
        codec::rename_schema_by_id_value(a0, a1)
            == codec::rename_schema_by_id_value(b0, b1),
    ensures
        a0 == b0,
        a1 == b1,
{
    let x = codec::fields_in(codec::rename_schema_by_id_value(a0, a1));
    let y = codec::fields_in(codec::rename_schema_by_id_value(b0, b1));
    assert(x[0] == y[0]);
    assert(x[1] == y[1]);
}

proof fn lemma_delete_schema(a0: Seq<char>, b0: Seq<char>)
    requires
        codec::delete_schema_value(a0)
            == codec::delete_schema_value(b0),
    ensures
        a0 == b0,
{
    let x = codec::fields_in(codec::delete_schema_value(a0));
    let y = codec::fields_in(codec::delete_schema_value(b0));
    assert(x[0] == y[0]);
}

proof fn lemma_delete_schema_by_id(a0: u64, b0: u64)
    requires
        codec::delete_schema_by_id_value(a0)
            == codec::delete_schema_by_id_value(b0),
    ensures
        a0 == b0,
{
    let x = codec::fields_in(codec::delete_schema_by_id_value(a0));
    let y = codec::fields_in(codec::delete_schema_by_id_value(b0));
    assert(x[0] == y[0]);
}

proof fn lemma_create_table(
    a0: Seq<char>,
    a1: Seq<char>,
    a2: u16,
    a3: Seq<u8>,
    b0: Seq<char>,
    b1: Seq<char>,
    b2: u16,
    b3: Seq<u8>,
)
    requires
        codec::create_table_value(a0, a1, a2, a3)
            == codec::create_table_value(b0, b1, b2, b3),
    ensures
        a0 == b0,
        a1 == b1,
        a2 == b2,
        a3 == b3,
{
    let x = codec::fields_in(codec::create_table_value(a0, a1, a2, a3));
    let y = codec::fields_in(codec::create_table_value(b0, b1, b2, b3));
    assert(x[0] == y[0]);
    assert(x[1] == y[1]);
    assert(x[2] == y[2]);
    assert(x[3] == y[3]);
    lemma_same_bytes(a3, b3);
}

proof fn lemma_create_table_structured(
    a0: Seq<char>,
    a1: Seq<char>,
    a2: Seq<u8>,
    a3: Option<Seq<Seq<char>>>,
    a4: Option<Seq<u8>>,
    a5: Seq<u8>,
    a6: bool,
    a7: Option<i64>,
    a8: Option<i64>,
    a9: Option<Seq<char>>,
    a10: Option<Seq<u8>>,
    a11: Option<Seq<u8>>,
    a12: Option<Seq<Seq<char>>>,
    a13: Option<Seq<(Seq<char>, Seq<char>)>>,
    a14: Option<u64>,
    a15: Option<Seq<char>>,
    a16: bool,
    a17: Option<Seq<char>>,
    a18: i64,
    b0: Seq<char>,
    b1: Seq<char>,
    b2: Seq<u8>,
    b3: Option<Seq<Seq<char>>>,
    b4: Option<Seq<u8>>,
    b5: Seq<u8>,
    b6: bool,
    b7: Option<i64>,
    b8: Option<i64>,
    b9: Option<Seq<char>>,
    b10: Option<Seq<u8>>,
    b11: Option<Seq<u8>>,
    b12: Option<Seq<Seq<char>>>,
    b13: Option<Seq<(Seq<char>, Seq<char>)>>,
    b14: Option<u64>,
    b15: Option<Seq<char>>,
    b16: bool,
    b17: Option<Seq<char>>,
    b18: i64,
)
    requires
        codec::create_table_structured_value(
            a0,
            a1,
            a2,
            a3,
            a4,
            a5,
            a6,
            a7,
            a8,
            a9,
            a10,
            a11,
            a12,
            a13,
            a14,
            a15,
            a16,
            a17,
            a18,
        )
            == codec::create_table_structured_value(
                b0,
                b1,
                b2,
                b3,
                b4,
                b5,
                b6,
                b7,
                b8,
                b9,
                b10,
                b11,
                b12,
                b13,
                b14,
                b15,
                b16,
                b17,
                b18,
            ),
    ensures
        a0 == b0,
        a1 == b1,
        a2 == b2,
        a3 == b3,
        a4 == b4,
        a5 == b5,
        a6 == b6,
        a7 == b7,
        a8 == b8,
        a9 == b9,
        a10 == b10,
        a11 == b11,
        a12 == b12,
        a13 == b13,
        a14 == b14,
        a15 == b15,
        a16 == b16,
        a17 == b17,
        a18 == b18,
{
    let x = codec::fields_in(
        codec::create_table_structured_value(
            a0,
            a1,
            a2,
            a3,
            a4,
            a5,
            a6,
            a7,
            a8,
            a9,
            a10,
            a11,
            a12,
            a13,
            a14,
            a15,
            a16,
            a17,
            a18,
        ),
    );
    let y = codec::fields_in(
        codec::create_table_structured_value(
            b0,
            b1,
            b2,
            b3,
            b4,
            b5,
            b6,
            b7,
            b8,
            b9,
            b10,
            b11,
            b12,
            b13,
            b14,
            b15,
            b16,
            b17,
            b18,
        ),
    );
    assert(x[0] == y[0]);
    assert(x[1] == y[1]);
    assert(x[2] == y[2]);
    lemma_same_bytes(a2, b2);
    assert(x[3] == y[3]);
    lemma_same_opt_texts(a3, b3);
    assert(x[4] == y[4]);
    lemma_same_opt_bytes(a4, b4);
    assert(x[5] == y[5]);
    lemma_same_bytes(a5, b5);
    assert(x[6] == y[6]);
    assert(x[7] == y[7]);
    assert(x[8] == y[8]);
    assert(x[9] == y[9]);
    assert(x[10] == y[10]);
    lemma_same_opt_bytes(a10, b10);
    assert(x[11] == y[11]);
    lemma_same_opt_bytes(a11, b11);
    assert(x[12] == y[12]);
    lemma_same_opt_texts(a12, b12);
    assert(x[13] == y[13]);
    lemma_same_opt_pairs(a13, b13);
    assert(x[14] == y[14]);
    assert(x[15] == y[15]);
    assert(x[16] == y[16]);
    assert(x[17] == y[17]);
    assert(x[18] == y[18]);
}

proof fn lemma_drop_table(a0: u64, b0: u64)
    requires
        codec::drop_table_value(a0)
            == codec::drop_table_value(b0),
    ensures
        a0 == b0,
{
    let x = codec::fields_in(codec::drop_table_value(a0));
    let y = codec::fields_in(codec::drop_table_value(b0));
    assert(x[0] == y[0]);
}

proof fn lemma_seal_table(a0: u64, b0: u64)
    requires
        codec::seal_table_value(a0)
            == codec::seal_table_value(b0),
    ensures
        a0 == b0,
{
    let x = codec::fields_in(codec::seal_table_value(a0));
    let y = codec::fields_in(codec::seal_table_value(b0));
    assert(x[0] == y[0]);
}

proof fn lemma_update_location_download_size(
    a0: u64,
    a1: Seq<char>,
    a2: u64,
    b0: u64,
    b1: Seq<char>,
    b2: u64,
)
    requires
        codec::update_location_download_size_value(a0, a1, a2)
            == codec::update_location_download_size_value(b0, b1, b2),
    ensures
        a0 == b0,
        a1 == b1,
        a2 == b2,
{
    let x = codec::fields_in(codec::update_location_download_size_value(a0, a1, a2));
    let y = codec::fields_in(codec::update_location_download_size_value(b0, b1, b2));
    assert(x[0] == y[0]);
    assert(x[1] == y[1]);
    assert(x[2] == y[2]);
}

proof fn lemma_table_ready(a0: u64, a1: bool, b0: u64, b1: bool)
    requires
        codec::table_ready_value(a0, a1)
            == codec::table_ready_value(b0, b1),
    ensures
        a0 == b0,
        a1 == b1,
{
    let x = codec::fields_in(codec::table_ready_value(a0, a1));
    let y = codec::fields_in(codec::table_ready_value(b0, b1));
    assert(x[0] == y[0]);
    assert(x[1] == y[1]);
}

proof fn lemma_create_partition(a0: Seq<u8>, b0: Seq<u8>)
    requires
        codec::create_partition_value(a0)
            == codec::create_partition_value(b0),
    ensures
        a0 == b0,
{
    let x = codec::fields_in(codec::create_partition_value(a0));
    let y = codec::fields_in(codec::create_partition_value(b0));
    assert(x[0] == y[0]);
    lemma_same_bytes(a0, b0);
}

proof fn lemma_delete_partition(a0: u64, b0: u64)
    requires
        codec::delete_partition_value(a0)
            == codec::delete_partition_value(b0),
    ensures
        a0 == b0,
{
    let x = codec::fields_in(codec::delete_partition_value(a0));
    let y = codec::fields_in(codec::delete_partition_value(b0));
    assert(x[0] == y[0]);
}

proof fn lemma_mark_partition_warmed_up(a0: u64, b0: u64)
    requires
        codec::mark_partition_warmed_up_value(a0)
            == codec::mark_partition_warmed_up_value(b0),
    ensures
        a0 == b0,
{
    let x = codec::fields_in(codec::mark_partition_warmed_up_value(a0));
    let y = codec::fields_in(codec::mark_partition_warmed_up_value(b0));
    assert(x[0] == y[0]);
}

proof fn lemma_delete_middle_man_partition(a0: u64, b0: u64)
    requires
        codec::delete_middle_man_partition_value(a0)
            == codec::delete_middle_man_partition_value(b0),
    ensures
        a0 == b0,
{
    let x = codec::fields_in(codec::delete_middle_man_partition_value(a0));
    let y = codec::fields_in(codec::delete_middle_man_partition_value(b0));
    assert(x[0] == y[0]);
}

proof fn lemma_swap_active_partitions(a0: u16, a1: Seq<u8>, b0: u16, b1: Seq<u8>)
    requires
        codec::swap_active_partitions_value(a0, a1)
            == codec::swap_active_partitions_value(b0, b1),
    ensures
        a0 == b0,
        a1 == b1,
{
    let x = codec::fields_in(codec::swap_active_partitions_value(a0, a1));
    let y = codec::fields_in(codec::swap_active_partitions_value(b0, b1));
    assert(x[0] == y[0]);
    assert(x[1] == y[1]);
    lemma_same_bytes(a1, b1);
}

proof fn lemma_swap_active_partitions_structured(
    a0: Seq<u8>,
    a1: Seq<u8>,
    a2: Seq<u8>,
    b0: Seq<u8>,
    b1: Seq<u8>,
    b2: Seq<u8>,
)
    requires
        codec::swap_active_partitions_structured_value(a0, a1, a2)
            == codec::swap_active_partitions_structured_value(b0, b1, b2),
    ensures
        a0 == b0,
        a1 == b1,
        a2 == b2,
{
    let x = codec::fields_in(codec::swap_active_partitions_structured_value(a0, a1, a2));
    let y = codec::fields_in(codec::swap_active_partitions_structured_value(b0, b1, b2));
    assert(x[0] == y[0]);
    lemma_same_bytes(a0, b0);
    assert(x[1] == y[1]);
    lemma_same_bytes(a1, b1);
    assert(x[2] == y[2]);
    lemma_same_bytes(a2, b2);
}

proof fn lemma_create_multi_partition(a0: Seq<u8>, b0: Seq<u8>)
    requires
        codec::create_multi_partition_value(a0)
            == codec::create_multi_partition_value(b0),
    ensures
        a0 == b0,
{
    let x = codec::fields_in(codec::create_multi_partition_value(a0));
    let y = codec::fields_in(codec::create_multi_partition_value(b0));
    assert(x[0] == y[0]);
    lemma_same_bytes(a0, b0);
}

proof fn lemma_commit_multi_partition_split(
    a0: u64,
    a1: Seq<u64>,
    a2: Seq<u64>,
    a3: Seq<u8>,
    a4: Seq<u8>,
    a5: Seq<u64>,
    a6: bool,
    b0: u64,
    b1: Seq<u64>,
    b2: Seq<u64>,
    b3: Seq<u8>,
    b4: Seq<u8>,
    b5: Seq<u64>,
    b6: bool,
)
    requires
        codec::commit_multi_partition_split_value(a0, a1, a2, a3, a4, a5, a6)
            == codec::commit_multi_partition_split_value(b0, b1, b2, b3, b4, b5, b6),
    ensures
        a0 == b0,
        a1 == b1,
        a2 == b2,
        a3 == b3,
        a4 == b4,
        a5 == b5,
        a6 == b6,
{
    let x = codec::fields_in(codec::commit_multi_partition_split_value(a0, a1, a2, a3, a4, a5, a6));
    let y = codec::fields_in(codec::commit_multi_partition_split_value(b0, b1, b2, b3, b4, b5, b6));
    assert(x[0] == y[0]);
    assert(x[1] == y[1]);
    lemma_same_u64s(a1, b1);
    assert(x[2] == y[2]);
    lemma_same_u64s(a2, b2);
    assert(x[3] == y[3]);
    lemma_same_bytes(a3, b3);
    assert(x[4] == y[4]);
    lemma_same_bytes(a4, b4);
    assert(x[5] == y[5]);
    lemma_same_u64s(a5, b5);
    assert(x[6] == y[6]);
}

proof fn lemma_create_index(
    a0: Seq<char>,
    a1: Seq<char>,
    a2: Seq<u8>,
    b0: Seq<char>,
    b1: Seq<char>,
    b2: Seq<u8>,
)
    requires
        codec::create_index_value(a0, a1, a2)
            == codec::create_index_value(b0, b1, b2),
    ensures
        a0 == b0,
        a1 == b1,
        a2 == b2,
{
    let x = codec::fields_in(codec::create_index_value(a0, a1, a2));
    let y = codec::fields_in(codec::create_index_value(b0, b1, b2));
    assert(x[0] == y[0]);
    assert(x[1] == y[1]);
    assert(x[2] == y[2]);
    lemma_same_bytes(a2, b2);
}

proof fn lemma_create_partitioned_index(
    a0: Seq<char>,
    a1: Seq<char>,
    a2: Seq<u8>,
    a3: bool,
    b0: Seq<char>,
    b1: Seq<char>,
    b2: Seq<u8>,
    b3: bool,
)
    requires
        codec::create_partitioned_index_value(a0, a1, a2, a3)
            == codec::create_partitioned_index_value(b0, b1, b2, b3),
    ensures
        a0 == b0,
        a1 == b1,
        a2 == b2,
        a3 == b3,
{
    let x = codec::fields_in(codec::create_partitioned_index_value(a0, a1, a2, a3));
    let y = codec::fields_in(codec::create_partitioned_index_value(b0, b1, b2, b3));
    assert(x[0] == y[0]);
    assert(x[1] == y[1]);
    assert(x[2] == y[2]);
    lemma_same_bytes(a2, b2);
    assert(x[3] == y[3]);
}

proof fn lemma_drop_partitioned_index(a0: Seq<char>, a1: Seq<char>, b0: Seq<char>, b1: Seq<char>)
    requires
        codec::drop_partitioned_index_value(a0, a1)
            == codec::drop_partitioned_index_value(b0, b1),
    ensures
        a0 == b0,
        a1 == b1,
{
    let x = codec::fields_in(codec::drop_partitioned_index_value(a0, a1));
    let y = codec::fields_in(codec::drop_partitioned_index_value(b0, b1));
    assert(x[0] == y[0]);
    assert(x[1] == y[1]);
}

proof fn lemma_create_chunk(a0: Seq<u8>, b0: Seq<u8>)
    requires
        codec::create_chunk_value(a0)
            == codec::create_chunk_value(b0),
    ensures
        a0 == b0,
{
    let x = codec::fields_in(codec::create_chunk_value(a0));
    let y = codec::fields_in(codec::create_chunk_value(b0));
    assert(x[0] == y[0]);
    lemma_same_bytes(a0, b0);
}

proof fn lemma_insert_chunks(a0: Seq<u8>, b0: Seq<u8>)
    requires
        codec::insert_chunks_value(a0)
            == codec::insert_chunks_value(b0),
    ensures
        a0 == b0,
{
    let x = codec::fields_in(codec::insert_chunks_value(a0));
    let y = codec::fields_in(codec::insert_chunks_value(b0));
    assert(x[0] == y[0]);
    lemma_same_bytes(a0, b0);
}

proof fn lemma_swap_compacted_chunks(
    a0: u64,
    a1: Seq<u64>,
    a2: u64,
    a3: u64,
    b0: u64,
    b1: Seq<u64>,
    b2: u64,
    b3: u64,
)
    requires
        codec::swap_compacted_chunks_value(a0, a1, a2, a3)
            == codec::swap_compacted_chunks_value(b0, b1, b2, b3),
    ensures
        a0 == b0,
        a1 == b1,
        a2 == b2,
        a3 == b3,
{
    let x = codec::fields_in(codec::swap_compacted_chunks_value(a0, a1, a2, a3));
    let y = codec::fields_in(codec::swap_compacted_chunks_value(b0, b1, b2, b3));
    assert(x[0] == y[0]);
    assert(x[1] == y[1]);
    lemma_same_u64s(a1, b1);
    assert(x[2] == y[2]);
    assert(x[3] == y[3]);
}

proof fn lemma_delete_chunk(a0: u64, b0: u64)
    requires
        codec::delete_chunk_value(a0)
            == codec::delete_chunk_value(b0),
    ensures
        a0 == b0,
{
    let x = codec::fields_in(codec::delete_chunk_value(a0));
    let y = codec::fields_in(codec::delete_chunk_value(b0));
    assert(x[0] == y[0]);
}

proof fn lemma_delete_chunks_without_checks(a0: Seq<u64>, b0: Seq<u64>)
    requires
        codec::delete_chunks_without_checks_value(a0)
            == codec::delete_chunks_without_checks_value(b0),
    ensures
        a0 == b0,
{
    let x = codec::fields_in(codec::delete_chunks_without_checks_value(a0));
    let y = codec::fields_in(codec::delete_chunks_without_checks_value(b0));
    assert(x[0] == y[0]);
    lemma_same_u64s(a0, b0);
}

proof fn lemma_chunk_uploaded(a0: u64, b0: u64)
    requires
        codec::chunk_uploaded_value(a0)
            == codec::chunk_uploaded_value(b0),
    ensures
        a0 == b0,
{
    let x = codec::fields_in(codec::chunk_uploaded_value(a0));
    let y = codec::fields_in(codec::chunk_uploaded_value(b0));
    assert(x[0] == y[0]);
}

proof fn lemma_chunk_update_last_inserted(
    a0: Seq<u64>,
    a1: Option<i64>,
    b0: Seq<u64>,
    b1: Option<i64>,
)
    requires
        codec::chunk_update_last_inserted_value(a0, a1)
            == codec::chunk_update_last_inserted_value(b0, b1),
    ensures
        a0 == b0,
        a1 == b1,
{
    let x = codec::fields_in(codec::chunk_update_last_inserted_value(a0, a1));
    let y = codec::fields_in(codec::chunk_update_last_inserted_value(b0, b1));
    assert(x[0] == y[0]);
    lemma_same_u64s(a0, b0);
    assert(x[1] == y[1]);
}

proof fn lemma_swap_chunks(
    a0: Seq<u64>,
    a1: Seq<(u64, Option<u64>)>,
    a2: Option<u64>,
    b0: Seq<u64>,
    b1: Seq<(u64, Option<u64>)>,
    b2: Option<u64>,
)
    requires
        codec::swap_chunks_value(a0, a1, a2)
            == codec::swap_chunks_value(b0, b1, b2),
    ensures
        a0 == b0,
        a1 == b1,
        a2 == b2,
{
    let x = codec::fields_in(codec::swap_chunks_value(a0, a1, a2));
    let y = codec::fields_in(codec::swap_chunks_value(b0, b1, b2));
    assert(x[0] == y[0]);
    lemma_same_u64s(a0, b0);
    assert(x[1] == y[1]);
    lemma_same_id_sizes(a1, b1);
    assert(x[2] == y[2]);
}

proof fn lemma_swap_chunks_without_check(
    a0: Seq<u64>,
    a1: Seq<(u64, Option<u64>)>,
    a2: Option<u64>,
    b0: Seq<u64>,
    b1: Seq<(u64, Option<u64>)>,
    b2: Option<u64>,
)
    requires
        codec::swap_chunks_without_check_value(a0, a1, a2)
            == codec::swap_chunks_without_check_value(b0, b1, b2),
    ensures
        a0 == b0,
        a1 == b1,
        a2 == b2,
{
    let x = codec::fields_in(codec::swap_chunks_without_check_value(a0, a1, a2));
    let y = codec::fields_in(codec::swap_chunks_without_check_value(b0, b1, b2));
    assert(x[0] == y[0]);
    lemma_same_u64s(a0, b0);
    assert(x[1] == y[1]);
    lemma_same_id_sizes(a1, b1);
    assert(x[2] == y[2]);
}

proof fn lemma_activate_chunks(
    a0: u64,
    a1: Seq<(u64, Option<u64>)>,
    a2: Option<u64>,
    b0: u64,
    b1: Seq<(u64, Option<u64>)>,
    b2: Option<u64>,
)
    requires
        codec::activate_chunks_value(a0, a1, a2)
            == codec::activate_chunks_value(b0, b1, b2),
    ensures
        a0 == b0,
        a1 == b1,
        a2 == b2,
{
    let x = codec::fields_in(codec::activate_chunks_value(a0, a1, a2));
    let y = codec::fields_in(codec::activate_chunks_value(b0, b1, b2));
    assert(x[0] == y[0]);
    assert(x[1] == y[1]);
    lemma_same_id_sizes(a1, b1);
    assert(x[2] == y[2]);
}

proof fn lemma_deactivate_chunk(a0: u64, a1: i64, b0: u64, b1: i64)
    requires
        codec::deactivate_chunk_value(a0, a1)
            == codec::deactivate_chunk_value(b0, b1),
    ensures
        a0 == b0,
        a1 == b1,
{
    let x = codec::fields_in(codec::deactivate_chunk_value(a0, a1));
    let y = codec::fields_in(codec::deactivate_chunk_value(b0, b1));
    assert(x[0] == y[0]);
    assert(x[1] == y[1]);
}

proof fn lemma_deactivate_chunks(a0: Seq<u64>, a1: i64, b0: Seq<u64>, b1: i64)
    requires
        codec::deactivate_chunks_value(a0, a1)
            == codec::deactivate_chunks_value(b0, b1),
    ensures
        a0 == b0,
        a1 == b1,
{
    let x = codec::fields_in(codec::deactivate_chunks_value(a0, a1));
    let y = codec::fields_in(codec::deactivate_chunks_value(b0, b1));
    assert(x[0] == y[0]);
    lemma_same_u64s(a0, b0);
    assert(x[1] == y[1]);
}

proof fn lemma_deactivate_chunks_without_check(a0: Seq<u64>, b0: Seq<u64>)
    requires
        codec::deactivate_chunks_without_check_value(a0)
            == codec::deactivate_chunks_without_check_value(b0),
    ensures
        a0 == b0,
{
    let x = codec::fields_in(codec::deactivate_chunks_without_check_value(a0));
    let y = codec::fields_in(codec::deactivate_chunks_without_check_value(b0));
    assert(x[0] == y[0]);
    lemma_same_u64s(a0, b0);
}

proof fn lemma_create_wal(a0: u64, a1: u64, b0: u64, b1: u64)
    requires
        codec::create_wal_value(a0, a1)
            == codec::create_wal_value(b0, b1),
    ensures
        a0 == b0,
        a1 == b1,
{
    let x = codec::fields_in(codec::create_wal_value(a0, a1));
    let y = codec::fields_in(codec::create_wal_value(b0, b1));
    assert(x[0] == y[0]);
    assert(x[1] == y[1]);
}

proof fn lemma_delete_wal(a0: u64, b0: u64)
    requires
        codec::delete_wal_value(a0)
            == codec::delete_wal_value(b0),
    ensures
        a0 == b0,
{
    let x = codec::fields_in(codec::delete_wal_value(a0));
    let y = codec::fields_in(codec::delete_wal_value(b0));
    assert(x[0] == y[0]);
}

proof fn lemma_wal_uploaded(a0: u64, b0: u64)
    requires
        codec::wal_uploaded_value(a0)
            == codec::wal_uploaded_value(b0),
    ensures
        a0 == b0,
{
    let x = codec::fields_in(codec::wal_uploaded_value(a0));
    let y = codec::fields_in(codec::wal_uploaded_value(b0));
    assert(x[0] == y[0]);
}

proof fn lemma_add_job(a0: Seq<u8>, b0: Seq<u8>)
    requires
        codec::add_job_value(a0)
            == codec::add_job_value(b0),
    ensures
        a0 == b0,
{
    let x = codec::fields_in(codec::add_job_value(a0));
    let y = codec::fields_in(codec::add_job_value(b0));
    assert(x[0] == y[0]);
    lemma_same_bytes(a0, b0);
}

proof fn lemma_delete_job(a0: u64, b0: u64)
    requires
        codec::delete_job_value(a0)
            == codec::delete_job_value(b0),
    ensures
        a0 == b0,
{
    let x = codec::fields_in(codec::delete_job_value(a0));
    let y = codec::fields_in(codec::delete_job_value(b0));
    assert(x[0] == y[0]);
}

proof fn lemma_start_processing_job(
    a0: Seq<char>,
    a1: bool,
    a2: i64,
    b0: Seq<char>,
    b1: bool,
    b2: i64,
)
    requires
        codec::start_processing_job_value(a0, a1, a2)
            == codec::start_processing_job_value(b0, b1, b2),
    ensures
        a0 == b0,
        a1 == b1,
        a2 == b2,
{
    let x = codec::fields_in(codec::start_processing_job_value(a0, a1, a2));
    let y = codec::fields_in(codec::start_processing_job_value(b0, b1, b2));
    assert(x[0] == y[0]);
    assert(x[1] == y[1]);
    assert(x[2] == y[2]);
}

proof fn lemma_update_status(a0: u64, a1: Seq<u8>, a2: i64, b0: u64, b1: Seq<u8>, b2: i64)
    requires
        codec::update_status_value(a0, a1, a2)
            == codec::update_status_value(b0, b1, b2),
    ensures
        a0 == b0,
        a1 == b1,
        a2 == b2,
{
    let x = codec::fields_in(codec::update_status_value(a0, a1, a2));
    let y = codec::fields_in(codec::update_status_value(b0, b1, b2));
    assert(x[0] == y[0]);
    assert(x[1] == y[1]);
    lemma_same_bytes(a1, b1);
    assert(x[2] == y[2]);
}

proof fn lemma_update_heart_beat(a0: u64, a1: i64, b0: u64, b1: i64)
    requires
        codec::update_heart_beat_value(a0, a1)
            == codec::update_heart_beat_value(b0, b1),
    ensures
        a0 == b0,
        a1 == b1,
{
    let x = codec::fields_in(codec::update_heart_beat_value(a0, a1));
    let y = codec::fields_in(codec::update_heart_beat_value(b0, b1));
    assert(x[0] == y[0]);
    assert(x[1] == y[1]);
}

proof fn lemma_create_or_update_source(a0: Seq<char>, a1: Seq<u8>, b0: Seq<char>, b1: Seq<u8>)
    requires
        codec::create_or_update_source_value(a0, a1)
            == codec::create_or_update_source_value(b0, b1),
    ensures
        a0 == b0,
        a1 == b1,
{
    let x = codec::fields_in(codec::create_or_update_source_value(a0, a1));
    let y = codec::fields_in(codec::create_or_update_source_value(b0, b1));
    assert(x[0] == y[0]);
    assert(x[1] == y[1]);
    lemma_same_bytes(a1, b1);
}

proof fn lemma_delete_source(a0: u64, b0: u64)
    requires
        codec::delete_source_value(a0)
            == codec::delete_source_value(b0),
    ensures
        a0 == b0,
{
    let x = codec::fields_in(codec::delete_source_value(a0));
    let y = codec::fields_in(codec::delete_source_value(b0));
    assert(x[0] == y[0]);
}

proof fn lemma_create_replay_handle(
    a0: u64,
    a1: u64,
    a2: Seq<u8>,
    a3: i64,
    b0: u64,
    b1: u64,
    b2: Seq<u8>,
    b3: i64,
)
    requires
        codec::create_replay_handle_value(a0, a1, a2, a3)
            == codec::create_replay_handle_value(b0, b1, b2, b3),
    ensures
        a0 == b0,
        a1 == b1,
        a2 == b2,
        a3 == b3,
{
    let x = codec::fields_in(codec::create_replay_handle_value(a0, a1, a2, a3));
    let y = codec::fields_in(codec::create_replay_handle_value(b0, b1, b2, b3));
    assert(x[0] == y[0]);
    assert(x[1] == y[1]);
    assert(x[2] == y[2]);
    lemma_same_bytes(a2, b2);
    assert(x[3] == y[3]);
}

proof fn lemma_create_replay_handle_from_seq_pointers(
    a0: u64,
    a1: Seq<u8>,
    a2: i64,
    b0: u64,
    b1: Seq<u8>,
    b2: i64,
)
    requires
        codec::create_replay_handle_from_seq_pointers_value(a0, a1, a2)
            == codec::create_replay_handle_from_seq_pointers_value(b0, b1, b2),
    ensures
        a0 == b0,
        a1 == b1,
        a2 == b2,
{
    let x = codec::fields_in(codec::create_replay_handle_from_seq_pointers_value(a0, a1, a2));
    let y = codec::fields_in(codec::create_replay_handle_from_seq_pointers_value(b0, b1, b2));
    assert(x[0] == y[0]);
    assert(x[1] == y[1]);
    lemma_same_bytes(a1, b1);
    assert(x[2] == y[2]);
}

proof fn lemma_update_replay_handle_failed_if_exists(a0: u64, a1: bool, b0: u64, b1: bool)
    requires
        codec::update_replay_handle_failed_if_exists_value(a0, a1)
            == codec::update_replay_handle_failed_if_exists_value(b0, b1),
    ensures
        a0 == b0,
        a1 == b1,
{
    let x = codec::fields_in(codec::update_replay_handle_failed_if_exists_value(a0, a1));
    let y = codec::fields_in(codec::update_replay_handle_failed_if_exists_value(b0, b1));
    assert(x[0] == y[0]);
    assert(x[1] == y[1]);
}

proof fn lemma_replace_replay_handles(a0: Seq<u64>, a1: Seq<u8>, b0: Seq<u64>, b1: Seq<u8>)
    requires
        codec::replace_replay_handles_value(a0, a1)
            == codec::replace_replay_handles_value(b0, b1),
    ensures
        a0 == b0,
        a1 == b1,
{
    let x = codec::fields_in(codec::replace_replay_handles_value(a0, a1));
    let y = codec::fields_in(codec::replace_replay_handles_value(b0, b1));
    assert(x[0] == y[0]);
    lemma_same_u64s(a0, b0);
    assert(x[1] == y[1]);
    lemma_same_bytes(a1, b1);
}

proof fn lemma_set_current_snapshot(a0: u64, a1: u64, b0: u64, b1: u64)
    requires
        codec::set_current_snapshot_value(a0, a1)
            == codec::set_current_snapshot_value(b0, b1),
    ensures
        a0 == b0,
        a1 == b1,
{
    let x = codec::fields_in(codec::set_current_snapshot_value(a0, a1));
    let y = codec::fields_in(codec::set_current_snapshot_value(b0, b1));
    assert(x[0] == y[0]);
    assert(x[1] == y[1]);
}

proof fn lemma_acquire_partitioned_lock(a0: u16, a1: Seq<u8>, b0: u16, b1: Seq<u8>)
    requires
        codec::acquire_partitioned_lock_value(a0, a1)
            == codec::acquire_partitioned_lock_value(b0, b1),
    ensures
        a0 == b0,
        a1 == b1,
{
    let x = codec::fields_in(codec::acquire_partitioned_lock_value(a0, a1));
    let y = codec::fields_in(codec::acquire_partitioned_lock_value(b0, b1));
    assert(x[0] == y[0]);
    assert(x[1] == y[1]);
    lemma_same_bytes(a1, b1);
}

proof fn lemma_release_partitioned_lock(a0: u16, a1: Seq<u8>, b0: u16, b1: Seq<u8>)
    requires
        codec::release_partitioned_lock_value(a0, a1)
            == codec::release_partitioned_lock_value(b0, b1),
    ensures
        a0 == b0,
        a1 == b1,
{
    let x = codec::fields_in(codec::release_partitioned_lock_value(a0, a1));
    let y = codec::fields_in(codec::release_partitioned_lock_value(b0, b1));
    assert(x[0] == y[0]);
    assert(x[1] == y[1]);
    lemma_same_bytes(a1, b1);
}

proof fn lemma_generic(a0: Seq<char>, a1: Seq<u8>, b0: Seq<char>, b1: Seq<u8>)
    requires
        codec::generic_value(a0, a1)
            == codec::generic_value(b0, b1),
    ensures
        a0 == b0,
        a1 == b1,
{
    let x = codec::fields_in(codec::generic_value(a0, a1));
    let y = codec::fields_in(codec::generic_value(b0, b1));
    assert(x[0] == y[0]);
    assert(x[1] == y[1]);
    lemma_same_bytes(a1, b1);
}

/// The form of a command on the wire says all of it: commands with the same value are
/// the same. So what is decoded from an encoded command is that command.
pub proof fn law_value_is_faithful(a: MetaCommand, b: MetaCommand)
    requires
        a.value() == b.value(),
    ensures
        same_command(a, b),
    decreases a,
{
    lemma_variant_code(a);
    lemma_variant_code(b);
    reveal(MetaCommand::value);
    match a {
        MetaCommand::CreateSchema { schema_name: a0, if_not_exists: a1 } => {
            assert(b is CreateSchema);
            if let MetaCommand::CreateSchema { schema_name: b0, if_not_exists: b1 } = b {
                lemma_create_schema(a0@, a1, b0@, b1);
            }
        },
        MetaCommand::RenameSchema { old_schema_name: a0, new_schema_name: a1 } => {
            assert(b is RenameSchema);
            if let MetaCommand::RenameSchema { old_schema_name: b0, new_schema_name: b1 } = b {
                lemma_rename_schema(a0@, a1@, b0@, b1@);
            }
        },
        MetaCommand::RenameSchemaById { schema_id: a0, new_schema_name: a1 } => {
            assert(b is RenameSchemaById);
            if let MetaCommand::RenameSchemaById { schema_id: b0, new_schema_name: b1 } = b {
                lemma_rename_schema_by_id(a0, a1@, b0, b1@);
            }
        },
        MetaCommand::DeleteSchema { schema_name: a0 } => {
            assert(b is DeleteSchema);
            if let MetaCommand::DeleteSchema { schema_name: b0 } = b {
                lemma_delete_schema(a0@, b0@);
            }
        },
        MetaCommand::DeleteSchemaById { schema_id: a0 } => {
            assert(b is DeleteSchemaById);
            if let MetaCommand::DeleteSchemaById { schema_id: b0 } = b {
                lemma_delete_schema_by_id(a0, b0);
            }
        },
        MetaCommand::CreateTable {
            schema_name: a0,
            table_name: a1,
            payload_version: a2,
            payload: a3,
        } => {
            assert(b is CreateTable);
            if let MetaCommand::CreateTable {
                schema_name: b0,
                table_name: b1,
                payload_version: b2,
                payload: b3,
            } = b {
                lemma_create_table(a0@, a1@, a2, a3@, b0@, b1@, b2, b3@);
            }
        },
        MetaCommand::CreateTableStructured {
            schema_name: a0,
            table_name: a1,
            columns_blob: a2,
            locations: a3,
            import_format_blob: a4,
            indexes_blob: a5,
            is_ready: a6,
            build_range_end_millis: a7,
            seal_at_millis: a8,
            select_statement: a9,
            source_columns_blob: a10,
            stream_offset_blob: a11,
            unique_key_column_names: a12,
            aggregates: a13,
            partition_split_threshold: a14,
            trace_obj: a15,
            drop_if_exists: a16,
            extension: a17,
            assigned_now_millis: a18,
        } => {
            assert(b is CreateTableStructured);
            if let MetaCommand::CreateTableStructured {
                schema_name: b0,
                table_name: b1,
                columns_blob: b2,
                locations: b3,
                import_format_blob: b4,
                indexes_blob: b5,
                is_ready: b6,
                build_range_end_millis: b7,
                seal_at_millis: b8,
                select_statement: b9,
                source_columns_blob: b10,
                stream_offset_blob: b11,
                unique_key_column_names: b12,
                aggregates: b13,
                partition_split_threshold: b14,
                trace_obj: b15,
                drop_if_exists: b16,
                extension: b17,
                assigned_now_millis: b18,
            } = b {
                lemma_create_table_structured(
                    a0@,
                    a1@,
                    a2@,
                    wire::opt_texts_view(a3),
                    wire::opt_bytes_view(a4),
                    a5@,
                    a6,
                    a7,
                    a8,
                    wire::opt_text_view(a9),
                    wire::opt_bytes_view(a10),
                    wire::opt_bytes_view(a11),
                    wire::opt_texts_view(a12),
                    wire::opt_pairs_view(a13),
                    a14,
                    wire::opt_text_view(a15),
                    a16,
                    wire::opt_text_view(a17),
                    a18,
                    b0@,
                    b1@,
                    b2@,
                    wire::opt_texts_view(b3),
                    wire::opt_bytes_view(b4),
                    b5@,
                    b6,
                    b7,
                    b8,
                    wire::opt_text_view(b9),
                    wire::opt_bytes_view(b10),
                    wire::opt_bytes_view(b11),
                    wire::opt_texts_view(b12),
                    wire::opt_pairs_view(b13),
                    b14,
                    wire::opt_text_view(b15),
                    b16,
                    wire::opt_text_view(b17),
                    b18,
                );
            }
        },
        MetaCommand::DropTable { table_id: a0 } => {
            assert(b is DropTable);
            if let MetaCommand::DropTable { table_id: b0 } = b {
                lemma_drop_table(a0, b0);
            }
        },
        MetaCommand::SealTable { table_id: a0 } => {
            assert(b is SealTable);
            if let MetaCommand::SealTable { table_id: b0 } = b {
                lemma_seal_table(a0, b0);
            }
        },
        MetaCommand::UpdateLocationDownloadSize {
            table_id: a0,
            location: a1,
            download_size: a2,
        } => {
            assert(b is UpdateLocationDownloadSize);
            if let MetaCommand::UpdateLocationDownloadSize {
                table_id: b0,
                location: b1,
                download_size: b2,
            } = b {
                lemma_update_location_download_size(a0, a1@, a2, b0, b1@, b2);
            }
        },
        MetaCommand::TableReady { table_id: a0, is_ready: a1 } => {
            assert(b is TableReady);
            if let MetaCommand::TableReady { table_id: b0, is_ready: b1 } = b {
                lemma_table_ready(a0, a1, b0, b1);
            }
        },
        MetaCommand::CreatePartition { partition_blob: a0 } => {
            assert(b is CreatePartition);
            if let MetaCommand::CreatePartition { partition_blob: b0 } = b {
                lemma_create_partition(a0@, b0@);
            }
        },
        MetaCommand::DeletePartition { partition_id: a0 } => {
            assert(b is DeletePartition);
            if let MetaCommand::DeletePartition { partition_id: b0 } = b {
                lemma_delete_partition(a0, b0);
            }
        },
        MetaCommand::MarkPartitionWarmedUp { partition_id: a0 } => {
            assert(b is MarkPartitionWarmedUp);
            if let MetaCommand::MarkPartitionWarmedUp { partition_id: b0 } = b {
                lemma_mark_partition_warmed_up(a0, b0);
            }
        },
        MetaCommand::DeleteMiddleManPartition { partition_id: a0 } => {
            assert(b is DeleteMiddleManPartition);
            if let MetaCommand::DeleteMiddleManPartition { partition_id: b0 } = b {
                lemma_delete_middle_man_partition(a0, b0);
            }
        },
        MetaCommand::SwapActivePartitions { payload_version: a0, payload: a1 } => {
            assert(b is SwapActivePartitions);
            if let MetaCommand::SwapActivePartitions { payload_version: b0, payload: b1 } = b {
                lemma_swap_active_partitions(a0, a1@, b0, b1@);
            }
        },
        MetaCommand::SwapActivePartitionsStructured {
            current_active_blob: a0,
            new_active_blob: a1,
            new_active_min_max_blob: a2,
        } => {
            assert(b is SwapActivePartitionsStructured);
            if let MetaCommand::SwapActivePartitionsStructured {
                current_active_blob: b0,
                new_active_blob: b1,
                new_active_min_max_blob: b2,
            } = b {
                lemma_swap_active_partitions_structured(a0@, a1@, a2@, b0@, b1@, b2@);
            }
        },
        MetaCommand::CreateMultiPartition { multi_partition_blob: a0 } => {
            assert(b is CreateMultiPartition);
            if let MetaCommand::CreateMultiPartition { multi_partition_blob: b0 } = b {
                lemma_create_multi_partition(a0@, b0@);
            }
        },
        MetaCommand::CommitMultiPartitionSplit {
            multi_partition_id: a0,
            new_multi_partitions: a1,
            new_multi_partition_rows: a2,
            old_partitions_blob: a3,
            new_partitions_blob: a4,
            new_partition_rows: a5,
            initial_split: a6,
        } => {
            assert(b is CommitMultiPartitionSplit);
            if let MetaCommand::CommitMultiPartitionSplit {
                multi_partition_id: b0,
                new_multi_partitions: b1,
                new_multi_partition_rows: b2,
                old_partitions_blob: b3,
                new_partitions_blob: b4,
                new_partition_rows: b5,
                initial_split: b6,
            } = b {
                lemma_commit_multi_partition_split(
                    a0,
                    a1@,
                    a2@,
                    a3@,
                    a4@,
                    a5@,
                    a6,
                    b0,
                    b1@,
                    b2@,
                    b3@,
                    b4@,
                    b5@,
                    b6,
                );
            }
        },
        MetaCommand::CreateIndex { schema_name: a0, table_name: a1, index_def_blob: a2 } => {
            assert(b is CreateIndex);
            if let MetaCommand::CreateIndex {
                schema_name: b0,
                table_name: b1,
                index_def_blob: b2,
            } = b {
                lemma_create_index(a0@, a1@, a2@, b0@, b1@, b2@);
            }
        },
        MetaCommand::CreatePartitionedIndex {
            schema: a0,
            name: a1,
            columns_blob: a2,
            if_not_exists: a3,
        } => {
            assert(b is CreatePartitionedIndex);
            if let MetaCommand::CreatePartitionedIndex {
                schema: b0,
                name: b1,
                columns_blob: b2,
                if_not_exists: b3,
            } = b {
                lemma_create_partitioned_index(a0@, a1@, a2@, a3, b0@, b1@, b2@, b3);
            }
        },
        MetaCommand::DropPartitionedIndex { schema: a0, name: a1 } => {
            assert(b is DropPartitionedIndex);
            if let MetaCommand::DropPartitionedIndex { schema: b0, name: b1 } = b {
                lemma_drop_partitioned_index(a0@, a1@, b0@, b1@);
            }
        },
        MetaCommand::CreateChunk { chunk_blob: a0 } => {
            assert(b is CreateChunk);
            if let MetaCommand::CreateChunk { chunk_blob: b0 } = b {
                lemma_create_chunk(a0@, b0@);
            }
        },
        MetaCommand::InsertChunks { chunks_blob: a0 } => {
            assert(b is InsertChunks);
            if let MetaCommand::InsertChunks { chunks_blob: b0 } = b {
                lemma_insert_chunks(a0@, b0@);
            }
        },
        MetaCommand::SwapCompactedChunks {
            partition_id: a0,
            old_chunk_ids: a1,
            new_chunk: a2,
            new_chunk_file_size: a3,
        } => {
            assert(b is SwapCompactedChunks);
            if let MetaCommand::SwapCompactedChunks {
                partition_id: b0,
                old_chunk_ids: b1,
                new_chunk: b2,
                new_chunk_file_size: b3,
            } = b {
                lemma_swap_compacted_chunks(a0, a1@, a2, a3, b0, b1@, b2, b3);
            }
        },
        MetaCommand::DeleteChunk { chunk_id: a0 } => {
            assert(b is DeleteChunk);
            if let MetaCommand::DeleteChunk { chunk_id: b0 } = b {
                lemma_delete_chunk(a0, b0);
            }
        },
        MetaCommand::DeleteChunksWithoutChecks { chunk_ids: a0 } => {
            assert(b is DeleteChunksWithoutChecks);
            if let MetaCommand::DeleteChunksWithoutChecks { chunk_ids: b0 } = b {
                lemma_delete_chunks_without_checks(a0@, b0@);
            }
        },
        MetaCommand::ChunkUploaded { chunk_id: a0 } => {
            assert(b is ChunkUploaded);
            if let MetaCommand::ChunkUploaded { chunk_id: b0 } = b {
                lemma_chunk_uploaded(a0, b0);
            }
        },
        MetaCommand::ChunkUpdateLastInserted { chunk_ids: a0, last_inserted_at_millis: a1 } => {
            assert(b is ChunkUpdateLastInserted);
            if let MetaCommand::ChunkUpdateLastInserted {
                chunk_ids: b0,
                last_inserted_at_millis: b1,
            } = b {
                lemma_chunk_update_last_inserted(a0@, a1, b0@, b1);
            }
        },
        MetaCommand::SwapChunks {
            deactivate_ids: a0,
            uploaded_ids_and_sizes: a1,
            new_replay_handle_id: a2,
        } => {
            assert(b is SwapChunks);
            if let MetaCommand::SwapChunks {
                deactivate_ids: b0,
                uploaded_ids_and_sizes: b1,
                new_replay_handle_id: b2,
            } = b {
                lemma_swap_chunks(a0@, a1@, a2, b0@, b1@, b2);
            }
        },
        MetaCommand::SwapChunksWithoutCheck {
            deactivate_ids: a0,
            uploaded_ids_and_sizes: a1,
            new_replay_handle_id: a2,
        } => {
            assert(b is SwapChunksWithoutCheck);
            if let MetaCommand::SwapChunksWithoutCheck {
                deactivate_ids: b0,
                uploaded_ids_and_sizes: b1,
                new_replay_handle_id: b2,
            } = b {
                lemma_swap_chunks_without_check(a0@, a1@, a2, b0@, b1@, b2);
            }
        },
        MetaCommand::ActivateChunks {
            table_id: a0,
            uploaded_chunk_ids: a1,
            replay_handle_id: a2,
        } => {
            assert(b is ActivateChunks);
            if let MetaCommand::ActivateChunks {
                table_id: b0,
                uploaded_chunk_ids: b1,
                replay_handle_id: b2,
            } = b {
                lemma_activate_chunks(a0, a1@, a2, b0, b1@, b2);
            }
        },
        MetaCommand::DeactivateChunk { chunk_id: a0, assigned_now_millis: a1 } => {
            assert(b is DeactivateChunk);
            if let MetaCommand::DeactivateChunk { chunk_id: b0, assigned_now_millis: b1 } = b {
                lemma_deactivate_chunk(a0, a1, b0, b1);
            }
        },
        MetaCommand::DeactivateChunks { chunk_ids: a0, assigned_now_millis: a1 } => {
            assert(b is DeactivateChunks);
            if let MetaCommand::DeactivateChunks { chunk_ids: b0, assigned_now_millis: b1 } = b {
                lemma_deactivate_chunks(a0@, a1, b0@, b1);
            }
        },
        MetaCommand::DeactivateChunksWithoutCheck { deactivate_ids: a0 } => {
            assert(b is DeactivateChunksWithoutCheck);
            if let MetaCommand::DeactivateChunksWithoutCheck { deactivate_ids: b0 } = b {
                lemma_deactivate_chunks_without_check(a0@, b0@);
            }
        },
        MetaCommand::CreateWal { table_id: a0, row_count: a1 } => {
            assert(b is CreateWal);
            if let MetaCommand::CreateWal { table_id: b0, row_count: b1 } = b {
                lemma_create_wal(a0, a1, b0, b1);
            }
        },
        MetaCommand::DeleteWal { wal_id: a0 } => {
            assert(b is DeleteWal);
            if let MetaCommand::DeleteWal { wal_id: b0 } = b {
                lemma_delete_wal(a0, b0);
            }
        },
        MetaCommand::WalUploaded { wal_id: a0 } => {
            assert(b is WalUploaded);
            if let MetaCommand::WalUploaded { wal_id: b0 } = b {
                lemma_wal_uploaded(a0, b0);
            }
        },
        MetaCommand::AddJob { job_blob: a0 } => {
            assert(b is AddJob);
            if let MetaCommand::AddJob { job_blob: b0 } = b {
                lemma_add_job(a0@, b0@);
            }
        },
        MetaCommand::DeleteJob { job_id: a0 } => {
            assert(b is DeleteJob);
            if let MetaCommand::DeleteJob { job_id: b0 } = b {
                lemma_delete_job(a0, b0);
            }
        },
        MetaCommand::DeleteAllJobs => {
            assert(b is DeleteAllJobs);
        },
        MetaCommand::StartProcessingJob {
            server_name: a0,
            long_term: a1,
            assigned_now_millis: a2,
        } => {
            assert(b is StartProcessingJob);
            if let MetaCommand::StartProcessingJob {
                server_name: b0,
                long_term: b1,
                assigned_now_millis: b2,
            } = b {
                lemma_start_processing_job(a0@, a1, a2, b0@, b1, b2);
            }
        },
        MetaCommand::UpdateStatus { job_id: a0, status_blob: a1, assigned_now_millis: a2 } => {
            assert(b is UpdateStatus);
            if let MetaCommand::UpdateStatus {
                job_id: b0,
                status_blob: b1,
                assigned_now_millis: b2,
            } = b {
                lemma_update_status(a0, a1@, a2, b0, b1@, b2);
            }
        },
        MetaCommand::UpdateHeartBeat { job_id: a0, assigned_now_millis: a1 } => {
            assert(b is UpdateHeartBeat);
            if let MetaCommand::UpdateHeartBeat { job_id: b0, assigned_now_millis: b1 } = b {
                lemma_update_heart_beat(a0, a1, b0, b1);
            }
        },
        MetaCommand::CreateOrUpdateSource { name: a0, credentials_blob: a1 } => {
            assert(b is CreateOrUpdateSource);
            if let MetaCommand::CreateOrUpdateSource { name: b0, credentials_blob: b1 } = b {
                lemma_create_or_update_source(a0@, a1@, b0@, b1@);
            }
        },
        MetaCommand::DeleteSource { id: a0 } => {
            assert(b is DeleteSource);
            if let MetaCommand::DeleteSource { id: b0 } = b {
                lemma_delete_source(a0, b0);
            }
        },
        MetaCommand::CreateReplayHandle {
            table_id: a0,
            location_index: a1,
            seq_pointer_blob: a2,
            assigned_now_millis: a3,
        } => {
            assert(b is CreateReplayHandle);
            if let MetaCommand::CreateReplayHandle {
                table_id: b0,
                location_index: b1,
                seq_pointer_blob: b2,
                assigned_now_millis: b3,
            } = b {
                lemma_create_replay_handle(a0, a1, a2@, a3, b0, b1, b2@, b3);
            }
        },
        MetaCommand::CreateReplayHandleFromSeqPointers {
            table_id: a0,
            seq_pointers_blob: a1,
            assigned_now_millis: a2,
        } => {
            assert(b is CreateReplayHandleFromSeqPointers);
            if let MetaCommand::CreateReplayHandleFromSeqPointers {
                table_id: b0,
                seq_pointers_blob: b1,
                assigned_now_millis: b2,
            } = b {
                lemma_create_replay_handle_from_seq_pointers(a0, a1@, a2, b0, b1@, b2);
            }
        },
        MetaCommand::UpdateReplayHandleFailedIfExists { id: a0, failed: a1 } => {
            assert(b is UpdateReplayHandleFailedIfExists);
            if let MetaCommand::UpdateReplayHandleFailedIfExists { id: b0, failed: b1 } = b {
                lemma_update_replay_handle_failed_if_exists(a0, a1, b0, b1);
            }
        },
        MetaCommand::ReplaceReplayHandles { old_ids: a0, new_seq_pointer_blob: a1 } => {
            assert(b is ReplaceReplayHandles);
            if let MetaCommand::ReplaceReplayHandles {
                old_ids: b0,
                new_seq_pointer_blob: b1,
            } = b {
                lemma_replace_replay_handles(a0@, a1@, b0@, b1@);
            }
        },
        MetaCommand::SetCurrentSnapshot { snapshot_id_low: a0, snapshot_id_high: a1 } => {
            assert(b is SetCurrentSnapshot);
            if let MetaCommand::SetCurrentSnapshot {
                snapshot_id_low: b0,
                snapshot_id_high: b1,
            } = b {
                lemma_set_current_snapshot(a0, a1, b0, b1);
            }
        },
        MetaCommand::AcquirePartitionedLock { payload_version: a0, payload: a1 } => {
            assert(b is AcquirePartitionedLock);
            if let MetaCommand::AcquirePartitionedLock { payload_version: b0, payload: b1 } = b {
                lemma_acquire_partitioned_lock(a0, a1@, b0, b1@);
            }
        },
        MetaCommand::ReleasePartitionedLock { payload_version: a0, payload: a1 } => {
            assert(b is ReleasePartitionedLock);
            if let MetaCommand::ReleasePartitionedLock { payload_version: b0, payload: b1 } = b {
                lemma_release_partitioned_lock(a0, a1@, b0, b1@);
            }
        },
        MetaCommand::Batch { commands: a0 } => {
            assert(b is Batch);
            if let MetaCommand::Batch { commands: b0 } = b {
                let x = codec::fields_in(a.value());
                let y = codec::fields_in(b.value());
                assert(x[0] == ("commands"@, Flex::Vector(codec::commands_value(a0@))));
                assert(y[0] == ("commands"@, Flex::Vector(codec::commands_value(b0@))));
                let (p, q) = (codec::commands_value(a0@), codec::commands_value(b0@));
                assert(p.len() == a0@.len() && q.len() == b0@.len());
                assert forall|i: int| #![trigger a0@[i]] 0 <= i < a0@.len() implies same_command(
                    a0@[i],
                    b0@[i],
                ) by {
                    assert(p[i] == a0@[i].value() && q[i] == b0@[i].value());
                    law_value_is_faithful(a0@[i], b0@[i]);
                }
            }
        },
        MetaCommand::Generic { method: a0, body: a1 } => {
            assert(b is Generic);
            if let MetaCommand::Generic { method: b0, body: b1 } = b {
                lemma_generic(a0@, a1@, b0@, b1@);
            }
        },
    }
}

/// The name of a command on the wire, and the names of its fields, in order.
pub open spec fn names_of(c: MetaCommand) -> (Seq<char>, Seq<Seq<char>>) {
    match c {
        MetaCommand::CreateSchema { .. } => (
            "CreateSchema"@,
            seq!["schema_name"@, "if_not_exists"@],
        ),
        MetaCommand::RenameSchema { .. } => (
            "RenameSchema"@,
            seq!["old_schema_name"@, "new_schema_name"@],
        ),
        MetaCommand::RenameSchemaById { .. } => (
            "RenameSchemaById"@,
            seq!["schema_id"@, "new_schema_name"@],
        ),
        MetaCommand::DeleteSchema { .. } => ("DeleteSchema"@, seq!["schema_name"@]),
        MetaCommand::DeleteSchemaById { .. } => ("DeleteSchemaById"@, seq!["schema_id"@]),
        MetaCommand::CreateTable { .. } => (
            "CreateTable"@,
            seq!["schema_name"@, "table_name"@, "payload_version"@, "payload"@],
        ),
        MetaCommand::CreateTableStructured { .. } => (
            "CreateTableStructured"@,
            seq![
                "schema_name"@,
                "table_name"@,
                "columns_blob"@,
                "locations"@,
                "import_format_blob"@,
                "indexes_blob"@,
                "is_ready"@,
                "build_range_end_millis"@,
                "seal_at_millis"@,
                "select_statement"@,
                "source_columns_blob"@,
                "stream_offset_blob"@,
                "unique_key_column_names"@,
                "aggregates"@,
                "partition_split_threshold"@,
                "trace_obj"@,
                "drop_if_exists"@,
                "extension"@,
                "assigned_now_millis"@,
            ],
        ),
        MetaCommand::DropTable { .. } => ("DropTable"@, seq!["table_id"@]),
        MetaCommand::SealTable { .. } => ("SealTable"@, seq!["table_id"@]),
        MetaCommand::UpdateLocationDownloadSize { .. } => (
            "UpdateLocationDownloadSize"@,
            seq!["table_id"@, "location"@, "download_size"@],
        ),
        MetaCommand::TableReady { .. } => ("TableReady"@, seq!["table_id"@, "is_ready"@]),
        MetaCommand::CreatePartition { .. } => ("CreatePartition"@, seq!["partition_blob"@]),
        MetaCommand::DeletePartition { .. } => ("DeletePartition"@, seq!["partition_id"@]),
        MetaCommand::MarkPartitionWarmedUp { .. } => (
            "MarkPartitionWarmedUp"@,
            seq!["partition_id"@],
        ),
        MetaCommand::DeleteMiddleManPartition { .. } => (
            "DeleteMiddleManPartition"@,
            seq!["partition_id"@],
        ),
        MetaCommand::SwapActivePartitions { .. } => (
            "SwapActivePartitions"@,
            seq!["payload_version"@, "payload"@],
        ),
        MetaCommand::SwapActivePartitionsStructured { .. } => (
            "SwapActivePartitionsStructured"@,
            seq!["current_active_blob"@, "new_active_blob"@, "new_active_min_max_blob"@],
        ),
        MetaCommand::CreateMultiPartition { .. } => (
            "CreateMultiPartition"@,
            seq!["multi_partition_blob"@],
        ),
        MetaCommand::CommitMultiPartitionSplit { .. } => (
            "CommitMultiPartitionSplit"@,
            seq![
                "multi_partition_id"@,
                "new_multi_partitions"@,
                "new_multi_partition_rows"@,
                "old_partitions_blob"@,
                "new_partitions_blob"@,
                "new_partition_rows"@,
                "initial_split"@,
            ],
        ),
        MetaCommand::CreateIndex { .. } => (
            "CreateIndex"@,
            seq!["schema_name"@, "table_name"@, "index_def_blob"@],
        ),
        MetaCommand::CreatePartitionedIndex { .. } => (
            "CreatePartitionedIndex"@,
            seq!["schema"@, "name"@, "columns_blob"@, "if_not_exists"@],
        ),
        MetaCommand::DropPartitionedIndex { .. } => (
            "DropPartitionedIndex"@,
            seq!["schema"@, "name"@],
        ),
        MetaCommand::CreateChunk { .. } => ("CreateChunk"@, seq!["chunk_blob"@]),
        MetaCommand::InsertChunks { .. } => ("InsertChunks"@, seq!["chunks_blob"@]),
        MetaCommand::SwapCompactedChunks { .. } => (
            "SwapCompactedChunks"@,
            seq!["partition_id"@, "old_chunk_ids"@, "new_chunk"@, "new_chunk_file_size"@],
        ),
        MetaCommand::DeleteChunk { .. } => ("DeleteChunk"@, seq!["chunk_id"@]),
        MetaCommand::DeleteChunksWithoutChecks { .. } => (
            "DeleteChunksWithoutChecks"@,
            seq!["chunk_ids"@],
        ),
        MetaCommand::ChunkUploaded { .. } => ("ChunkUploaded"@, seq!["chunk_id"@]),
        MetaCommand::ChunkUpdateLastInserted { .. } => (
            "ChunkUpdateLastInserted"@,
            seq!["chunk_ids"@, "last_inserted_at_millis"@],
        ),
        MetaCommand::SwapChunks { .. } => (
            "SwapChunks"@,
            seq!["deactivate_ids"@, "uploaded_ids_and_sizes"@, "new_replay_handle_id"@],
        ),
        MetaCommand::SwapChunksWithoutCheck { .. } => (
            "SwapChunksWithoutCheck"@,
            seq!["deactivate_ids"@, "uploaded_ids_and_sizes"@, "new_replay_handle_id"@],
        ),
        MetaCommand::ActivateChunks { .. } => (
            "ActivateChunks"@,
            seq!["table_id"@, "uploaded_chunk_ids"@, "replay_handle_id"@],
        ),
        MetaCommand::DeactivateChunk { .. } => (
            "DeactivateChunk"@,
            seq!["chunk_id"@, "assigned_now_millis"@],
        ),
        MetaCommand::DeactivateChunks { .. } => (
            "DeactivateChunks"@,
            seq!["chunk_ids"@, "assigned_now_millis"@],
        ),
        MetaCommand::DeactivateChunksWithoutCheck { .. } => (
            "DeactivateChunksWithoutCheck"@,
            seq!["deactivate_ids"@],
        ),
        MetaCommand::CreateWal { .. } => ("CreateWal"@, seq!["table_id"@, "row_count"@]),
        MetaCommand::DeleteWal { .. } => ("DeleteWal"@, seq!["wal_id"@]),
        MetaCommand::WalUploaded { .. } => ("WalUploaded"@, seq!["wal_id"@]),
        MetaCommand::AddJob { .. } => ("AddJob"@, seq!["job_blob"@]),
        MetaCommand::DeleteJob { .. } => ("DeleteJob"@, seq!["job_id"@]),
        MetaCommand::DeleteAllJobs => ("DeleteAllJobs"@, seq![]),
        MetaCommand::StartProcessingJob { .. } => (
            "StartProcessingJob"@,
            seq!["server_name"@, "long_term"@, "assigned_now_millis"@],
        ),
        MetaCommand::UpdateStatus { .. } => (
            "UpdateStatus"@,
            seq!["job_id"@, "status_blob"@, "assigned_now_millis"@],
        ),
        MetaCommand::UpdateHeartBeat { .. } => (
            "UpdateHeartBeat"@,
            seq!["job_id"@, "assigned_now_millis"@],
        ),
        MetaCommand::CreateOrUpdateSource { .. } => (
            "CreateOrUpdateSource"@,
            seq!["name"@, "credentials_blob"@],
        ),
        MetaCommand::DeleteSource { .. } => ("DeleteSource"@, seq!["id"@]),
        MetaCommand::CreateReplayHandle { .. } => (
            "CreateReplayHandle"@,
            seq!["table_id"@, "location_index"@, "seq_pointer_blob"@, "assigned_now_millis"@],
        ),
        MetaCommand::CreateReplayHandleFromSeqPointers { .. } => (
            "CreateReplayHandleFromSeqPointers"@,
            seq!["table_id"@, "seq_pointers_blob"@, "assigned_now_millis"@],
        ),
        MetaCommand::UpdateReplayHandleFailedIfExists { .. } => (
            "UpdateReplayHandleFailedIfExists"@,
            seq!["id"@, "failed"@],
        ),
        MetaCommand::ReplaceReplayHandles { .. } => (
            "ReplaceReplayHandles"@,
            seq!["old_ids"@, "new_seq_pointer_blob"@],
        ),
        MetaCommand::SetCurrentSnapshot { .. } => (
            "SetCurrentSnapshot"@,
            seq!["snapshot_id_low"@, "snapshot_id_high"@],
        ),
        MetaCommand::AcquirePartitionedLock { .. } => (
            "AcquirePartitionedLock"@,
            seq!["payload_version"@, "payload"@],
        ),
        MetaCommand::ReleasePartitionedLock { .. } => (
            "ReleasePartitionedLock"@,
            seq!["payload_version"@, "payload"@],
        ),
        MetaCommand::Batch { .. } => ("Batch"@, seq!["commands"@]),
        MetaCommand::Generic { .. } => ("Generic"@, seq!["method"@, "body"@]),
    }
}

/// A command stands on the wire under the name of its variant, with its fields in order,
/// each under its own name; one without fields is its name alone.
#[verifier::rlimit(60)]
#[verifier::spinoff_prover]
pub proof fn law_names_on_the_wire(c: MetaCommand)
    ensures
        match c.value() {
            Flex::Text(name) => names_of(c) == (name, Seq::<Seq<char>>::empty()),
            Flex::Record(whole) => {
                &&& whole.len() == 1
                &&& whole[0].0 == names_of(c).0
                &&& whole[0].1 matches Flex::Record(fields) && fields.map_values(
                    |f: (Seq<char>, Flex)| f.0,
                ) == names_of(c).1 && fields.len() > 0
            },
            _ => false,
        },
{
    reveal(MetaCommand::value);
    let names = codec::fields_in(c.value()).map_values(|f: (Seq<char>, Flex)| f.0);
    if !(c is DeleteAllJobs) {
        assert(names =~= names_of(c).1);
    }
}

/// Commands that hold nothing but numbers and flags are the same only if they are equal.
pub proof fn law_same_numbers(a: MetaCommand, b: MetaCommand)
    requires
        same_command(a, b),
        a is DeleteSchemaById
            || a is DropTable
            || a is SealTable
            || a is TableReady
            || a is DeletePartition
            || a is MarkPartitionWarmedUp
            || a is DeleteMiddleManPartition
            || a is DeleteChunk
            || a is ChunkUploaded
            || a is DeactivateChunk
            || a is CreateWal
            || a is DeleteWal
            || a is WalUploaded
            || a is DeleteJob
            || a is UpdateHeartBeat
            || a is DeleteSource
            || a is UpdateReplayHandleFailedIfExists
            || a is SetCurrentSnapshot,
    ensures
        a == b,
{
}

/// Decoding an encoded command gives that command. (The contract of encoding says as what
/// the bytes are decoded.)
pub proof fn law_decoded_command(command: MetaCommand, bytes: Seq<u8>, got: MetaCommand)
    requires
        command::decoded(bytes) == command::Decoded::Command(command.value()),
        command::decodes_as(bytes, Ok(got)),
    ensures
        same_command(command, got),
{
    law_value_is_faithful(command, got);
}

/// Encoding tells commands apart: it gives the same bytes for two commands exactly if they
/// are the same, and never none.
pub proof fn law_encoding_is_injective(
    a: MetaCommand,
    x: Vec<u8>,
    b: MetaCommand,
    y: Vec<u8>,
)
    requires
        command::encoded(command::META_COMMAND_VERSION, a, Ok(x)),
        command::encoded(command::META_COMMAND_VERSION, b, Ok(y)),
    ensures
        x@.len() > 0,
        x@ == y@ <==> a.value() == b.value(),
        x@ == y@ ==> same_command(a, b),
{
    if x@ == y@ {
        law_value_is_faithful(a, b);
    }
}

} // verus!
