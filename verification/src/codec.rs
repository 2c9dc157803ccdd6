//! How each command is written as a record and read back from one.
//!
//! A command is a record of one entry: the name of its variant, and under it a
//! record of its fields in the order of their declaration. A variant without
//! fields is its name alone.

use crate::command::MetaCommand;
#[allow(unused_imports)]
use crate::flex;
#[allow(unused_imports)]
use crate::flex::{Flex, FlexFrame};
use crate::flex::{
    flex_begin_record, flex_begin_vector, flex_end_record, flex_end_vector, flex_write_key,
    flex_write_str, FlexKind, FlexReader,
};
use crate::text::same_text;
#[allow(unused_imports)]
use crate::wire;
use crate::wire::{
    bool_field, bytes_field, find_field, i64_field, id_sizes_field, opt_bytes_field,
    opt_i64_field, opt_pairs_field, opt_text_field, opt_texts_field, opt_u64_field, put_bool,
    put_bytes, put_i64, put_id_sizes, put_opt_bytes, put_opt_i64, put_opt_pairs, put_opt_text,
    put_opt_texts, put_opt_u64, put_text, put_u64, put_u64s, text_field, u16_field, u64_field,
    u64s_field, Field,
};
use flexbuffers::{FlexbufferSerializer, SerializationError};
use vstd::prelude::*;

verus! {

/// A variant with its fields.
pub open spec fn tagged(name: Seq<char>, fields: Seq<(Seq<char>, Flex)>) -> Flex {
    Flex::Record(seq![(name, Flex::Record(fields))])
}

/// The fields of a tagged value.
pub open spec fn fields_in(v: Flex) -> Seq<(Seq<char>, Flex)> {
    v->Record_0[0].1->Record_0
}

/// A number that no two of the names used here share.
pub open spec fn name_code(s: Seq<char>) -> int {
    let front = (s.len() * 128 + s[0] as int) * 128 + s[s.len() as int / 2] as int;
    front * 128 + s[s.len() - 1] as int
}

impl MetaCommand {
    /// The value of a command on the wire.
    #[verifier::opaque]
    pub open spec fn value(self) -> Flex
        decreases self,
    {
        match self {
            MetaCommand::CreateSchema { schema_name, if_not_exists } => create_schema_value(
                schema_name@,
                if_not_exists,
            ),
            MetaCommand::RenameSchema { old_schema_name, new_schema_name } => rename_schema_value(
                old_schema_name@,
                new_schema_name@,
            ),
            MetaCommand::RenameSchemaById { schema_id, new_schema_name } =>
                rename_schema_by_id_value(schema_id, new_schema_name@),
            MetaCommand::DeleteSchema { schema_name } => delete_schema_value(schema_name@),
            MetaCommand::DeleteSchemaById { schema_id } => delete_schema_by_id_value(schema_id),
            MetaCommand::CreateTable { schema_name, table_name, payload_version, payload } =>
                create_table_value(schema_name@, table_name@, payload_version, payload@),
            MetaCommand::CreateTableStructured {
                schema_name,
                table_name,
                columns_blob,
                locations,
                import_format_blob,
                indexes_blob,
                is_ready,
                build_range_end_millis,
                seal_at_millis,
                select_statement,
                source_columns_blob,
                stream_offset_blob,
                unique_key_column_names,
                aggregates,
                partition_split_threshold,
                trace_obj,
                drop_if_exists,
                extension,
                assigned_now_millis,
            } => create_table_structured_value(
                schema_name@,
                table_name@,
                columns_blob@,
                wire::opt_texts_view(locations),
                wire::opt_bytes_view(import_format_blob),
                indexes_blob@,
                is_ready,
                build_range_end_millis,
                seal_at_millis,
                wire::opt_text_view(select_statement),
                wire::opt_bytes_view(source_columns_blob),
                wire::opt_bytes_view(stream_offset_blob),
                wire::opt_texts_view(unique_key_column_names),
                wire::opt_pairs_view(aggregates),
                partition_split_threshold,
                wire::opt_text_view(trace_obj),
                drop_if_exists,
                wire::opt_text_view(extension),
                assigned_now_millis,
            ),
            MetaCommand::DropTable { table_id } => drop_table_value(table_id),
            MetaCommand::SealTable { table_id } => seal_table_value(table_id),
            MetaCommand::UpdateLocationDownloadSize { table_id, location, download_size } =>
                update_location_download_size_value(table_id, location@, download_size),
            MetaCommand::TableReady { table_id, is_ready } => table_ready_value(table_id, is_ready),
            MetaCommand::CreatePartition { partition_blob } => create_partition_value(
                partition_blob@,
            ),
            MetaCommand::DeletePartition { partition_id } => delete_partition_value(partition_id),
            MetaCommand::MarkPartitionWarmedUp { partition_id } => mark_partition_warmed_up_value(
                partition_id,
            ),
            MetaCommand::DeleteMiddleManPartition { partition_id } =>
                delete_middle_man_partition_value(partition_id),
            MetaCommand::SwapActivePartitions { payload_version, payload } =>
                swap_active_partitions_value(payload_version, payload@),
            MetaCommand::SwapActivePartitionsStructured {
                current_active_blob,
                new_active_blob,
                new_active_min_max_blob,
            } => swap_active_partitions_structured_value(
                current_active_blob@,
                new_active_blob@,
                new_active_min_max_blob@,
            ),
            MetaCommand::CreateMultiPartition { multi_partition_blob } =>
                create_multi_partition_value(multi_partition_blob@),
            MetaCommand::CommitMultiPartitionSplit {
                multi_partition_id,
                new_multi_partitions,
                new_multi_partition_rows,
                old_partitions_blob,
                new_partitions_blob,
                new_partition_rows,
                initial_split,
            } => commit_multi_partition_split_value(
                multi_partition_id,
                new_multi_partitions@,
                new_multi_partition_rows@,
                old_partitions_blob@,
                new_partitions_blob@,
                new_partition_rows@,
                initial_split,
            ),
            MetaCommand::CreateIndex { schema_name, table_name, index_def_blob } =>
                create_index_value(schema_name@, table_name@, index_def_blob@),
            MetaCommand::CreatePartitionedIndex { schema, name, columns_blob, if_not_exists } =>
                create_partitioned_index_value(schema@, name@, columns_blob@, if_not_exists),
            MetaCommand::DropPartitionedIndex { schema, name } => drop_partitioned_index_value(
                schema@,
                name@,
            ),
            MetaCommand::CreateChunk { chunk_blob } => create_chunk_value(chunk_blob@),
            MetaCommand::InsertChunks { chunks_blob } => insert_chunks_value(chunks_blob@),
            MetaCommand::SwapCompactedChunks {
                partition_id,
                old_chunk_ids,
                new_chunk,
                new_chunk_file_size,
            } => swap_compacted_chunks_value(
                partition_id,
                old_chunk_ids@,
                new_chunk,
                new_chunk_file_size,
            ),
            MetaCommand::DeleteChunk { chunk_id } => delete_chunk_value(chunk_id),
            MetaCommand::DeleteChunksWithoutChecks { chunk_ids } =>
                delete_chunks_without_checks_value(chunk_ids@),
            MetaCommand::ChunkUploaded { chunk_id } => chunk_uploaded_value(chunk_id),
            MetaCommand::ChunkUpdateLastInserted { chunk_ids, last_inserted_at_millis } =>
                chunk_update_last_inserted_value(chunk_ids@, last_inserted_at_millis),
            MetaCommand::SwapChunks {
                deactivate_ids,
                uploaded_ids_and_sizes,
                new_replay_handle_id,
            } => swap_chunks_value(deactivate_ids@, uploaded_ids_and_sizes@, new_replay_handle_id),
            MetaCommand::SwapChunksWithoutCheck {
                deactivate_ids,
                uploaded_ids_and_sizes,
                new_replay_handle_id,
            } => swap_chunks_without_check_value(
                deactivate_ids@,
                uploaded_ids_and_sizes@,
                new_replay_handle_id,
            ),
            MetaCommand::ActivateChunks { table_id, uploaded_chunk_ids, replay_handle_id } =>
                activate_chunks_value(table_id, uploaded_chunk_ids@, replay_handle_id),
            MetaCommand::DeactivateChunk { chunk_id, assigned_now_millis } =>
                deactivate_chunk_value(chunk_id, assigned_now_millis),
            MetaCommand::DeactivateChunks { chunk_ids, assigned_now_millis } =>
                deactivate_chunks_value(chunk_ids@, assigned_now_millis),
            MetaCommand::DeactivateChunksWithoutCheck { deactivate_ids } =>
                deactivate_chunks_without_check_value(deactivate_ids@),
            MetaCommand::CreateWal { table_id, row_count } => create_wal_value(table_id, row_count),
            MetaCommand::DeleteWal { wal_id } => delete_wal_value(wal_id),
            MetaCommand::WalUploaded { wal_id } => wal_uploaded_value(wal_id),
            MetaCommand::AddJob { job_blob } => add_job_value(job_blob@),
            MetaCommand::DeleteJob { job_id } => delete_job_value(job_id),
            MetaCommand::DeleteAllJobs => Flex::Text("DeleteAllJobs"@),
            MetaCommand::StartProcessingJob { server_name, long_term, assigned_now_millis } =>
                start_processing_job_value(server_name@, long_term, assigned_now_millis),
            MetaCommand::UpdateStatus { job_id, status_blob, assigned_now_millis } =>
                update_status_value(job_id, status_blob@, assigned_now_millis),
            MetaCommand::UpdateHeartBeat { job_id, assigned_now_millis } => update_heart_beat_value(
                job_id,
                assigned_now_millis,
            ),
            MetaCommand::CreateOrUpdateSource { name, credentials_blob } =>
                create_or_update_source_value(name@, credentials_blob@),
            MetaCommand::DeleteSource { id } => delete_source_value(id),
            MetaCommand::CreateReplayHandle {
                table_id,
                location_index,
                seq_pointer_blob,
                assigned_now_millis,
            } => create_replay_handle_value(
                table_id,
                location_index,
                seq_pointer_blob@,
                assigned_now_millis,
            ),
            MetaCommand::CreateReplayHandleFromSeqPointers {
                table_id,
                seq_pointers_blob,
                assigned_now_millis,
            } => create_replay_handle_from_seq_pointers_value(
                table_id,
                seq_pointers_blob@,
                assigned_now_millis,
            ),
            MetaCommand::UpdateReplayHandleFailedIfExists { id, failed } =>
                update_replay_handle_failed_if_exists_value(id, failed),
            MetaCommand::ReplaceReplayHandles { old_ids, new_seq_pointer_blob } =>
                replace_replay_handles_value(old_ids@, new_seq_pointer_blob@),
            MetaCommand::SetCurrentSnapshot { snapshot_id_low, snapshot_id_high } =>
                set_current_snapshot_value(snapshot_id_low, snapshot_id_high),
            MetaCommand::AcquirePartitionedLock { payload_version, payload } =>
                acquire_partitioned_lock_value(payload_version, payload@),
            MetaCommand::ReleasePartitionedLock { payload_version, payload } =>
                release_partitioned_lock_value(payload_version, payload@),
            MetaCommand::Batch { commands } => tagged(
                "Batch"@,
                seq![("commands"@, Flex::Vector(commands_value(commands@)))],
            ),
            MetaCommand::Generic { method, body } => generic_value(method@, body@),
        }
    }
}

/// The values of several commands.
pub open spec fn commands_value(commands: Seq<MetaCommand>) -> Seq<Flex>
    decreases commands,
{
    Seq::new(
        commands.len(),
        |i: int|
            if 0 <= i < commands.len() {
                commands[i].value()
            } else {
                Flex::Null
            },
    )
}

// ---------------------------------------------------------------------------
// The value of each variant
// ---------------------------------------------------------------------------

pub open spec fn create_schema_value(schema_name: Seq<char>, if_not_exists: bool) -> Flex {
    tagged(
        "CreateSchema"@,
        seq![
            ("schema_name"@, Flex::Text(schema_name)),
            ("if_not_exists"@, Flex::Bool(if_not_exists)),
        ],
    )
}

pub open spec fn rename_schema_value(
    old_schema_name: Seq<char>,
    new_schema_name: Seq<char>,
) -> Flex {
    tagged(
        "RenameSchema"@,
        seq![
            ("old_schema_name"@, Flex::Text(old_schema_name)),
            ("new_schema_name"@, Flex::Text(new_schema_name)),
        ],
    )
}

pub open spec fn rename_schema_by_id_value(schema_id: u64, new_schema_name: Seq<char>) -> Flex {
    tagged(
        "RenameSchemaById"@,
        seq![
            ("schema_id"@, Flex::UInt(schema_id)),
            ("new_schema_name"@, Flex::Text(new_schema_name)),
        ],
    )
}

pub open spec fn delete_schema_value(schema_name: Seq<char>) -> Flex {
    tagged(
        "DeleteSchema"@,
        seq![
            ("schema_name"@, Flex::Text(schema_name)),
        ],
    )
}

pub open spec fn delete_schema_by_id_value(schema_id: u64) -> Flex {
    tagged(
        "DeleteSchemaById"@,
        seq![
            ("schema_id"@, Flex::UInt(schema_id)),
        ],
    )
}

pub open spec fn create_table_value(
    schema_name: Seq<char>,
    table_name: Seq<char>,
    payload_version: u16,
    payload: Seq<u8>,
) -> Flex {
    tagged(
        "CreateTable"@,
        seq![
            ("schema_name"@, Flex::Text(schema_name)),
            ("table_name"@, Flex::Text(table_name)),
            ("payload_version"@, Flex::UInt(payload_version as u64)),
            ("payload"@, wire::bytes_value(payload)),
        ],
    )
}

pub open spec fn create_table_structured_value(
    schema_name: Seq<char>,
    table_name: Seq<char>,
    columns_blob: Seq<u8>,
    locations: Option<Seq<Seq<char>>>,
    import_format_blob: Option<Seq<u8>>,
    indexes_blob: Seq<u8>,
    is_ready: bool,
    build_range_end_millis: Option<i64>,
    seal_at_millis: Option<i64>,
    select_statement: Option<Seq<char>>,
    source_columns_blob: Option<Seq<u8>>,
    stream_offset_blob: Option<Seq<u8>>,
    unique_key_column_names: Option<Seq<Seq<char>>>,
    aggregates: Option<Seq<(Seq<char>, Seq<char>)>>,
    partition_split_threshold: Option<u64>,
    trace_obj: Option<Seq<char>>,
    drop_if_exists: bool,
    extension: Option<Seq<char>>,
    assigned_now_millis: i64,
) -> Flex {
    tagged(
        "CreateTableStructured"@,
        seq![
            ("schema_name"@, Flex::Text(schema_name)),
            ("table_name"@, Flex::Text(table_name)),
            ("columns_blob"@, wire::bytes_value(columns_blob)),
            ("locations"@, wire::opt_texts_value(locations)),
            ("import_format_blob"@, wire::opt_bytes_value(import_format_blob)),
            ("indexes_blob"@, wire::bytes_value(indexes_blob)),
            ("is_ready"@, Flex::Bool(is_ready)),
            ("build_range_end_millis"@, wire::opt_i64_value(build_range_end_millis)),
            ("seal_at_millis"@, wire::opt_i64_value(seal_at_millis)),
            ("select_statement"@, wire::opt_text_value(select_statement)),
            ("source_columns_blob"@, wire::opt_bytes_value(source_columns_blob)),
            ("stream_offset_blob"@, wire::opt_bytes_value(stream_offset_blob)),
            ("unique_key_column_names"@, wire::opt_texts_value(unique_key_column_names)),
            ("aggregates"@, wire::opt_pairs_value(aggregates)),
            ("partition_split_threshold"@, wire::opt_u64_value(partition_split_threshold)),
            ("trace_obj"@, wire::opt_text_value(trace_obj)),
            ("drop_if_exists"@, Flex::Bool(drop_if_exists)),
            ("extension"@, wire::opt_text_value(extension)),
            ("assigned_now_millis"@, Flex::Int(assigned_now_millis)),
        ],
    )
}

pub open spec fn drop_table_value(table_id: u64) -> Flex {
    tagged(
        "DropTable"@,
        seq![
            ("table_id"@, Flex::UInt(table_id)),
        ],
    )
}

pub open spec fn seal_table_value(table_id: u64) -> Flex {
    tagged(
        "SealTable"@,
        seq![
            ("table_id"@, Flex::UInt(table_id)),
        ],
    )
}

pub open spec fn update_location_download_size_value(
    table_id: u64,
    location: Seq<char>,
    download_size: u64,
) -> Flex {
    tagged(
        "UpdateLocationDownloadSize"@,
        seq![
            ("table_id"@, Flex::UInt(table_id)),
            ("location"@, Flex::Text(location)),
            ("download_size"@, Flex::UInt(download_size)),
        ],
    )
}

pub open spec fn table_ready_value(table_id: u64, is_ready: bool) -> Flex {
    tagged(
        "TableReady"@,
        seq![
            ("table_id"@, Flex::UInt(table_id)),
            ("is_ready"@, Flex::Bool(is_ready)),
        ],
    )
}

pub open spec fn create_partition_value(partition_blob: Seq<u8>) -> Flex {
    tagged(
        "CreatePartition"@,
        seq![
            ("partition_blob"@, wire::bytes_value(partition_blob)),
        ],
    )
}

pub open spec fn delete_partition_value(partition_id: u64) -> Flex {
    tagged(
        "DeletePartition"@,
        seq![
            ("partition_id"@, Flex::UInt(partition_id)),
        ],
    )
}

pub open spec fn mark_partition_warmed_up_value(partition_id: u64) -> Flex {
    tagged(
        "MarkPartitionWarmedUp"@,
        seq![
            ("partition_id"@, Flex::UInt(partition_id)),
        ],
    )
}

pub open spec fn delete_middle_man_partition_value(partition_id: u64) -> Flex {
    tagged(
        "DeleteMiddleManPartition"@,
        seq![
            ("partition_id"@, Flex::UInt(partition_id)),
        ],
    )
}

pub open spec fn swap_active_partitions_value(payload_version: u16, payload: Seq<u8>) -> Flex {
    tagged(
        "SwapActivePartitions"@,
        seq![
            ("payload_version"@, Flex::UInt(payload_version as u64)),
            ("payload"@, wire::bytes_value(payload)),
        ],
    )
}

pub open spec fn swap_active_partitions_structured_value(
    current_active_blob: Seq<u8>,
    new_active_blob: Seq<u8>,
    new_active_min_max_blob: Seq<u8>,
) -> Flex {
    tagged(
        "SwapActivePartitionsStructured"@,
        seq![
            ("current_active_blob"@, wire::bytes_value(current_active_blob)),
            ("new_active_blob"@, wire::bytes_value(new_active_blob)),
            ("new_active_min_max_blob"@, wire::bytes_value(new_active_min_max_blob)),
        ],
    )
}

pub open spec fn create_multi_partition_value(multi_partition_blob: Seq<u8>) -> Flex {
    tagged(
        "CreateMultiPartition"@,
        seq![
            ("multi_partition_blob"@, wire::bytes_value(multi_partition_blob)),
        ],
    )
}

pub open spec fn commit_multi_partition_split_value(
    multi_partition_id: u64,
    new_multi_partitions: Seq<u64>,
    new_multi_partition_rows: Seq<u64>,
    old_partitions_blob: Seq<u8>,
    new_partitions_blob: Seq<u8>,
    new_partition_rows: Seq<u64>,
    initial_split: bool,
) -> Flex {
    tagged(
        "CommitMultiPartitionSplit"@,
        seq![
            ("multi_partition_id"@, Flex::UInt(multi_partition_id)),
            ("new_multi_partitions"@, wire::u64s_value(new_multi_partitions)),
            ("new_multi_partition_rows"@, wire::u64s_value(new_multi_partition_rows)),
            ("old_partitions_blob"@, wire::bytes_value(old_partitions_blob)),
            ("new_partitions_blob"@, wire::bytes_value(new_partitions_blob)),
            ("new_partition_rows"@, wire::u64s_value(new_partition_rows)),
            ("initial_split"@, Flex::Bool(initial_split)),
        ],
    )
}

pub open spec fn create_index_value(
    schema_name: Seq<char>,
    table_name: Seq<char>,
    index_def_blob: Seq<u8>,
) -> Flex {
    tagged(
        "CreateIndex"@,
        seq![
            ("schema_name"@, Flex::Text(schema_name)),
            ("table_name"@, Flex::Text(table_name)),
            ("index_def_blob"@, wire::bytes_value(index_def_blob)),
        ],
    )
}

pub open spec fn create_partitioned_index_value(
    schema: Seq<char>,
    name: Seq<char>,
    columns_blob: Seq<u8>,
    if_not_exists: bool,
) -> Flex {
    tagged(
        "CreatePartitionedIndex"@,
        seq![
            ("schema"@, Flex::Text(schema)),
            ("name"@, Flex::Text(name)),
            ("columns_blob"@, wire::bytes_value(columns_blob)),
            ("if_not_exists"@, Flex::Bool(if_not_exists)),
        ],
    )
}

pub open spec fn drop_partitioned_index_value(schema: Seq<char>, name: Seq<char>) -> Flex {
    tagged(
        "DropPartitionedIndex"@,
        seq![
            ("schema"@, Flex::Text(schema)),
            ("name"@, Flex::Text(name)),
        ],
    )
}

pub open spec fn create_chunk_value(chunk_blob: Seq<u8>) -> Flex {
    tagged(
        "CreateChunk"@,
        seq![
            ("chunk_blob"@, wire::bytes_value(chunk_blob)),
        ],
    )
}

pub open spec fn insert_chunks_value(chunks_blob: Seq<u8>) -> Flex {
    tagged(
        "InsertChunks"@,
        seq![
            ("chunks_blob"@, wire::bytes_value(chunks_blob)),
        ],
    )
}

pub open spec fn swap_compacted_chunks_value(
    partition_id: u64,
    old_chunk_ids: Seq<u64>,
    new_chunk: u64,
    new_chunk_file_size: u64,
) -> Flex {
    tagged(
        "SwapCompactedChunks"@,
        seq![
            ("partition_id"@, Flex::UInt(partition_id)),
            ("old_chunk_ids"@, wire::u64s_value(old_chunk_ids)),
            ("new_chunk"@, Flex::UInt(new_chunk)),
            ("new_chunk_file_size"@, Flex::UInt(new_chunk_file_size)),
        ],
    )
}

pub open spec fn delete_chunk_value(chunk_id: u64) -> Flex {
    tagged(
        "DeleteChunk"@,
        seq![
            ("chunk_id"@, Flex::UInt(chunk_id)),
        ],
    )
}

pub open spec fn delete_chunks_without_checks_value(chunk_ids: Seq<u64>) -> Flex {
    tagged(
        "DeleteChunksWithoutChecks"@,
        seq![
            ("chunk_ids"@, wire::u64s_value(chunk_ids)),
        ],
    )
}

pub open spec fn chunk_uploaded_value(chunk_id: u64) -> Flex {
    tagged(
        "ChunkUploaded"@,
        seq![
            ("chunk_id"@, Flex::UInt(chunk_id)),
        ],
    )
}

pub open spec fn chunk_update_last_inserted_value(
    chunk_ids: Seq<u64>,
    last_inserted_at_millis: Option<i64>,
) -> Flex {
    tagged(
        "ChunkUpdateLastInserted"@,
        seq![
            ("chunk_ids"@, wire::u64s_value(chunk_ids)),
            ("last_inserted_at_millis"@, wire::opt_i64_value(last_inserted_at_millis)),
        ],
    )
}

pub open spec fn swap_chunks_value(
    deactivate_ids: Seq<u64>,
    uploaded_ids_and_sizes: Seq<(u64, Option<u64>)>,
    new_replay_handle_id: Option<u64>,
) -> Flex {
    tagged(
        "SwapChunks"@,
        seq![
            ("deactivate_ids"@, wire::u64s_value(deactivate_ids)),
            ("uploaded_ids_and_sizes"@, wire::id_sizes_value(uploaded_ids_and_sizes)),
            ("new_replay_handle_id"@, wire::opt_u64_value(new_replay_handle_id)),
        ],
    )
}

pub open spec fn swap_chunks_without_check_value(
    deactivate_ids: Seq<u64>,
    uploaded_ids_and_sizes: Seq<(u64, Option<u64>)>,
    new_replay_handle_id: Option<u64>,
) -> Flex {
    tagged(
        "SwapChunksWithoutCheck"@,
        seq![
            ("deactivate_ids"@, wire::u64s_value(deactivate_ids)),
            ("uploaded_ids_and_sizes"@, wire::id_sizes_value(uploaded_ids_and_sizes)),
            ("new_replay_handle_id"@, wire::opt_u64_value(new_replay_handle_id)),
        ],
    )
}

pub open spec fn activate_chunks_value(
    table_id: u64,
    uploaded_chunk_ids: Seq<(u64, Option<u64>)>,
    replay_handle_id: Option<u64>,
) -> Flex {
    tagged(
        "ActivateChunks"@,
        seq![
            ("table_id"@, Flex::UInt(table_id)),
            ("uploaded_chunk_ids"@, wire::id_sizes_value(uploaded_chunk_ids)),
            ("replay_handle_id"@, wire::opt_u64_value(replay_handle_id)),
        ],
    )
}

pub open spec fn deactivate_chunk_value(chunk_id: u64, assigned_now_millis: i64) -> Flex {
    tagged(
        "DeactivateChunk"@,
        seq![
            ("chunk_id"@, Flex::UInt(chunk_id)),
            ("assigned_now_millis"@, Flex::Int(assigned_now_millis)),
        ],
    )
}

pub open spec fn deactivate_chunks_value(chunk_ids: Seq<u64>, assigned_now_millis: i64) -> Flex {
    tagged(
        "DeactivateChunks"@,
        seq![
            ("chunk_ids"@, wire::u64s_value(chunk_ids)),
            ("assigned_now_millis"@, Flex::Int(assigned_now_millis)),
        ],
    )
}

pub open spec fn deactivate_chunks_without_check_value(deactivate_ids: Seq<u64>) -> Flex {
    tagged(
        "DeactivateChunksWithoutCheck"@,
        seq![
            ("deactivate_ids"@, wire::u64s_value(deactivate_ids)),
        ],
    )
}

pub open spec fn create_wal_value(table_id: u64, row_count: u64) -> Flex {
    tagged(
        "CreateWal"@,
        seq![
            ("table_id"@, Flex::UInt(table_id)),
            ("row_count"@, Flex::UInt(row_count)),
        ],
    )
}

pub open spec fn delete_wal_value(wal_id: u64) -> Flex {
    tagged(
        "DeleteWal"@,
        seq![
            ("wal_id"@, Flex::UInt(wal_id)),
        ],
    )
}

pub open spec fn wal_uploaded_value(wal_id: u64) -> Flex {
    tagged(
        "WalUploaded"@,
        seq![
            ("wal_id"@, Flex::UInt(wal_id)),
        ],
    )
}

pub open spec fn add_job_value(job_blob: Seq<u8>) -> Flex {
    tagged(
        "AddJob"@,
        seq![
            ("job_blob"@, wire::bytes_value(job_blob)),
        ],
    )
}

pub open spec fn delete_job_value(job_id: u64) -> Flex {
    tagged(
        "DeleteJob"@,
        seq![
            ("job_id"@, Flex::UInt(job_id)),
        ],
    )
}

pub open spec fn start_processing_job_value(
    server_name: Seq<char>,
    long_term: bool,
    assigned_now_millis: i64,
) -> Flex {
    tagged(
        "StartProcessingJob"@,
        seq![
            ("server_name"@, Flex::Text(server_name)),
            ("long_term"@, Flex::Bool(long_term)),
            ("assigned_now_millis"@, Flex::Int(assigned_now_millis)),
        ],
    )
}

pub open spec fn update_status_value(
    job_id: u64,
    status_blob: Seq<u8>,
    assigned_now_millis: i64,
) -> Flex {
    tagged(
        "UpdateStatus"@,
        seq![
            ("job_id"@, Flex::UInt(job_id)),
            ("status_blob"@, wire::bytes_value(status_blob)),
            ("assigned_now_millis"@, Flex::Int(assigned_now_millis)),
        ],
    )
}

pub open spec fn update_heart_beat_value(job_id: u64, assigned_now_millis: i64) -> Flex {
    tagged(
        "UpdateHeartBeat"@,
        seq![
            ("job_id"@, Flex::UInt(job_id)),
            ("assigned_now_millis"@, Flex::Int(assigned_now_millis)),
        ],
    )
}

pub open spec fn create_or_update_source_value(name: Seq<char>, credentials_blob: Seq<u8>) -> Flex {
    tagged(
        "CreateOrUpdateSource"@,
        seq![
            ("name"@, Flex::Text(name)),
            ("credentials_blob"@, wire::bytes_value(credentials_blob)),
        ],
    )
}

pub open spec fn delete_source_value(id: u64) -> Flex {
    tagged(
        "DeleteSource"@,
        seq![
            ("id"@, Flex::UInt(id)),
        ],
    )
}

pub open spec fn create_replay_handle_value(
    table_id: u64,
    location_index: u64,
    seq_pointer_blob: Seq<u8>,
    assigned_now_millis: i64,
) -> Flex {
    tagged(
        "CreateReplayHandle"@,
        seq![
            ("table_id"@, Flex::UInt(table_id)),
            ("location_index"@, Flex::UInt(location_index)),
            ("seq_pointer_blob"@, wire::bytes_value(seq_pointer_blob)),
            ("assigned_now_millis"@, Flex::Int(assigned_now_millis)),
        ],
    )
}

pub open spec fn create_replay_handle_from_seq_pointers_value(
    table_id: u64,
    seq_pointers_blob: Seq<u8>,
    assigned_now_millis: i64,
) -> Flex {
    tagged(
        "CreateReplayHandleFromSeqPointers"@,
        seq![
            ("table_id"@, Flex::UInt(table_id)),
            ("seq_pointers_blob"@, wire::bytes_value(seq_pointers_blob)),
            ("assigned_now_millis"@, Flex::Int(assigned_now_millis)),
        ],
    )
}

pub open spec fn update_replay_handle_failed_if_exists_value(id: u64, failed: bool) -> Flex {
    tagged(
        "UpdateReplayHandleFailedIfExists"@,
        seq![
            ("id"@, Flex::UInt(id)),
            ("failed"@, Flex::Bool(failed)),
        ],
    )
}

pub open spec fn replace_replay_handles_value(
    old_ids: Seq<u64>,
    new_seq_pointer_blob: Seq<u8>,
) -> Flex {
    tagged(
        "ReplaceReplayHandles"@,
        seq![
            ("old_ids"@, wire::u64s_value(old_ids)),
            ("new_seq_pointer_blob"@, wire::bytes_value(new_seq_pointer_blob)),
        ],
    )
}

pub open spec fn set_current_snapshot_value(snapshot_id_low: u64, snapshot_id_high: u64) -> Flex {
    tagged(
        "SetCurrentSnapshot"@,
        seq![
            ("snapshot_id_low"@, Flex::UInt(snapshot_id_low)),
            ("snapshot_id_high"@, Flex::UInt(snapshot_id_high)),
        ],
    )
}

pub open spec fn acquire_partitioned_lock_value(payload_version: u16, payload: Seq<u8>) -> Flex {
    tagged(
        "AcquirePartitionedLock"@,
        seq![
            ("payload_version"@, Flex::UInt(payload_version as u64)),
            ("payload"@, wire::bytes_value(payload)),
        ],
    )
}

pub open spec fn release_partitioned_lock_value(payload_version: u16, payload: Seq<u8>) -> Flex {
    tagged(
        "ReleasePartitionedLock"@,
        seq![
            ("payload_version"@, Flex::UInt(payload_version as u64)),
            ("payload"@, wire::bytes_value(payload)),
        ],
    )
}

pub open spec fn generic_value(method: Seq<char>, body: Seq<u8>) -> Flex {
    tagged(
        "Generic"@,
        seq![
            ("method"@, Flex::Text(method)),
            ("body"@, wire::bytes_value(body)),
        ],
    )
}

// ---------------------------------------------------------------------------
// What is accepted for each variant
// ---------------------------------------------------------------------------

pub open spec fn create_schema_of(e: Seq<(Seq<char>, Flex)>) -> Option<Flex> {
    let schema_name = wire::text_entry(e, "schema_name"@);
    let if_not_exists = wire::bool_entry(e, "if_not_exists"@);
    if schema_name is Some && if_not_exists is Some {
        Some(create_schema_value(schema_name->0, if_not_exists->0))
    } else {
        None
    }
}

pub open spec fn rename_schema_of(e: Seq<(Seq<char>, Flex)>) -> Option<Flex> {
    let old_schema_name = wire::text_entry(e, "old_schema_name"@);
    let new_schema_name = wire::text_entry(e, "new_schema_name"@);
    if old_schema_name is Some && new_schema_name is Some {
        Some(rename_schema_value(old_schema_name->0, new_schema_name->0))
    } else {
        None
    }
}

pub open spec fn rename_schema_by_id_of(e: Seq<(Seq<char>, Flex)>) -> Option<Flex> {
    let schema_id = wire::u64_entry(e, "schema_id"@);
    let new_schema_name = wire::text_entry(e, "new_schema_name"@);
    if schema_id is Some && new_schema_name is Some {
        Some(rename_schema_by_id_value(schema_id->0, new_schema_name->0))
    } else {
        None
    }
}

pub open spec fn delete_schema_of(e: Seq<(Seq<char>, Flex)>) -> Option<Flex> {
    let schema_name = wire::text_entry(e, "schema_name"@);
    if schema_name is Some {
        Some(delete_schema_value(schema_name->0))
    } else {
        None
    }
}

pub open spec fn delete_schema_by_id_of(e: Seq<(Seq<char>, Flex)>) -> Option<Flex> {
    let schema_id = wire::u64_entry(e, "schema_id"@);
    if schema_id is Some {
        Some(delete_schema_by_id_value(schema_id->0))
    } else {
        None
    }
}

pub open spec fn create_table_of(e: Seq<(Seq<char>, Flex)>) -> Option<Flex> {
    let schema_name = wire::text_entry(e, "schema_name"@);
    let table_name = wire::text_entry(e, "table_name"@);
    let payload_version = wire::u16_entry(e, "payload_version"@);
    let payload = wire::bytes_entry(e, "payload"@);
    if schema_name is Some && table_name is Some && payload_version is Some && payload is Some {
        Some(create_table_value(schema_name->0, table_name->0, payload_version->0, payload->0))
    } else {
        None
    }
}

pub open spec fn create_table_structured_of(e: Seq<(Seq<char>, Flex)>) -> Option<Flex> {
    let schema_name = wire::text_entry(e, "schema_name"@);
    let table_name = wire::text_entry(e, "table_name"@);
    let columns_blob = wire::bytes_entry(e, "columns_blob"@);
    let locations = wire::opt_texts_entry(e, "locations"@);
    let import_format_blob = wire::opt_bytes_entry(e, "import_format_blob"@);
    let indexes_blob = wire::bytes_entry(e, "indexes_blob"@);
    let is_ready = wire::bool_entry(e, "is_ready"@);
    let build_range_end_millis = wire::opt_i64_entry(e, "build_range_end_millis"@);
    let seal_at_millis = wire::opt_i64_entry(e, "seal_at_millis"@);
    let select_statement = wire::opt_text_entry(e, "select_statement"@);
    let source_columns_blob = wire::opt_bytes_entry(e, "source_columns_blob"@);
    let stream_offset_blob = wire::opt_bytes_entry(e, "stream_offset_blob"@);
    let unique_key_column_names = wire::opt_texts_entry(e, "unique_key_column_names"@);
    let aggregates = wire::opt_pairs_entry(e, "aggregates"@);
    let partition_split_threshold = wire::opt_u64_entry(e, "partition_split_threshold"@);
    let trace_obj = wire::opt_text_entry(e, "trace_obj"@);
    let drop_if_exists = wire::bool_entry(e, "drop_if_exists"@);
    let extension = wire::opt_text_entry(e, "extension"@);
    let assigned_now_millis = wire::i64_entry(e, "assigned_now_millis"@);
    if schema_name is Some
        && table_name is Some
        && columns_blob is Some
        && locations is Some
        && import_format_blob is Some
        && indexes_blob is Some
        && is_ready is Some
        && build_range_end_millis is Some
        && seal_at_millis is Some
        && select_statement is Some
        && source_columns_blob is Some
        && stream_offset_blob is Some
        && unique_key_column_names is Some
        && aggregates is Some
        && partition_split_threshold is Some
        && trace_obj is Some
        && drop_if_exists is Some
        && extension is Some
        && assigned_now_millis is Some
    {
        Some(
            create_table_structured_value(
                schema_name->0,
                table_name->0,
                columns_blob->0,
                locations->0,
                import_format_blob->0,
                indexes_blob->0,
                is_ready->0,
                build_range_end_millis->0,
                seal_at_millis->0,
                select_statement->0,
                source_columns_blob->0,
                stream_offset_blob->0,
                unique_key_column_names->0,
                aggregates->0,
                partition_split_threshold->0,
                trace_obj->0,
                drop_if_exists->0,
                extension->0,
                assigned_now_millis->0,
            ),
        )
    } else {
        None
    }
}

pub open spec fn drop_table_of(e: Seq<(Seq<char>, Flex)>) -> Option<Flex> {
    let table_id = wire::u64_entry(e, "table_id"@);
    if table_id is Some {
        Some(drop_table_value(table_id->0))
    } else {
        None
    }
}

pub open spec fn seal_table_of(e: Seq<(Seq<char>, Flex)>) -> Option<Flex> {
    let table_id = wire::u64_entry(e, "table_id"@);
    if table_id is Some {
        Some(seal_table_value(table_id->0))
    } else {
        None
    }
}

pub open spec fn update_location_download_size_of(e: Seq<(Seq<char>, Flex)>) -> Option<Flex> {
    let table_id = wire::u64_entry(e, "table_id"@);
    let location = wire::text_entry(e, "location"@);
    let download_size = wire::u64_entry(e, "download_size"@);
    if table_id is Some && location is Some && download_size is Some {
        Some(update_location_download_size_value(table_id->0, location->0, download_size->0))
    } else {
        None
    }
}

pub open spec fn table_ready_of(e: Seq<(Seq<char>, Flex)>) -> Option<Flex> {
    let table_id = wire::u64_entry(e, "table_id"@);
    let is_ready = wire::bool_entry(e, "is_ready"@);
    if table_id is Some && is_ready is Some {
        Some(table_ready_value(table_id->0, is_ready->0))
    } else {
        None
    }
}

pub open spec fn create_partition_of(e: Seq<(Seq<char>, Flex)>) -> Option<Flex> {
    let partition_blob = wire::bytes_entry(e, "partition_blob"@);
    if partition_blob is Some {
        Some(create_partition_value(partition_blob->0))
    } else {
        None
    }
}

pub open spec fn delete_partition_of(e: Seq<(Seq<char>, Flex)>) -> Option<Flex> {
    let partition_id = wire::u64_entry(e, "partition_id"@);
    if partition_id is Some {
        Some(delete_partition_value(partition_id->0))
    } else {
        None
    }
}

pub open spec fn mark_partition_warmed_up_of(e: Seq<(Seq<char>, Flex)>) -> Option<Flex> {
    let partition_id = wire::u64_entry(e, "partition_id"@);
    if partition_id is Some {
        Some(mark_partition_warmed_up_value(partition_id->0))
    } else {
        None
    }
}

pub open spec fn delete_middle_man_partition_of(e: Seq<(Seq<char>, Flex)>) -> Option<Flex> {
    let partition_id = wire::u64_entry(e, "partition_id"@);
    if partition_id is Some {
        Some(delete_middle_man_partition_value(partition_id->0))
    } else {
        None
    }
}

pub open spec fn swap_active_partitions_of(e: Seq<(Seq<char>, Flex)>) -> Option<Flex> {
    let payload_version = wire::u16_entry(e, "payload_version"@);
    let payload = wire::bytes_entry(e, "payload"@);
    if payload_version is Some && payload is Some {
        Some(swap_active_partitions_value(payload_version->0, payload->0))
    } else {
        None
    }
}

pub open spec fn swap_active_partitions_structured_of(e: Seq<(Seq<char>, Flex)>) -> Option<Flex> {
    let current_active_blob = wire::bytes_entry(e, "current_active_blob"@);
    let new_active_blob = wire::bytes_entry(e, "new_active_blob"@);
    let new_active_min_max_blob = wire::bytes_entry(e, "new_active_min_max_blob"@);
    if current_active_blob is Some && new_active_blob is Some && new_active_min_max_blob is Some {
        Some(
            swap_active_partitions_structured_value(
                current_active_blob->0,
                new_active_blob->0,
                new_active_min_max_blob->0,
            ),
        )
    } else {
        None
    }
}

pub open spec fn create_multi_partition_of(e: Seq<(Seq<char>, Flex)>) -> Option<Flex> {
    let multi_partition_blob = wire::bytes_entry(e, "multi_partition_blob"@);
    if multi_partition_blob is Some {
        Some(create_multi_partition_value(multi_partition_blob->0))
    } else {
        None
    }
}

pub open spec fn commit_multi_partition_split_of(e: Seq<(Seq<char>, Flex)>) -> Option<Flex> {
    let multi_partition_id = wire::u64_entry(e, "multi_partition_id"@);
    let new_multi_partitions = wire::u64s_entry(e, "new_multi_partitions"@);
    let new_multi_partition_rows = wire::u64s_entry(e, "new_multi_partition_rows"@);
    let old_partitions_blob = wire::bytes_entry(e, "old_partitions_blob"@);
    let new_partitions_blob = wire::bytes_entry(e, "new_partitions_blob"@);
    let new_partition_rows = wire::u64s_entry(e, "new_partition_rows"@);
    let initial_split = wire::bool_entry(e, "initial_split"@);
    if multi_partition_id is Some
        && new_multi_partitions is Some
        && new_multi_partition_rows is Some
        && old_partitions_blob is Some
        && new_partitions_blob is Some
        && new_partition_rows is Some
        && initial_split is Some
    {
        Some(
            commit_multi_partition_split_value(
                multi_partition_id->0,
                new_multi_partitions->0,
                new_multi_partition_rows->0,
                old_partitions_blob->0,
                new_partitions_blob->0,
                new_partition_rows->0,
                initial_split->0,
            ),
        )
    } else {
        None
    }
}

pub open spec fn create_index_of(e: Seq<(Seq<char>, Flex)>) -> Option<Flex> {
    let schema_name = wire::text_entry(e, "schema_name"@);
    let table_name = wire::text_entry(e, "table_name"@);
    let index_def_blob = wire::bytes_entry(e, "index_def_blob"@);
    if schema_name is Some && table_name is Some && index_def_blob is Some {
        Some(create_index_value(schema_name->0, table_name->0, index_def_blob->0))
    } else {
        None
    }
}

pub open spec fn create_partitioned_index_of(e: Seq<(Seq<char>, Flex)>) -> Option<Flex> {
    let schema = wire::text_entry(e, "schema"@);
    let name = wire::text_entry(e, "name"@);
    let columns_blob = wire::bytes_entry(e, "columns_blob"@);
    let if_not_exists = wire::bool_entry(e, "if_not_exists"@);
    if schema is Some && name is Some && columns_blob is Some && if_not_exists is Some {
        Some(create_partitioned_index_value(schema->0, name->0, columns_blob->0, if_not_exists->0))
    } else {
        None
    }
}

pub open spec fn drop_partitioned_index_of(e: Seq<(Seq<char>, Flex)>) -> Option<Flex> {
    let schema = wire::text_entry(e, "schema"@);
    let name = wire::text_entry(e, "name"@);
    if schema is Some && name is Some {
        Some(drop_partitioned_index_value(schema->0, name->0))
    } else {
        None
    }
}

pub open spec fn create_chunk_of(e: Seq<(Seq<char>, Flex)>) -> Option<Flex> {
    let chunk_blob = wire::bytes_entry(e, "chunk_blob"@);
    if chunk_blob is Some {
        Some(create_chunk_value(chunk_blob->0))
    } else {
        None
    }
}

pub open spec fn insert_chunks_of(e: Seq<(Seq<char>, Flex)>) -> Option<Flex> {
    let chunks_blob = wire::bytes_entry(e, "chunks_blob"@);
    if chunks_blob is Some {
        Some(insert_chunks_value(chunks_blob->0))
    } else {
        None
    }
}

pub open spec fn swap_compacted_chunks_of(e: Seq<(Seq<char>, Flex)>) -> Option<Flex> {
    let partition_id = wire::u64_entry(e, "partition_id"@);
    let old_chunk_ids = wire::u64s_entry(e, "old_chunk_ids"@);
    let new_chunk = wire::u64_entry(e, "new_chunk"@);
    let new_chunk_file_size = wire::u64_entry(e, "new_chunk_file_size"@);
    if partition_id is Some
        && old_chunk_ids is Some
        && new_chunk is Some
        && new_chunk_file_size is Some
    {
        Some(
            swap_compacted_chunks_value(
                partition_id->0,
                old_chunk_ids->0,
                new_chunk->0,
                new_chunk_file_size->0,
            ),
        )
    } else {
        None
    }
}

pub open spec fn delete_chunk_of(e: Seq<(Seq<char>, Flex)>) -> Option<Flex> {
    let chunk_id = wire::u64_entry(e, "chunk_id"@);
    if chunk_id is Some {
        Some(delete_chunk_value(chunk_id->0))
    } else {
        None
    }
}

pub open spec fn delete_chunks_without_checks_of(e: Seq<(Seq<char>, Flex)>) -> Option<Flex> {
    let chunk_ids = wire::u64s_entry(e, "chunk_ids"@);
    if chunk_ids is Some {
        Some(delete_chunks_without_checks_value(chunk_ids->0))
    } else {
        None
    }
}

pub open spec fn chunk_uploaded_of(e: Seq<(Seq<char>, Flex)>) -> Option<Flex> {
    let chunk_id = wire::u64_entry(e, "chunk_id"@);
    if chunk_id is Some {
        Some(chunk_uploaded_value(chunk_id->0))
    } else {
        None
    }
}

pub open spec fn chunk_update_last_inserted_of(e: Seq<(Seq<char>, Flex)>) -> Option<Flex> {
    let chunk_ids = wire::u64s_entry(e, "chunk_ids"@);
    let last_inserted_at_millis = wire::opt_i64_entry(e, "last_inserted_at_millis"@);
    if chunk_ids is Some && last_inserted_at_millis is Some {
        Some(chunk_update_last_inserted_value(chunk_ids->0, last_inserted_at_millis->0))
    } else {
        None
    }
}

pub open spec fn swap_chunks_of(e: Seq<(Seq<char>, Flex)>) -> Option<Flex> {
    let deactivate_ids = wire::u64s_entry(e, "deactivate_ids"@);
    let uploaded_ids_and_sizes = wire::id_sizes_entry(e, "uploaded_ids_and_sizes"@);
    let new_replay_handle_id = wire::opt_u64_entry(e, "new_replay_handle_id"@);
    if deactivate_ids is Some && uploaded_ids_and_sizes is Some && new_replay_handle_id is Some {
        Some(
            swap_chunks_value(
                deactivate_ids->0,
                uploaded_ids_and_sizes->0,
                new_replay_handle_id->0,
            ),
        )
    } else {
        None
    }
}

pub open spec fn swap_chunks_without_check_of(e: Seq<(Seq<char>, Flex)>) -> Option<Flex> {
    let deactivate_ids = wire::u64s_entry(e, "deactivate_ids"@);
    let uploaded_ids_and_sizes = wire::id_sizes_entry(e, "uploaded_ids_and_sizes"@);
    let new_replay_handle_id = wire::opt_u64_entry(e, "new_replay_handle_id"@);
    if deactivate_ids is Some && uploaded_ids_and_sizes is Some && new_replay_handle_id is Some {
        Some(
            swap_chunks_without_check_value(
                deactivate_ids->0,
                uploaded_ids_and_sizes->0,
                new_replay_handle_id->0,
            ),
        )
    } else {
        None
    }
}

pub open spec fn activate_chunks_of(e: Seq<(Seq<char>, Flex)>) -> Option<Flex> {
    let table_id = wire::u64_entry(e, "table_id"@);
    let uploaded_chunk_ids = wire::id_sizes_entry(e, "uploaded_chunk_ids"@);
    let replay_handle_id = wire::opt_u64_entry(e, "replay_handle_id"@);
    if table_id is Some && uploaded_chunk_ids is Some && replay_handle_id is Some {
        Some(activate_chunks_value(table_id->0, uploaded_chunk_ids->0, replay_handle_id->0))
    } else {
        None
    }
}

pub open spec fn deactivate_chunk_of(e: Seq<(Seq<char>, Flex)>) -> Option<Flex> {
    let chunk_id = wire::u64_entry(e, "chunk_id"@);
    let assigned_now_millis = wire::i64_entry(e, "assigned_now_millis"@);
    if chunk_id is Some && assigned_now_millis is Some {
        Some(deactivate_chunk_value(chunk_id->0, assigned_now_millis->0))
    } else {
        None
    }
}

pub open spec fn deactivate_chunks_of(e: Seq<(Seq<char>, Flex)>) -> Option<Flex> {
    let chunk_ids = wire::u64s_entry(e, "chunk_ids"@);
    let assigned_now_millis = wire::i64_entry(e, "assigned_now_millis"@);
    if chunk_ids is Some && assigned_now_millis is Some {
        Some(deactivate_chunks_value(chunk_ids->0, assigned_now_millis->0))
    } else {
        None
    }
}

pub open spec fn deactivate_chunks_without_check_of(e: Seq<(Seq<char>, Flex)>) -> Option<Flex> {
    let deactivate_ids = wire::u64s_entry(e, "deactivate_ids"@);
    if deactivate_ids is Some {
        Some(deactivate_chunks_without_check_value(deactivate_ids->0))
    } else {
        None
    }
}

pub open spec fn create_wal_of(e: Seq<(Seq<char>, Flex)>) -> Option<Flex> {
    let table_id = wire::u64_entry(e, "table_id"@);
    let row_count = wire::u64_entry(e, "row_count"@);
    if table_id is Some && row_count is Some {
        Some(create_wal_value(table_id->0, row_count->0))
    } else {
        None
    }
}

pub open spec fn delete_wal_of(e: Seq<(Seq<char>, Flex)>) -> Option<Flex> {
    let wal_id = wire::u64_entry(e, "wal_id"@);
    if wal_id is Some {
        Some(delete_wal_value(wal_id->0))
    } else {
        None
    }
}

pub open spec fn wal_uploaded_of(e: Seq<(Seq<char>, Flex)>) -> Option<Flex> {
    let wal_id = wire::u64_entry(e, "wal_id"@);
    if wal_id is Some {
        Some(wal_uploaded_value(wal_id->0))
    } else {
        None
    }
}

pub open spec fn add_job_of(e: Seq<(Seq<char>, Flex)>) -> Option<Flex> {
    let job_blob = wire::bytes_entry(e, "job_blob"@);
    if job_blob is Some {
        Some(add_job_value(job_blob->0))
    } else {
        None
    }
}

pub open spec fn delete_job_of(e: Seq<(Seq<char>, Flex)>) -> Option<Flex> {
    let job_id = wire::u64_entry(e, "job_id"@);
    if job_id is Some {
        Some(delete_job_value(job_id->0))
    } else {
        None
    }
}

pub open spec fn start_processing_job_of(e: Seq<(Seq<char>, Flex)>) -> Option<Flex> {
    let server_name = wire::text_entry(e, "server_name"@);
    let long_term = wire::bool_entry(e, "long_term"@);
    let assigned_now_millis = wire::i64_entry(e, "assigned_now_millis"@);
    if server_name is Some && long_term is Some && assigned_now_millis is Some {
        Some(start_processing_job_value(server_name->0, long_term->0, assigned_now_millis->0))
    } else {
        None
    }
}

pub open spec fn update_status_of(e: Seq<(Seq<char>, Flex)>) -> Option<Flex> {
    let job_id = wire::u64_entry(e, "job_id"@);
    let status_blob = wire::bytes_entry(e, "status_blob"@);
    let assigned_now_millis = wire::i64_entry(e, "assigned_now_millis"@);
    if job_id is Some && status_blob is Some && assigned_now_millis is Some {
        Some(update_status_value(job_id->0, status_blob->0, assigned_now_millis->0))
    } else {
        None
    }
}

pub open spec fn update_heart_beat_of(e: Seq<(Seq<char>, Flex)>) -> Option<Flex> {
    let job_id = wire::u64_entry(e, "job_id"@);
    let assigned_now_millis = wire::i64_entry(e, "assigned_now_millis"@);
    if job_id is Some && assigned_now_millis is Some {
        Some(update_heart_beat_value(job_id->0, assigned_now_millis->0))
    } else {
        None
    }
}

pub open spec fn create_or_update_source_of(e: Seq<(Seq<char>, Flex)>) -> Option<Flex> {
    let name = wire::text_entry(e, "name"@);
    let credentials_blob = wire::bytes_entry(e, "credentials_blob"@);
    if name is Some && credentials_blob is Some {
        Some(create_or_update_source_value(name->0, credentials_blob->0))
    } else {
        None
    }
}

pub open spec fn delete_source_of(e: Seq<(Seq<char>, Flex)>) -> Option<Flex> {
    let id = wire::u64_entry(e, "id"@);
    if id is Some {
        Some(delete_source_value(id->0))
    } else {
        None
    }
}

pub open spec fn create_replay_handle_of(e: Seq<(Seq<char>, Flex)>) -> Option<Flex> {
    let table_id = wire::u64_entry(e, "table_id"@);
    let location_index = wire::u64_entry(e, "location_index"@);
    let seq_pointer_blob = wire::bytes_entry(e, "seq_pointer_blob"@);
    let assigned_now_millis = wire::i64_entry(e, "assigned_now_millis"@);
    if table_id is Some
        && location_index is Some
        && seq_pointer_blob is Some
        && assigned_now_millis is Some
    {
        Some(
            create_replay_handle_value(
                table_id->0,
                location_index->0,
                seq_pointer_blob->0,
                assigned_now_millis->0,
            ),
        )
    } else {
        None
    }
}

pub open spec fn create_replay_handle_from_seq_pointers_of(
    e: Seq<(Seq<char>, Flex)>,
) -> Option<Flex> {
    let table_id = wire::u64_entry(e, "table_id"@);
    let seq_pointers_blob = wire::bytes_entry(e, "seq_pointers_blob"@);
    let assigned_now_millis = wire::i64_entry(e, "assigned_now_millis"@);
    if table_id is Some && seq_pointers_blob is Some && assigned_now_millis is Some {
        Some(
            create_replay_handle_from_seq_pointers_value(
                table_id->0,
                seq_pointers_blob->0,
                assigned_now_millis->0,
            ),
        )
    } else {
        None
    }
}

pub open spec fn update_replay_handle_failed_if_exists_of(
    e: Seq<(Seq<char>, Flex)>,
) -> Option<Flex> {
    let id = wire::u64_entry(e, "id"@);
    let failed = wire::bool_entry(e, "failed"@);
    if id is Some && failed is Some {
        Some(update_replay_handle_failed_if_exists_value(id->0, failed->0))
    } else {
        None
    }
}

pub open spec fn replace_replay_handles_of(e: Seq<(Seq<char>, Flex)>) -> Option<Flex> {
    let old_ids = wire::u64s_entry(e, "old_ids"@);
    let new_seq_pointer_blob = wire::bytes_entry(e, "new_seq_pointer_blob"@);
    if old_ids is Some && new_seq_pointer_blob is Some {
        Some(replace_replay_handles_value(old_ids->0, new_seq_pointer_blob->0))
    } else {
        None
    }
}

pub open spec fn set_current_snapshot_of(e: Seq<(Seq<char>, Flex)>) -> Option<Flex> {
    let snapshot_id_low = wire::u64_entry(e, "snapshot_id_low"@);
    let snapshot_id_high = wire::u64_entry(e, "snapshot_id_high"@);
    if snapshot_id_low is Some && snapshot_id_high is Some {
        Some(set_current_snapshot_value(snapshot_id_low->0, snapshot_id_high->0))
    } else {
        None
    }
}

pub open spec fn acquire_partitioned_lock_of(e: Seq<(Seq<char>, Flex)>) -> Option<Flex> {
    let payload_version = wire::u16_entry(e, "payload_version"@);
    let payload = wire::bytes_entry(e, "payload"@);
    if payload_version is Some && payload is Some {
        Some(acquire_partitioned_lock_value(payload_version->0, payload->0))
    } else {
        None
    }
}

pub open spec fn release_partitioned_lock_of(e: Seq<(Seq<char>, Flex)>) -> Option<Flex> {
    let payload_version = wire::u16_entry(e, "payload_version"@);
    let payload = wire::bytes_entry(e, "payload"@);
    if payload_version is Some && payload is Some {
        Some(release_partitioned_lock_value(payload_version->0, payload->0))
    } else {
        None
    }
}

pub open spec fn generic_of(e: Seq<(Seq<char>, Flex)>) -> Option<Flex> {
    let method = wire::text_entry(e, "method"@);
    let body = wire::bytes_entry(e, "body"@);
    if method is Some && body is Some {
        Some(generic_value(method->0, body->0))
    } else {
        None
    }
}

/// The command of the named variant that the entries hold, if they hold one.
#[verifier::opaque]
pub open spec fn variant_of(name: Seq<char>, e: Seq<(Seq<char>, Flex)>) -> Option<Flex> {
    if name == "CreateSchema"@ {
        create_schema_of(e)
    } else if name == "RenameSchema"@ {
        rename_schema_of(e)
    } else if name == "RenameSchemaById"@ {
        rename_schema_by_id_of(e)
    } else if name == "DeleteSchema"@ {
        delete_schema_of(e)
    } else if name == "DeleteSchemaById"@ {
        delete_schema_by_id_of(e)
    } else if name == "CreateTable"@ {
        create_table_of(e)
    } else if name == "CreateTableStructured"@ {
        create_table_structured_of(e)
    } else if name == "DropTable"@ {
        drop_table_of(e)
    } else if name == "SealTable"@ {
        seal_table_of(e)
    } else if name == "UpdateLocationDownloadSize"@ {
        update_location_download_size_of(e)
    } else if name == "TableReady"@ {
        table_ready_of(e)
    } else if name == "CreatePartition"@ {
        create_partition_of(e)
    } else if name == "DeletePartition"@ {
        delete_partition_of(e)
    } else if name == "MarkPartitionWarmedUp"@ {
        mark_partition_warmed_up_of(e)
    } else if name == "DeleteMiddleManPartition"@ {
        delete_middle_man_partition_of(e)
    } else if name == "SwapActivePartitions"@ {
        swap_active_partitions_of(e)
    } else if name == "SwapActivePartitionsStructured"@ {
        swap_active_partitions_structured_of(e)
    } else if name == "CreateMultiPartition"@ {
        create_multi_partition_of(e)
    } else if name == "CommitMultiPartitionSplit"@ {
        commit_multi_partition_split_of(e)
    } else if name == "CreateIndex"@ {
        create_index_of(e)
    } else if name == "CreatePartitionedIndex"@ {
        create_partitioned_index_of(e)
    } else if name == "DropPartitionedIndex"@ {
        drop_partitioned_index_of(e)
    } else if name == "CreateChunk"@ {
        create_chunk_of(e)
    } else if name == "InsertChunks"@ {
        insert_chunks_of(e)
    } else if name == "SwapCompactedChunks"@ {
        swap_compacted_chunks_of(e)
    } else if name == "DeleteChunk"@ {
        delete_chunk_of(e)
    } else if name == "DeleteChunksWithoutChecks"@ {
        delete_chunks_without_checks_of(e)
    } else if name == "ChunkUploaded"@ {
        chunk_uploaded_of(e)
    } else if name == "ChunkUpdateLastInserted"@ {
        chunk_update_last_inserted_of(e)
    } else if name == "SwapChunks"@ {
        swap_chunks_of(e)
    } else if name == "SwapChunksWithoutCheck"@ {
        swap_chunks_without_check_of(e)
    } else if name == "ActivateChunks"@ {
        activate_chunks_of(e)
    } else if name == "DeactivateChunk"@ {
        deactivate_chunk_of(e)
    } else if name == "DeactivateChunks"@ {
        deactivate_chunks_of(e)
    } else if name == "DeactivateChunksWithoutCheck"@ {
        deactivate_chunks_without_check_of(e)
    } else if name == "CreateWal"@ {
        create_wal_of(e)
    } else if name == "DeleteWal"@ {
        delete_wal_of(e)
    } else if name == "WalUploaded"@ {
        wal_uploaded_of(e)
    } else if name == "AddJob"@ {
        add_job_of(e)
    } else if name == "DeleteJob"@ {
        delete_job_of(e)
    } else if name == "StartProcessingJob"@ {
        start_processing_job_of(e)
    } else if name == "UpdateStatus"@ {
        update_status_of(e)
    } else if name == "UpdateHeartBeat"@ {
        update_heart_beat_of(e)
    } else if name == "CreateOrUpdateSource"@ {
        create_or_update_source_of(e)
    } else if name == "DeleteSource"@ {
        delete_source_of(e)
    } else if name == "CreateReplayHandle"@ {
        create_replay_handle_of(e)
    } else if name == "CreateReplayHandleFromSeqPointers"@ {
        create_replay_handle_from_seq_pointers_of(e)
    } else if name == "UpdateReplayHandleFailedIfExists"@ {
        update_replay_handle_failed_if_exists_of(e)
    } else if name == "ReplaceReplayHandles"@ {
        replace_replay_handles_of(e)
    } else if name == "SetCurrentSnapshot"@ {
        set_current_snapshot_of(e)
    } else if name == "AcquirePartitionedLock"@ {
        acquire_partitioned_lock_of(e)
    } else if name == "ReleasePartitionedLock"@ {
        release_partitioned_lock_of(e)
    } else if name == "Generic"@ {
        generic_of(e)
    } else {
        None
    }
}

/// Whether a variant has a field of some name.
#[verifier::opaque]
pub open spec fn is_field(name: Seq<char>, key: Seq<char>) -> bool {
    ||| name == "CreateSchema"@ && (key == "schema_name"@ || key == "if_not_exists"@)
    ||| name == "RenameSchema"@ && (key == "old_schema_name"@ || key == "new_schema_name"@)
    ||| name == "RenameSchemaById"@ && (key == "schema_id"@ || key == "new_schema_name"@)
    ||| name == "DeleteSchema"@ && (key == "schema_name"@)
    ||| name == "DeleteSchemaById"@ && (key == "schema_id"@)
    ||| name == "CreateTable"@ && (key == "schema_name"@ || key == "table_name"@
        || key == "payload_version"@ || key == "payload"@)
    ||| name == "CreateTableStructured"@ && (key == "schema_name"@ || key == "table_name"@
        || key == "columns_blob"@ || key == "locations"@ || key == "import_format_blob"@
        || key == "indexes_blob"@ || key == "is_ready"@ || key == "build_range_end_millis"@
        || key == "seal_at_millis"@ || key == "select_statement"@ || key == "source_columns_blob"@
        || key == "stream_offset_blob"@ || key == "unique_key_column_names"@
        || key == "aggregates"@ || key == "partition_split_threshold"@ || key == "trace_obj"@
        || key == "drop_if_exists"@ || key == "extension"@ || key == "assigned_now_millis"@)
    ||| name == "DropTable"@ && (key == "table_id"@)
    ||| name == "SealTable"@ && (key == "table_id"@)
    ||| name == "UpdateLocationDownloadSize"@ && (key == "table_id"@ || key == "location"@
        || key == "download_size"@)
    ||| name == "TableReady"@ && (key == "table_id"@ || key == "is_ready"@)
    ||| name == "CreatePartition"@ && (key == "partition_blob"@)
    ||| name == "DeletePartition"@ && (key == "partition_id"@)
    ||| name == "MarkPartitionWarmedUp"@ && (key == "partition_id"@)
    ||| name == "DeleteMiddleManPartition"@ && (key == "partition_id"@)
    ||| name == "SwapActivePartitions"@ && (key == "payload_version"@ || key == "payload"@)
    ||| name == "SwapActivePartitionsStructured"@ && (key == "current_active_blob"@
        || key == "new_active_blob"@ || key == "new_active_min_max_blob"@)
    ||| name == "CreateMultiPartition"@ && (key == "multi_partition_blob"@)
    ||| name == "CommitMultiPartitionSplit"@ && (key == "multi_partition_id"@
        || key == "new_multi_partitions"@ || key == "new_multi_partition_rows"@
        || key == "old_partitions_blob"@ || key == "new_partitions_blob"@
        || key == "new_partition_rows"@ || key == "initial_split"@)
    ||| name == "CreateIndex"@ && (key == "schema_name"@ || key == "table_name"@
        || key == "index_def_blob"@)
    ||| name == "CreatePartitionedIndex"@ && (key == "schema"@ || key == "name"@
        || key == "columns_blob"@ || key == "if_not_exists"@)
    ||| name == "DropPartitionedIndex"@ && (key == "schema"@ || key == "name"@)
    ||| name == "CreateChunk"@ && (key == "chunk_blob"@)
    ||| name == "InsertChunks"@ && (key == "chunks_blob"@)
    ||| name == "SwapCompactedChunks"@ && (key == "partition_id"@ || key == "old_chunk_ids"@
        || key == "new_chunk"@ || key == "new_chunk_file_size"@)
    ||| name == "DeleteChunk"@ && (key == "chunk_id"@)
    ||| name == "DeleteChunksWithoutChecks"@ && (key == "chunk_ids"@)
    ||| name == "ChunkUploaded"@ && (key == "chunk_id"@)
    ||| name == "ChunkUpdateLastInserted"@ && (key == "chunk_ids"@
        || key == "last_inserted_at_millis"@)
    ||| name == "SwapChunks"@ && (key == "deactivate_ids"@ || key == "uploaded_ids_and_sizes"@
        || key == "new_replay_handle_id"@)
    ||| name == "SwapChunksWithoutCheck"@ && (key == "deactivate_ids"@
        || key == "uploaded_ids_and_sizes"@ || key == "new_replay_handle_id"@)
    ||| name == "ActivateChunks"@ && (key == "table_id"@ || key == "uploaded_chunk_ids"@
        || key == "replay_handle_id"@)
    ||| name == "DeactivateChunk"@ && (key == "chunk_id"@ || key == "assigned_now_millis"@)
    ||| name == "DeactivateChunks"@ && (key == "chunk_ids"@ || key == "assigned_now_millis"@)
    ||| name == "DeactivateChunksWithoutCheck"@ && (key == "deactivate_ids"@)
    ||| name == "CreateWal"@ && (key == "table_id"@ || key == "row_count"@)
    ||| name == "DeleteWal"@ && (key == "wal_id"@)
    ||| name == "WalUploaded"@ && (key == "wal_id"@)
    ||| name == "AddJob"@ && (key == "job_blob"@)
    ||| name == "DeleteJob"@ && (key == "job_id"@)
    ||| name == "StartProcessingJob"@ && (key == "server_name"@ || key == "long_term"@
        || key == "assigned_now_millis"@)
    ||| name == "UpdateStatus"@ && (key == "job_id"@ || key == "status_blob"@
        || key == "assigned_now_millis"@)
    ||| name == "UpdateHeartBeat"@ && (key == "job_id"@ || key == "assigned_now_millis"@)
    ||| name == "CreateOrUpdateSource"@ && (key == "name"@ || key == "credentials_blob"@)
    ||| name == "DeleteSource"@ && (key == "id"@)
    ||| name == "CreateReplayHandle"@ && (key == "table_id"@ || key == "location_index"@
        || key == "seq_pointer_blob"@ || key == "assigned_now_millis"@)
    ||| name == "CreateReplayHandleFromSeqPointers"@ && (key == "table_id"@
        || key == "seq_pointers_blob"@ || key == "assigned_now_millis"@)
    ||| name == "UpdateReplayHandleFailedIfExists"@ && (key == "id"@ || key == "failed"@)
    ||| name == "ReplaceReplayHandles"@ && (key == "old_ids"@ || key == "new_seq_pointer_blob"@)
    ||| name == "SetCurrentSnapshot"@ && (key == "snapshot_id_low"@ || key == "snapshot_id_high"@)
    ||| name == "AcquirePartitionedLock"@ && (key == "payload_version"@ || key == "payload"@)
    ||| name == "ReleasePartitionedLock"@ && (key == "payload_version"@ || key == "payload"@)
    ||| name == "Generic"@ && (key == "method"@ || key == "body"@)
    ||| name == "Batch"@ && (key == "commands"@)
}

/// Whether what a record holds beside the fields of a variant can be passed over.
pub open spec fn rest_passes(name: Seq<char>, entries: Seq<(Seq<char>, Flex)>) -> bool {
    forall|i: int|
        0 <= i < entries.len() ==> is_field(name, (#[trigger] entries[i]).0) || flex::passable(
            entries[i].1,
        )
}

/// The command that a value holds, if it holds one: as the value that the
/// command itself would be written as. Of a record that stands for a command only the first
/// entry counts.
#[verifier::opaque]
pub open spec fn command_of(w: Flex) -> Option<Flex>
    decreases w,
{
    match w {
        Flex::Text(name) => if name == "DeleteAllJobs"@ {
            Some(w)
        } else {
            None
        },
        Flex::Record(entries) => if entries.len() == 0 {
            None
        } else if entries[0].0 == "DeleteAllJobs"@ {
            Some(Flex::Text("DeleteAllJobs"@))
        } else {
            match entries[0].1 {
                Flex::Record(fields) => if !rest_passes(entries[0].0, fields) {
                    None
                } else if entries[0].0 == "Batch"@ {
                    match wire::find(fields, "commands"@) {
                        wire::Found::At(i) => if 0 <= i < fields.len() {
                            match fields[i].1 {
                                Flex::Vector(items) => if forall|k: int|
                                    0 <= k < items.len() ==> command_of(
                                        #[trigger] items[k],
                                    ) is Some {
                                    Some(
                                        tagged(
                                            "Batch"@,
                                            seq![
                                                (
                                                    "commands"@,
                                                    Flex::Vector(
                                                        Seq::new(
                                                            items.len(),
                                                            |k: int|
                                                                if 0 <= k < items.len() {
                                                                    command_of(items[k])->0
                                                                } else {
                                                                    Flex::Null
                                                                },
                                                        ),
                                                    ),
                                                ),
                                            ],
                                        ),
                                    )
                                } else {
                                    None
                                },
                                _ => None,
                            }
                        } else {
                            None
                        },
                        _ => None,
                    }
                } else {
                    variant_of(entries[0].0, fields)
                },
                _ => None,
            }
        },
        _ => None,
    }
}

// ---------------------------------------------------------------------------
// Writing
// ---------------------------------------------------------------------------

/// The frames inside the record of a variant's fields.
pub open spec fn in_variant(
    outer: Seq<FlexFrame>,
    name: Seq<char>,
    fields: Seq<(Seq<char>, Flex)>,
) -> Seq<FlexFrame> {
    outer.push(FlexFrame::Record(Seq::empty(), Some(name))).push(FlexFrame::Record(fields, None))
}

/// A command can be written next: inside a container, with no key twice in its records,
/// and without making the document too large.
pub open spec fn can_take(frames: Seq<FlexFrame>, v: Flex) -> bool {
    flex::room_for(frames, v) && flex::storable(v)
}

/// What was written inside the record of a variant's fields.
pub broadcast proof fn lemma_written_variant(
    outer: Seq<FlexFrame>,
    name: Seq<char>,
    fields: Seq<(Seq<char>, Flex)>,
)
    ensures
        #[trigger] flex::written(in_variant(outer, name, fields)) == flex::written(outer) + 128
            + flex::key_weight(name) + flex::entries_weight(fields),
{
    broadcast use flex::lemma_written_push;

    flex::lemma_record_weight(fields);
    flex::lemma_record_weight(Seq::empty());
}

/// Where there is room for a variant, there is for its fields.
proof fn lemma_variant_room(
    outer: Seq<FlexFrame>,
    name: Seq<char>,
    fields: Seq<(Seq<char>, Flex)>,
)
    requires
        can_take(outer, tagged(name, fields)),
    ensures
        flex::written(outer) + 128 + flex::key_weight(name) + flex::entries_weight(fields)
            < 0x1_0000_0000,
{
    broadcast use flex::lemma_entries_push;

    let empty = Seq::<(Seq<char>, Flex)>::empty();
    flex::lemma_written_value(outer, tagged(name, fields));
    flex::lemma_record_weight(fields);
    flex::lemma_record_weight(empty.push((name, Flex::Record(fields))));
    assert(seq![(name, Flex::Record(fields))] == empty.push((name, Flex::Record(fields))));
}

pub broadcast proof fn lemma_entry_in_variant(
    outer: Seq<FlexFrame>,
    name: Seq<char>,
    fields: Seq<(Seq<char>, Flex)>,
    key: Seq<char>,
    v: Flex,
)
    ensures
        #[trigger] wire::with_entry(in_variant(outer, name, fields), key, v) == in_variant(
            outer,
            name,
            fields.push((key, v)),
        ),
        wire::in_record(in_variant(outer, name, fields)),
{
    assert(in_variant(outer, name, fields).drop_last() =~= outer.push(
        FlexFrame::Record(Seq::empty(), Some(name)),
    ));
}

fn open_variant(s: &mut FlexbufferSerializer, name: &str) -> (r: Result<(), SerializationError>)
    requires
        flex::takes_value(flex::flex_frames(*old(s))),
        !name@.contains('\0'),
    ensures
        r is Ok,
        flex::flex_frames(*final(s)) == in_variant(flex::flex_frames(*old(s)), name@, Seq::empty()),
{
    let ghost outer = flex::flex_frames(*s);
    flex_begin_record(s)?;
    flex_write_key(s, name)?;
    assert(outer.push(FlexFrame::Record(Seq::empty(), None)).drop_last() =~= outer);
    flex_begin_record(s)?;
    Ok(())
}

fn close_variant(
    s: &mut FlexbufferSerializer,
    Ghost(outer): Ghost<Seq<FlexFrame>>,
    Ghost(name): Ghost<Seq<char>>,
    Ghost(fields): Ghost<Seq<(Seq<char>, Flex)>>,
) -> (r: Result<(), SerializationError>)
    requires
        can_take(outer, tagged(name, fields)),
        flex::flex_frames(*old(s)) == in_variant(outer, name, fields),
        fields.len() < 256,
    ensures
        r is Ok,
        flex::flex_frames(*final(s)) == flex::with_value(outer, tagged(name, fields)),
{
    broadcast use {flex::lemma_written_push, flex::lemma_entries_push, lemma_written_variant};

    let ghost inner = outer.push(FlexFrame::Record(Seq::empty(), Some(name)));
    assert(in_variant(outer, name, fields).drop_last() =~= inner);
    proof {
        let whole = seq![(name, Flex::Record(fields))];
        lemma_variant_room(outer, name, fields);
        assert(whole[0] == (name, Flex::Record(fields)));
        assert(flex::storable(Flex::Record(whole)));
        assert(flex::storable(whole[0].1));
        flex::lemma_record_weight(fields);
        flex::lemma_record_weight(whole);
    }
    flex_end_record(s)?;
    assert(inner.drop_last() =~= outer);
    assert(Seq::<(Seq<char>, Flex)>::empty().push((name, Flex::Record(fields))) =~= seq![
        (name, Flex::Record(fields)),
    ]);
    let ghost done = outer.push(FlexFrame::Record(seq![(name, Flex::Record(fields))], None));
    assert(flex::flex_frames(*s) == done);
    assert(done.drop_last() =~= outer);
    flex_end_record(s)?;
    Ok(())
}

fn write_create_schema(
    s: &mut FlexbufferSerializer,
    schema_name: &String,
    if_not_exists: bool,
) -> (r: Result<(), SerializationError>)
    requires
        can_take(
            flex::flex_frames(*old(s)),
            create_schema_value(schema_name@, if_not_exists),
        ),
    ensures
        r is Ok,
        flex::flex_frames(*final(s)) == flex::with_value(
            flex::flex_frames(*old(s)),
            create_schema_value(schema_name@, if_not_exists),
        ),
{
    broadcast use {lemma_entry_in_variant, lemma_written_variant, flex::lemma_entries_push};

    let ghost outer = flex::flex_frames(*s);
    let ghost fields = fields_in(create_schema_value(schema_name@, if_not_exists));
    proof {
        reveal_strlit("CreateSchema");
        reveal_strlit("schema_name");
        reveal_strlit("if_not_exists");
        lemma_variant_room(outer, "CreateSchema"@, fields);
        assert(fields =~= Seq::empty().push(fields[0]).push(fields[1]));
        flex::lemma_record_weight(Seq::empty());
    }
    open_variant(s, "CreateSchema")?;
    put_text(s, "schema_name", schema_name)?;
    put_bool(s, "if_not_exists", if_not_exists)?;
    assert(flex::flex_frames(*s).last()->Record_0 =~= fields);
    close_variant(s, Ghost(outer), Ghost("CreateSchema"@), Ghost(fields))
}

fn write_rename_schema(
    s: &mut FlexbufferSerializer,
    old_schema_name: &String,
    new_schema_name: &String,
) -> (r: Result<(), SerializationError>)
    requires
        can_take(
            flex::flex_frames(*old(s)),
            rename_schema_value(old_schema_name@, new_schema_name@),
        ),
    ensures
        r is Ok,
        flex::flex_frames(*final(s)) == flex::with_value(
            flex::flex_frames(*old(s)),
            rename_schema_value(old_schema_name@, new_schema_name@),
        ),
{
    broadcast use {lemma_entry_in_variant, lemma_written_variant, flex::lemma_entries_push};

    let ghost outer = flex::flex_frames(*s);
    let ghost fields = fields_in(rename_schema_value(old_schema_name@, new_schema_name@));
    proof {
        reveal_strlit("RenameSchema");
        reveal_strlit("old_schema_name");
        reveal_strlit("new_schema_name");
        lemma_variant_room(outer, "RenameSchema"@, fields);
        assert(fields =~= Seq::empty().push(fields[0]).push(fields[1]));
        flex::lemma_record_weight(Seq::empty());
    }
    open_variant(s, "RenameSchema")?;
    put_text(s, "old_schema_name", old_schema_name)?;
    put_text(s, "new_schema_name", new_schema_name)?;
    assert(flex::flex_frames(*s).last()->Record_0 =~= fields);
    close_variant(s, Ghost(outer), Ghost("RenameSchema"@), Ghost(fields))
}

fn write_rename_schema_by_id(
    s: &mut FlexbufferSerializer,
    schema_id: u64,
    new_schema_name: &String,
) -> (r: Result<(), SerializationError>)
    requires
        can_take(
            flex::flex_frames(*old(s)),
            rename_schema_by_id_value(schema_id, new_schema_name@),
        ),
    ensures
        r is Ok,
        flex::flex_frames(*final(s)) == flex::with_value(
            flex::flex_frames(*old(s)),
            rename_schema_by_id_value(schema_id, new_schema_name@),
        ),
{
    broadcast use {lemma_entry_in_variant, lemma_written_variant, flex::lemma_entries_push};

    let ghost outer = flex::flex_frames(*s);
    let ghost fields = fields_in(rename_schema_by_id_value(schema_id, new_schema_name@));
    proof {
        reveal_strlit("RenameSchemaById");
        reveal_strlit("schema_id");
        reveal_strlit("new_schema_name");
        lemma_variant_room(outer, "RenameSchemaById"@, fields);
        assert(fields =~= Seq::empty().push(fields[0]).push(fields[1]));
        flex::lemma_record_weight(Seq::empty());
    }
    open_variant(s, "RenameSchemaById")?;
    put_u64(s, "schema_id", schema_id)?;
    put_text(s, "new_schema_name", new_schema_name)?;
    assert(flex::flex_frames(*s).last()->Record_0 =~= fields);
    close_variant(s, Ghost(outer), Ghost("RenameSchemaById"@), Ghost(fields))
}

fn write_delete_schema(
    s: &mut FlexbufferSerializer,
    schema_name: &String,
) -> (r: Result<(), SerializationError>)
    requires
        can_take(
            flex::flex_frames(*old(s)),
            delete_schema_value(schema_name@),
        ),
    ensures
        r is Ok,
        flex::flex_frames(*final(s)) == flex::with_value(
            flex::flex_frames(*old(s)),
            delete_schema_value(schema_name@),
        ),
{
    broadcast use {lemma_entry_in_variant, lemma_written_variant, flex::lemma_entries_push};

    let ghost outer = flex::flex_frames(*s);
    let ghost fields = fields_in(delete_schema_value(schema_name@));
    proof {
        reveal_strlit("DeleteSchema");
        reveal_strlit("schema_name");
        lemma_variant_room(outer, "DeleteSchema"@, fields);
        assert(fields =~= Seq::empty().push(fields[0]));
        flex::lemma_record_weight(Seq::empty());
    }
    open_variant(s, "DeleteSchema")?;
    put_text(s, "schema_name", schema_name)?;
    assert(flex::flex_frames(*s).last()->Record_0 =~= fields);
    close_variant(s, Ghost(outer), Ghost("DeleteSchema"@), Ghost(fields))
}

fn write_delete_schema_by_id(
    s: &mut FlexbufferSerializer,
    schema_id: u64,
) -> (r: Result<(), SerializationError>)
    requires
        can_take(
            flex::flex_frames(*old(s)),
            delete_schema_by_id_value(schema_id),
        ),
    ensures
        r is Ok,
        flex::flex_frames(*final(s)) == flex::with_value(
            flex::flex_frames(*old(s)),
            delete_schema_by_id_value(schema_id),
        ),
{
    broadcast use {lemma_entry_in_variant, lemma_written_variant, flex::lemma_entries_push};

    let ghost outer = flex::flex_frames(*s);
    let ghost fields = fields_in(delete_schema_by_id_value(schema_id));
    proof {
        reveal_strlit("DeleteSchemaById");
        reveal_strlit("schema_id");
        lemma_variant_room(outer, "DeleteSchemaById"@, fields);
        assert(fields =~= Seq::empty().push(fields[0]));
        flex::lemma_record_weight(Seq::empty());
    }
    open_variant(s, "DeleteSchemaById")?;
    put_u64(s, "schema_id", schema_id)?;
    assert(flex::flex_frames(*s).last()->Record_0 =~= fields);
    close_variant(s, Ghost(outer), Ghost("DeleteSchemaById"@), Ghost(fields))
}

fn write_create_table(
    s: &mut FlexbufferSerializer,
    schema_name: &String,
    table_name: &String,
    payload_version: u16,
    payload: &Vec<u8>,
) -> (r: Result<(), SerializationError>)
    requires
        can_take(
            flex::flex_frames(*old(s)),
            create_table_value(schema_name@, table_name@, payload_version, payload@),
        ),
    ensures
        r is Ok,
        flex::flex_frames(*final(s)) == flex::with_value(
            flex::flex_frames(*old(s)),
            create_table_value(schema_name@, table_name@, payload_version, payload@),
        ),
{
    broadcast use {lemma_entry_in_variant, lemma_written_variant, flex::lemma_entries_push};

    let ghost outer = flex::flex_frames(*s);
    let ghost fields = fields_in(
        create_table_value(schema_name@, table_name@, payload_version, payload@),
    );
    proof {
        reveal_strlit("CreateTable");
        reveal_strlit("schema_name");
        reveal_strlit("table_name");
        reveal_strlit("payload_version");
        reveal_strlit("payload");
        lemma_variant_room(outer, "CreateTable"@, fields);
        assert(fields =~= Seq::empty().push(fields[0]).push(fields[1]).push(fields[2])
            .push(fields[3]));
        flex::lemma_record_weight(Seq::empty());
    }
    open_variant(s, "CreateTable")?;
    put_text(s, "schema_name", schema_name)?;
    put_text(s, "table_name", table_name)?;
    put_u64(s, "payload_version", payload_version as u64)?;
    put_bytes(s, "payload", payload)?;
    assert(flex::flex_frames(*s).last()->Record_0 =~= fields);
    close_variant(s, Ghost(outer), Ghost("CreateTable"@), Ghost(fields))
}

#[verifier::rlimit(60)]
#[verifier::spinoff_prover]
fn write_create_table_structured(
    s: &mut FlexbufferSerializer,
    schema_name: &String,
    table_name: &String,
    columns_blob: &Vec<u8>,
    locations: &Option<Vec<String>>,
    import_format_blob: &Option<Vec<u8>>,
    indexes_blob: &Vec<u8>,
    is_ready: bool,
    build_range_end_millis: Option<i64>,
    seal_at_millis: Option<i64>,
    select_statement: &Option<String>,
    source_columns_blob: &Option<Vec<u8>>,
    stream_offset_blob: &Option<Vec<u8>>,
    unique_key_column_names: &Option<Vec<String>>,
    aggregates: &Option<Vec<(String, String)>>,
    partition_split_threshold: Option<u64>,
    trace_obj: &Option<String>,
    drop_if_exists: bool,
    extension: &Option<String>,
    assigned_now_millis: i64,
) -> (r: Result<(), SerializationError>)
    requires
        can_take(
            flex::flex_frames(*old(s)),
            create_table_structured_value(
                schema_name@,
                table_name@,
                columns_blob@,
                wire::opt_texts_view(*locations),
                wire::opt_bytes_view(*import_format_blob),
                indexes_blob@,
                is_ready,
                build_range_end_millis,
                seal_at_millis,
                wire::opt_text_view(*select_statement),
                wire::opt_bytes_view(*source_columns_blob),
                wire::opt_bytes_view(*stream_offset_blob),
                wire::opt_texts_view(*unique_key_column_names),
                wire::opt_pairs_view(*aggregates),
                partition_split_threshold,
                wire::opt_text_view(*trace_obj),
                drop_if_exists,
                wire::opt_text_view(*extension),
                assigned_now_millis,
            ),
        ),
    ensures
        r is Ok,
        flex::flex_frames(*final(s)) == flex::with_value(
            flex::flex_frames(*old(s)),
            create_table_structured_value(
                schema_name@,
                table_name@,
                columns_blob@,
                wire::opt_texts_view(*locations),
                wire::opt_bytes_view(*import_format_blob),
                indexes_blob@,
                is_ready,
                build_range_end_millis,
                seal_at_millis,
                wire::opt_text_view(*select_statement),
                wire::opt_bytes_view(*source_columns_blob),
                wire::opt_bytes_view(*stream_offset_blob),
                wire::opt_texts_view(*unique_key_column_names),
                wire::opt_pairs_view(*aggregates),
                partition_split_threshold,
                wire::opt_text_view(*trace_obj),
                drop_if_exists,
                wire::opt_text_view(*extension),
                assigned_now_millis,
            ),
        ),
{
    broadcast use {lemma_entry_in_variant, lemma_written_variant, flex::lemma_entries_push};

    let ghost outer = flex::flex_frames(*s);
    let ghost fields = fields_in(
        create_table_structured_value(
            schema_name@,
            table_name@,
            columns_blob@,
            wire::opt_texts_view(*locations),
            wire::opt_bytes_view(*import_format_blob),
            indexes_blob@,
            is_ready,
            build_range_end_millis,
            seal_at_millis,
            wire::opt_text_view(*select_statement),
            wire::opt_bytes_view(*source_columns_blob),
            wire::opt_bytes_view(*stream_offset_blob),
            wire::opt_texts_view(*unique_key_column_names),
            wire::opt_pairs_view(*aggregates),
            partition_split_threshold,
            wire::opt_text_view(*trace_obj),
            drop_if_exists,
            wire::opt_text_view(*extension),
            assigned_now_millis,
        ),
    );
    proof {
        reveal_strlit("CreateTableStructured");
        reveal_strlit("schema_name");
        reveal_strlit("table_name");
        reveal_strlit("columns_blob");
        reveal_strlit("locations");
        reveal_strlit("import_format_blob");
        reveal_strlit("indexes_blob");
        reveal_strlit("is_ready");
        reveal_strlit("build_range_end_millis");
        reveal_strlit("seal_at_millis");
        reveal_strlit("select_statement");
        reveal_strlit("source_columns_blob");
        reveal_strlit("stream_offset_blob");
        reveal_strlit("unique_key_column_names");
        reveal_strlit("aggregates");
        reveal_strlit("partition_split_threshold");
        reveal_strlit("trace_obj");
        reveal_strlit("drop_if_exists");
        reveal_strlit("extension");
        reveal_strlit("assigned_now_millis");
        lemma_variant_room(outer, "CreateTableStructured"@, fields);
        assert(fields =~= Seq::empty().push(fields[0]).push(fields[1]).push(fields[2])
            .push(fields[3]).push(fields[4]).push(fields[5]).push(fields[6]).push(fields[7])
            .push(fields[8]).push(fields[9]).push(fields[10]).push(fields[11]).push(fields[12])
            .push(fields[13]).push(fields[14]).push(fields[15]).push(fields[16]).push(fields[17])
            .push(fields[18]));
        flex::lemma_record_weight(Seq::empty());
    }
    open_variant(s, "CreateTableStructured")?;
    put_text(s, "schema_name", schema_name)?;
    put_text(s, "table_name", table_name)?;
    put_bytes(s, "columns_blob", columns_blob)?;
    put_opt_texts(s, "locations", locations)?;
    put_opt_bytes(s, "import_format_blob", import_format_blob)?;
    put_bytes(s, "indexes_blob", indexes_blob)?;
    put_bool(s, "is_ready", is_ready)?;
    put_opt_i64(s, "build_range_end_millis", build_range_end_millis)?;
    put_opt_i64(s, "seal_at_millis", seal_at_millis)?;
    put_opt_text(s, "select_statement", select_statement)?;
    put_opt_bytes(s, "source_columns_blob", source_columns_blob)?;
    put_opt_bytes(s, "stream_offset_blob", stream_offset_blob)?;
    put_opt_texts(s, "unique_key_column_names", unique_key_column_names)?;
    put_opt_pairs(s, "aggregates", aggregates)?;
    put_opt_u64(s, "partition_split_threshold", partition_split_threshold)?;
    put_opt_text(s, "trace_obj", trace_obj)?;
    put_bool(s, "drop_if_exists", drop_if_exists)?;
    put_opt_text(s, "extension", extension)?;
    put_i64(s, "assigned_now_millis", assigned_now_millis)?;
    assert(flex::flex_frames(*s).last()->Record_0 =~= fields);
    close_variant(s, Ghost(outer), Ghost("CreateTableStructured"@), Ghost(fields))
}

fn write_drop_table(
    s: &mut FlexbufferSerializer,
    table_id: u64,
) -> (r: Result<(), SerializationError>)
    requires
        can_take(
            flex::flex_frames(*old(s)),
            drop_table_value(table_id),
        ),
    ensures
        r is Ok,
        flex::flex_frames(*final(s)) == flex::with_value(
            flex::flex_frames(*old(s)),
            drop_table_value(table_id),
        ),
{
    broadcast use {lemma_entry_in_variant, lemma_written_variant, flex::lemma_entries_push};

    let ghost outer = flex::flex_frames(*s);
    let ghost fields = fields_in(drop_table_value(table_id));
    proof {
        reveal_strlit("DropTable");
        reveal_strlit("table_id");
        lemma_variant_room(outer, "DropTable"@, fields);
        assert(fields =~= Seq::empty().push(fields[0]));
        flex::lemma_record_weight(Seq::empty());
    }
    open_variant(s, "DropTable")?;
    put_u64(s, "table_id", table_id)?;
    assert(flex::flex_frames(*s).last()->Record_0 =~= fields);
    close_variant(s, Ghost(outer), Ghost("DropTable"@), Ghost(fields))
}

fn write_seal_table(
    s: &mut FlexbufferSerializer,
    table_id: u64,
) -> (r: Result<(), SerializationError>)
    requires
        can_take(
            flex::flex_frames(*old(s)),
            seal_table_value(table_id),
        ),
    ensures
        r is Ok,
        flex::flex_frames(*final(s)) == flex::with_value(
            flex::flex_frames(*old(s)),
            seal_table_value(table_id),
        ),
{
    broadcast use {lemma_entry_in_variant, lemma_written_variant, flex::lemma_entries_push};

    let ghost outer = flex::flex_frames(*s);
    let ghost fields = fields_in(seal_table_value(table_id));
    proof {
        reveal_strlit("SealTable");
        reveal_strlit("table_id");
        lemma_variant_room(outer, "SealTable"@, fields);
        assert(fields =~= Seq::empty().push(fields[0]));
        flex::lemma_record_weight(Seq::empty());
    }
    open_variant(s, "SealTable")?;
    put_u64(s, "table_id", table_id)?;
    assert(flex::flex_frames(*s).last()->Record_0 =~= fields);
    close_variant(s, Ghost(outer), Ghost("SealTable"@), Ghost(fields))
}

fn write_update_location_download_size(
    s: &mut FlexbufferSerializer,
    table_id: u64,
    location: &String,
    download_size: u64,
) -> (r: Result<(), SerializationError>)
    requires
        can_take(
            flex::flex_frames(*old(s)),
            update_location_download_size_value(table_id, location@, download_size),
        ),
    ensures
        r is Ok,
        flex::flex_frames(*final(s)) == flex::with_value(
            flex::flex_frames(*old(s)),
            update_location_download_size_value(table_id, location@, download_size),
        ),
{
    broadcast use {lemma_entry_in_variant, lemma_written_variant, flex::lemma_entries_push};

    let ghost outer = flex::flex_frames(*s);
    let ghost fields = fields_in(
        update_location_download_size_value(table_id, location@, download_size),
    );
    proof {
        reveal_strlit("UpdateLocationDownloadSize");
        reveal_strlit("table_id");
        reveal_strlit("location");
        reveal_strlit("download_size");
        lemma_variant_room(outer, "UpdateLocationDownloadSize"@, fields);
        assert(fields =~= Seq::empty().push(fields[0]).push(fields[1]).push(fields[2]));
        flex::lemma_record_weight(Seq::empty());
    }
    open_variant(s, "UpdateLocationDownloadSize")?;
    put_u64(s, "table_id", table_id)?;
    put_text(s, "location", location)?;
    put_u64(s, "download_size", download_size)?;
    assert(flex::flex_frames(*s).last()->Record_0 =~= fields);
    close_variant(s, Ghost(outer), Ghost("UpdateLocationDownloadSize"@), Ghost(fields))
}

fn write_table_ready(
    s: &mut FlexbufferSerializer,
    table_id: u64,
    is_ready: bool,
) -> (r: Result<(), SerializationError>)
    requires
        can_take(
            flex::flex_frames(*old(s)),
            table_ready_value(table_id, is_ready),
        ),
    ensures
        r is Ok,
        flex::flex_frames(*final(s)) == flex::with_value(
            flex::flex_frames(*old(s)),
            table_ready_value(table_id, is_ready),
        ),
{
    broadcast use {lemma_entry_in_variant, lemma_written_variant, flex::lemma_entries_push};

    let ghost outer = flex::flex_frames(*s);
    let ghost fields = fields_in(table_ready_value(table_id, is_ready));
    proof {
        reveal_strlit("TableReady");
        reveal_strlit("table_id");
        reveal_strlit("is_ready");
        lemma_variant_room(outer, "TableReady"@, fields);
        assert(fields =~= Seq::empty().push(fields[0]).push(fields[1]));
        flex::lemma_record_weight(Seq::empty());
    }
    open_variant(s, "TableReady")?;
    put_u64(s, "table_id", table_id)?;
    put_bool(s, "is_ready", is_ready)?;
    assert(flex::flex_frames(*s).last()->Record_0 =~= fields);
    close_variant(s, Ghost(outer), Ghost("TableReady"@), Ghost(fields))
}

fn write_create_partition(
    s: &mut FlexbufferSerializer,
    partition_blob: &Vec<u8>,
) -> (r: Result<(), SerializationError>)
    requires
        can_take(
            flex::flex_frames(*old(s)),
            create_partition_value(partition_blob@),
        ),
    ensures
        r is Ok,
        flex::flex_frames(*final(s)) == flex::with_value(
            flex::flex_frames(*old(s)),
            create_partition_value(partition_blob@),
        ),
{
    broadcast use {lemma_entry_in_variant, lemma_written_variant, flex::lemma_entries_push};

    let ghost outer = flex::flex_frames(*s);
    let ghost fields = fields_in(create_partition_value(partition_blob@));
    proof {
        reveal_strlit("CreatePartition");
        reveal_strlit("partition_blob");
        lemma_variant_room(outer, "CreatePartition"@, fields);
        assert(fields =~= Seq::empty().push(fields[0]));
        flex::lemma_record_weight(Seq::empty());
    }
    open_variant(s, "CreatePartition")?;
    put_bytes(s, "partition_blob", partition_blob)?;
    assert(flex::flex_frames(*s).last()->Record_0 =~= fields);
    close_variant(s, Ghost(outer), Ghost("CreatePartition"@), Ghost(fields))
}

fn write_delete_partition(
    s: &mut FlexbufferSerializer,
    partition_id: u64,
) -> (r: Result<(), SerializationError>)
    requires
        can_take(
            flex::flex_frames(*old(s)),
            delete_partition_value(partition_id),
        ),
    ensures
        r is Ok,
        flex::flex_frames(*final(s)) == flex::with_value(
            flex::flex_frames(*old(s)),
            delete_partition_value(partition_id),
        ),
{
    broadcast use {lemma_entry_in_variant, lemma_written_variant, flex::lemma_entries_push};

    let ghost outer = flex::flex_frames(*s);
    let ghost fields = fields_in(delete_partition_value(partition_id));
    proof {
        reveal_strlit("DeletePartition");
        reveal_strlit("partition_id");
        lemma_variant_room(outer, "DeletePartition"@, fields);
        assert(fields =~= Seq::empty().push(fields[0]));
        flex::lemma_record_weight(Seq::empty());
    }
    open_variant(s, "DeletePartition")?;
    put_u64(s, "partition_id", partition_id)?;
    assert(flex::flex_frames(*s).last()->Record_0 =~= fields);
    close_variant(s, Ghost(outer), Ghost("DeletePartition"@), Ghost(fields))
}

fn write_mark_partition_warmed_up(
    s: &mut FlexbufferSerializer,
    partition_id: u64,
) -> (r: Result<(), SerializationError>)
    requires
        can_take(
            flex::flex_frames(*old(s)),
            mark_partition_warmed_up_value(partition_id),
        ),
    ensures
        r is Ok,
        flex::flex_frames(*final(s)) == flex::with_value(
            flex::flex_frames(*old(s)),
            mark_partition_warmed_up_value(partition_id),
        ),
{
    broadcast use {lemma_entry_in_variant, lemma_written_variant, flex::lemma_entries_push};

    let ghost outer = flex::flex_frames(*s);
    let ghost fields = fields_in(mark_partition_warmed_up_value(partition_id));
    proof {
        reveal_strlit("MarkPartitionWarmedUp");
        reveal_strlit("partition_id");
        lemma_variant_room(outer, "MarkPartitionWarmedUp"@, fields);
        assert(fields =~= Seq::empty().push(fields[0]));
        flex::lemma_record_weight(Seq::empty());
    }
    open_variant(s, "MarkPartitionWarmedUp")?;
    put_u64(s, "partition_id", partition_id)?;
    assert(flex::flex_frames(*s).last()->Record_0 =~= fields);
    close_variant(s, Ghost(outer), Ghost("MarkPartitionWarmedUp"@), Ghost(fields))
}

fn write_delete_middle_man_partition(
    s: &mut FlexbufferSerializer,
    partition_id: u64,
) -> (r: Result<(), SerializationError>)
    requires
        can_take(
            flex::flex_frames(*old(s)),
            delete_middle_man_partition_value(partition_id),
        ),
    ensures
        r is Ok,
        flex::flex_frames(*final(s)) == flex::with_value(
            flex::flex_frames(*old(s)),
            delete_middle_man_partition_value(partition_id),
        ),
{
    broadcast use {lemma_entry_in_variant, lemma_written_variant, flex::lemma_entries_push};

    let ghost outer = flex::flex_frames(*s);
    let ghost fields = fields_in(delete_middle_man_partition_value(partition_id));
    proof {
        reveal_strlit("DeleteMiddleManPartition");
        reveal_strlit("partition_id");
        lemma_variant_room(outer, "DeleteMiddleManPartition"@, fields);
        assert(fields =~= Seq::empty().push(fields[0]));
        flex::lemma_record_weight(Seq::empty());
    }
    open_variant(s, "DeleteMiddleManPartition")?;
    put_u64(s, "partition_id", partition_id)?;
    assert(flex::flex_frames(*s).last()->Record_0 =~= fields);
    close_variant(s, Ghost(outer), Ghost("DeleteMiddleManPartition"@), Ghost(fields))
}

fn write_swap_active_partitions(
    s: &mut FlexbufferSerializer,
    payload_version: u16,
    payload: &Vec<u8>,
) -> (r: Result<(), SerializationError>)
    requires
        can_take(
            flex::flex_frames(*old(s)),
            swap_active_partitions_value(payload_version, payload@),
        ),
    ensures
        r is Ok,
        flex::flex_frames(*final(s)) == flex::with_value(
            flex::flex_frames(*old(s)),
            swap_active_partitions_value(payload_version, payload@),
        ),
{
    broadcast use {lemma_entry_in_variant, lemma_written_variant, flex::lemma_entries_push};

    let ghost outer = flex::flex_frames(*s);
    let ghost fields = fields_in(swap_active_partitions_value(payload_version, payload@));
    proof {
        reveal_strlit("SwapActivePartitions");
        reveal_strlit("payload_version");
        reveal_strlit("payload");
        lemma_variant_room(outer, "SwapActivePartitions"@, fields);
        assert(fields =~= Seq::empty().push(fields[0]).push(fields[1]));
        flex::lemma_record_weight(Seq::empty());
    }
    open_variant(s, "SwapActivePartitions")?;
    put_u64(s, "payload_version", payload_version as u64)?;
    put_bytes(s, "payload", payload)?;
    assert(flex::flex_frames(*s).last()->Record_0 =~= fields);
    close_variant(s, Ghost(outer), Ghost("SwapActivePartitions"@), Ghost(fields))
}

fn write_swap_active_partitions_structured(
    s: &mut FlexbufferSerializer,
    current_active_blob: &Vec<u8>,
    new_active_blob: &Vec<u8>,
    new_active_min_max_blob: &Vec<u8>,
) -> (r: Result<(), SerializationError>)
    requires
        can_take(
            flex::flex_frames(*old(s)),
            swap_active_partitions_structured_value(
                current_active_blob@,
                new_active_blob@,
                new_active_min_max_blob@,
            ),
        ),
    ensures
        r is Ok,
        flex::flex_frames(*final(s)) == flex::with_value(
            flex::flex_frames(*old(s)),
            swap_active_partitions_structured_value(
                current_active_blob@,
                new_active_blob@,
                new_active_min_max_blob@,
            ),
        ),
{
    broadcast use {lemma_entry_in_variant, lemma_written_variant, flex::lemma_entries_push};

    let ghost outer = flex::flex_frames(*s);
    let ghost fields = fields_in(
        swap_active_partitions_structured_value(
            current_active_blob@,
            new_active_blob@,
            new_active_min_max_blob@,
        ),
    );
    proof {
        reveal_strlit("SwapActivePartitionsStructured");
        reveal_strlit("current_active_blob");
        reveal_strlit("new_active_blob");
        reveal_strlit("new_active_min_max_blob");
        lemma_variant_room(outer, "SwapActivePartitionsStructured"@, fields);
        assert(fields =~= Seq::empty().push(fields[0]).push(fields[1]).push(fields[2]));
        flex::lemma_record_weight(Seq::empty());
    }
    open_variant(s, "SwapActivePartitionsStructured")?;
    put_bytes(s, "current_active_blob", current_active_blob)?;
    put_bytes(s, "new_active_blob", new_active_blob)?;
    put_bytes(s, "new_active_min_max_blob", new_active_min_max_blob)?;
    assert(flex::flex_frames(*s).last()->Record_0 =~= fields);
    close_variant(s, Ghost(outer), Ghost("SwapActivePartitionsStructured"@), Ghost(fields))
}

fn write_create_multi_partition(
    s: &mut FlexbufferSerializer,
    multi_partition_blob: &Vec<u8>,
) -> (r: Result<(), SerializationError>)
    requires
        can_take(
            flex::flex_frames(*old(s)),
            create_multi_partition_value(multi_partition_blob@),
        ),
    ensures
        r is Ok,
        flex::flex_frames(*final(s)) == flex::with_value(
            flex::flex_frames(*old(s)),
            create_multi_partition_value(multi_partition_blob@),
        ),
{
    broadcast use {lemma_entry_in_variant, lemma_written_variant, flex::lemma_entries_push};

    let ghost outer = flex::flex_frames(*s);
    let ghost fields = fields_in(create_multi_partition_value(multi_partition_blob@));
    proof {
        reveal_strlit("CreateMultiPartition");
        reveal_strlit("multi_partition_blob");
        lemma_variant_room(outer, "CreateMultiPartition"@, fields);
        assert(fields =~= Seq::empty().push(fields[0]));
        flex::lemma_record_weight(Seq::empty());
    }
    open_variant(s, "CreateMultiPartition")?;
    put_bytes(s, "multi_partition_blob", multi_partition_blob)?;
    assert(flex::flex_frames(*s).last()->Record_0 =~= fields);
    close_variant(s, Ghost(outer), Ghost("CreateMultiPartition"@), Ghost(fields))
}

fn write_commit_multi_partition_split(
    s: &mut FlexbufferSerializer,
    multi_partition_id: u64,
    new_multi_partitions: &Vec<u64>,
    new_multi_partition_rows: &Vec<u64>,
    old_partitions_blob: &Vec<u8>,
    new_partitions_blob: &Vec<u8>,
    new_partition_rows: &Vec<u64>,
    initial_split: bool,
) -> (r: Result<(), SerializationError>)
    requires
        can_take(
            flex::flex_frames(*old(s)),
            commit_multi_partition_split_value(
                multi_partition_id,
                new_multi_partitions@,
                new_multi_partition_rows@,
                old_partitions_blob@,
                new_partitions_blob@,
                new_partition_rows@,
                initial_split,
            ),
        ),
    ensures
        r is Ok,
        flex::flex_frames(*final(s)) == flex::with_value(
            flex::flex_frames(*old(s)),
            commit_multi_partition_split_value(
                multi_partition_id,
                new_multi_partitions@,
                new_multi_partition_rows@,
                old_partitions_blob@,
                new_partitions_blob@,
                new_partition_rows@,
                initial_split,
            ),
        ),
{
    broadcast use {lemma_entry_in_variant, lemma_written_variant, flex::lemma_entries_push};

    let ghost outer = flex::flex_frames(*s);
    let ghost fields = fields_in(
        commit_multi_partition_split_value(
            multi_partition_id,
            new_multi_partitions@,
            new_multi_partition_rows@,
            old_partitions_blob@,
            new_partitions_blob@,
            new_partition_rows@,
            initial_split,
        ),
    );
    proof {
        reveal_strlit("CommitMultiPartitionSplit");
        reveal_strlit("multi_partition_id");
        reveal_strlit("new_multi_partitions");
        reveal_strlit("new_multi_partition_rows");
        reveal_strlit("old_partitions_blob");
        reveal_strlit("new_partitions_blob");
        reveal_strlit("new_partition_rows");
        reveal_strlit("initial_split");
        lemma_variant_room(outer, "CommitMultiPartitionSplit"@, fields);
        assert(fields =~= Seq::empty().push(fields[0]).push(fields[1]).push(fields[2])
            .push(fields[3]).push(fields[4]).push(fields[5]).push(fields[6]));
        flex::lemma_record_weight(Seq::empty());
    }
    open_variant(s, "CommitMultiPartitionSplit")?;
    put_u64(s, "multi_partition_id", multi_partition_id)?;
    put_u64s(s, "new_multi_partitions", new_multi_partitions)?;
    put_u64s(s, "new_multi_partition_rows", new_multi_partition_rows)?;
    put_bytes(s, "old_partitions_blob", old_partitions_blob)?;
    put_bytes(s, "new_partitions_blob", new_partitions_blob)?;
    put_u64s(s, "new_partition_rows", new_partition_rows)?;
    put_bool(s, "initial_split", initial_split)?;
    assert(flex::flex_frames(*s).last()->Record_0 =~= fields);
    close_variant(s, Ghost(outer), Ghost("CommitMultiPartitionSplit"@), Ghost(fields))
}

fn write_create_index(
    s: &mut FlexbufferSerializer,
    schema_name: &String,
    table_name: &String,
    index_def_blob: &Vec<u8>,
) -> (r: Result<(), SerializationError>)
    requires
        can_take(
            flex::flex_frames(*old(s)),
            create_index_value(schema_name@, table_name@, index_def_blob@),
        ),
    ensures
        r is Ok,
        flex::flex_frames(*final(s)) == flex::with_value(
            flex::flex_frames(*old(s)),
            create_index_value(schema_name@, table_name@, index_def_blob@),
        ),
{
    broadcast use {lemma_entry_in_variant, lemma_written_variant, flex::lemma_entries_push};

    let ghost outer = flex::flex_frames(*s);
    let ghost fields = fields_in(create_index_value(schema_name@, table_name@, index_def_blob@));
    proof {
        reveal_strlit("CreateIndex");
        reveal_strlit("schema_name");
        reveal_strlit("table_name");
        reveal_strlit("index_def_blob");
        lemma_variant_room(outer, "CreateIndex"@, fields);
        assert(fields =~= Seq::empty().push(fields[0]).push(fields[1]).push(fields[2]));
        flex::lemma_record_weight(Seq::empty());
    }
    open_variant(s, "CreateIndex")?;
    put_text(s, "schema_name", schema_name)?;
    put_text(s, "table_name", table_name)?;
    put_bytes(s, "index_def_blob", index_def_blob)?;
    assert(flex::flex_frames(*s).last()->Record_0 =~= fields);
    close_variant(s, Ghost(outer), Ghost("CreateIndex"@), Ghost(fields))
}

fn write_create_partitioned_index(
    s: &mut FlexbufferSerializer,
    schema: &String,
    name: &String,
    columns_blob: &Vec<u8>,
    if_not_exists: bool,
) -> (r: Result<(), SerializationError>)
    requires
        can_take(
            flex::flex_frames(*old(s)),
            create_partitioned_index_value(schema@, name@, columns_blob@, if_not_exists),
        ),
    ensures
        r is Ok,
        flex::flex_frames(*final(s)) == flex::with_value(
            flex::flex_frames(*old(s)),
            create_partitioned_index_value(schema@, name@, columns_blob@, if_not_exists),
        ),
{
    broadcast use {lemma_entry_in_variant, lemma_written_variant, flex::lemma_entries_push};

    let ghost outer = flex::flex_frames(*s);
    let ghost fields = fields_in(
        create_partitioned_index_value(schema@, name@, columns_blob@, if_not_exists),
    );
    proof {
        reveal_strlit("CreatePartitionedIndex");
        reveal_strlit("schema");
        reveal_strlit("name");
        reveal_strlit("columns_blob");
        reveal_strlit("if_not_exists");
        lemma_variant_room(outer, "CreatePartitionedIndex"@, fields);
        assert(fields =~= Seq::empty().push(fields[0]).push(fields[1]).push(fields[2])
            .push(fields[3]));
        flex::lemma_record_weight(Seq::empty());
    }
    open_variant(s, "CreatePartitionedIndex")?;
    put_text(s, "schema", schema)?;
    put_text(s, "name", name)?;
    put_bytes(s, "columns_blob", columns_blob)?;
    put_bool(s, "if_not_exists", if_not_exists)?;
    assert(flex::flex_frames(*s).last()->Record_0 =~= fields);
    close_variant(s, Ghost(outer), Ghost("CreatePartitionedIndex"@), Ghost(fields))
}

fn write_drop_partitioned_index(
    s: &mut FlexbufferSerializer,
    schema: &String,
    name: &String,
) -> (r: Result<(), SerializationError>)
    requires
        can_take(
            flex::flex_frames(*old(s)),
            drop_partitioned_index_value(schema@, name@),
        ),
    ensures
        r is Ok,
        flex::flex_frames(*final(s)) == flex::with_value(
            flex::flex_frames(*old(s)),
            drop_partitioned_index_value(schema@, name@),
        ),
{
    broadcast use {lemma_entry_in_variant, lemma_written_variant, flex::lemma_entries_push};

    let ghost outer = flex::flex_frames(*s);
    let ghost fields = fields_in(drop_partitioned_index_value(schema@, name@));
    proof {
        reveal_strlit("DropPartitionedIndex");
        reveal_strlit("schema");
        reveal_strlit("name");
        lemma_variant_room(outer, "DropPartitionedIndex"@, fields);
        assert(fields =~= Seq::empty().push(fields[0]).push(fields[1]));
        flex::lemma_record_weight(Seq::empty());
    }
    open_variant(s, "DropPartitionedIndex")?;
    put_text(s, "schema", schema)?;
    put_text(s, "name", name)?;
    assert(flex::flex_frames(*s).last()->Record_0 =~= fields);
    close_variant(s, Ghost(outer), Ghost("DropPartitionedIndex"@), Ghost(fields))
}

fn write_create_chunk(
    s: &mut FlexbufferSerializer,
    chunk_blob: &Vec<u8>,
) -> (r: Result<(), SerializationError>)
    requires
        can_take(
            flex::flex_frames(*old(s)),
            create_chunk_value(chunk_blob@),
        ),
    ensures
        r is Ok,
        flex::flex_frames(*final(s)) == flex::with_value(
            flex::flex_frames(*old(s)),
            create_chunk_value(chunk_blob@),
        ),
{
    broadcast use {lemma_entry_in_variant, lemma_written_variant, flex::lemma_entries_push};

    let ghost outer = flex::flex_frames(*s);
    let ghost fields = fields_in(create_chunk_value(chunk_blob@));
    proof {
        reveal_strlit("CreateChunk");
        reveal_strlit("chunk_blob");
        lemma_variant_room(outer, "CreateChunk"@, fields);
        assert(fields =~= Seq::empty().push(fields[0]));
        flex::lemma_record_weight(Seq::empty());
    }
    open_variant(s, "CreateChunk")?;
    put_bytes(s, "chunk_blob", chunk_blob)?;
    assert(flex::flex_frames(*s).last()->Record_0 =~= fields);
    close_variant(s, Ghost(outer), Ghost("CreateChunk"@), Ghost(fields))
}

fn write_insert_chunks(
    s: &mut FlexbufferSerializer,
    chunks_blob: &Vec<u8>,
) -> (r: Result<(), SerializationError>)
    requires
        can_take(
            flex::flex_frames(*old(s)),
            insert_chunks_value(chunks_blob@),
        ),
    ensures
        r is Ok,
        flex::flex_frames(*final(s)) == flex::with_value(
            flex::flex_frames(*old(s)),
            insert_chunks_value(chunks_blob@),
        ),
{
    broadcast use {lemma_entry_in_variant, lemma_written_variant, flex::lemma_entries_push};

    let ghost outer = flex::flex_frames(*s);
    let ghost fields = fields_in(insert_chunks_value(chunks_blob@));
    proof {
        reveal_strlit("InsertChunks");
        reveal_strlit("chunks_blob");
        lemma_variant_room(outer, "InsertChunks"@, fields);
        assert(fields =~= Seq::empty().push(fields[0]));
        flex::lemma_record_weight(Seq::empty());
    }
    open_variant(s, "InsertChunks")?;
    put_bytes(s, "chunks_blob", chunks_blob)?;
    assert(flex::flex_frames(*s).last()->Record_0 =~= fields);
    close_variant(s, Ghost(outer), Ghost("InsertChunks"@), Ghost(fields))
}

fn write_swap_compacted_chunks(
    s: &mut FlexbufferSerializer,
    partition_id: u64,
    old_chunk_ids: &Vec<u64>,
    new_chunk: u64,
    new_chunk_file_size: u64,
) -> (r: Result<(), SerializationError>)
    requires
        can_take(
            flex::flex_frames(*old(s)),
            swap_compacted_chunks_value(
                partition_id,
                old_chunk_ids@,
                new_chunk,
                new_chunk_file_size,
            ),
        ),
    ensures
        r is Ok,
        flex::flex_frames(*final(s)) == flex::with_value(
            flex::flex_frames(*old(s)),
            swap_compacted_chunks_value(
                partition_id,
                old_chunk_ids@,
                new_chunk,
                new_chunk_file_size,
            ),
        ),
{
    broadcast use {lemma_entry_in_variant, lemma_written_variant, flex::lemma_entries_push};

    let ghost outer = flex::flex_frames(*s);
    let ghost fields = fields_in(
        swap_compacted_chunks_value(partition_id, old_chunk_ids@, new_chunk, new_chunk_file_size),
    );
    proof {
        reveal_strlit("SwapCompactedChunks");
        reveal_strlit("partition_id");
        reveal_strlit("old_chunk_ids");
        reveal_strlit("new_chunk");
        reveal_strlit("new_chunk_file_size");
        lemma_variant_room(outer, "SwapCompactedChunks"@, fields);
        assert(fields =~= Seq::empty().push(fields[0]).push(fields[1]).push(fields[2])
            .push(fields[3]));
        flex::lemma_record_weight(Seq::empty());
    }
    open_variant(s, "SwapCompactedChunks")?;
    put_u64(s, "partition_id", partition_id)?;
    put_u64s(s, "old_chunk_ids", old_chunk_ids)?;
    put_u64(s, "new_chunk", new_chunk)?;
    put_u64(s, "new_chunk_file_size", new_chunk_file_size)?;
    assert(flex::flex_frames(*s).last()->Record_0 =~= fields);
    close_variant(s, Ghost(outer), Ghost("SwapCompactedChunks"@), Ghost(fields))
}

fn write_delete_chunk(
    s: &mut FlexbufferSerializer,
    chunk_id: u64,
) -> (r: Result<(), SerializationError>)
    requires
        can_take(
            flex::flex_frames(*old(s)),
            delete_chunk_value(chunk_id),
        ),
    ensures
        r is Ok,
        flex::flex_frames(*final(s)) == flex::with_value(
            flex::flex_frames(*old(s)),
            delete_chunk_value(chunk_id),
        ),
{
    broadcast use {lemma_entry_in_variant, lemma_written_variant, flex::lemma_entries_push};

    let ghost outer = flex::flex_frames(*s);
    let ghost fields = fields_in(delete_chunk_value(chunk_id));
    proof {
        reveal_strlit("DeleteChunk");
        reveal_strlit("chunk_id");
        lemma_variant_room(outer, "DeleteChunk"@, fields);
        assert(fields =~= Seq::empty().push(fields[0]));
        flex::lemma_record_weight(Seq::empty());
    }
    open_variant(s, "DeleteChunk")?;
    put_u64(s, "chunk_id", chunk_id)?;
    assert(flex::flex_frames(*s).last()->Record_0 =~= fields);
    close_variant(s, Ghost(outer), Ghost("DeleteChunk"@), Ghost(fields))
}

fn write_delete_chunks_without_checks(
    s: &mut FlexbufferSerializer,
    chunk_ids: &Vec<u64>,
) -> (r: Result<(), SerializationError>)
    requires
        can_take(
            flex::flex_frames(*old(s)),
            delete_chunks_without_checks_value(chunk_ids@),
        ),
    ensures
        r is Ok,
        flex::flex_frames(*final(s)) == flex::with_value(
            flex::flex_frames(*old(s)),
            delete_chunks_without_checks_value(chunk_ids@),
        ),
{
    broadcast use {lemma_entry_in_variant, lemma_written_variant, flex::lemma_entries_push};

    let ghost outer = flex::flex_frames(*s);
    let ghost fields = fields_in(delete_chunks_without_checks_value(chunk_ids@));
    proof {
        reveal_strlit("DeleteChunksWithoutChecks");
        reveal_strlit("chunk_ids");
        lemma_variant_room(outer, "DeleteChunksWithoutChecks"@, fields);
        assert(fields =~= Seq::empty().push(fields[0]));
        flex::lemma_record_weight(Seq::empty());
    }
    open_variant(s, "DeleteChunksWithoutChecks")?;
    put_u64s(s, "chunk_ids", chunk_ids)?;
    assert(flex::flex_frames(*s).last()->Record_0 =~= fields);
    close_variant(s, Ghost(outer), Ghost("DeleteChunksWithoutChecks"@), Ghost(fields))
}

fn write_chunk_uploaded(
    s: &mut FlexbufferSerializer,
    chunk_id: u64,
) -> (r: Result<(), SerializationError>)
    requires
        can_take(
            flex::flex_frames(*old(s)),
            chunk_uploaded_value(chunk_id),
        ),
    ensures
        r is Ok,
        flex::flex_frames(*final(s)) == flex::with_value(
            flex::flex_frames(*old(s)),
            chunk_uploaded_value(chunk_id),
        ),
{
    broadcast use {lemma_entry_in_variant, lemma_written_variant, flex::lemma_entries_push};

    let ghost outer = flex::flex_frames(*s);
    let ghost fields = fields_in(chunk_uploaded_value(chunk_id));
    proof {
        reveal_strlit("ChunkUploaded");
        reveal_strlit("chunk_id");
        lemma_variant_room(outer, "ChunkUploaded"@, fields);
        assert(fields =~= Seq::empty().push(fields[0]));
        flex::lemma_record_weight(Seq::empty());
    }
    open_variant(s, "ChunkUploaded")?;
    put_u64(s, "chunk_id", chunk_id)?;
    assert(flex::flex_frames(*s).last()->Record_0 =~= fields);
    close_variant(s, Ghost(outer), Ghost("ChunkUploaded"@), Ghost(fields))
}

fn write_chunk_update_last_inserted(
    s: &mut FlexbufferSerializer,
    chunk_ids: &Vec<u64>,
    last_inserted_at_millis: Option<i64>,
) -> (r: Result<(), SerializationError>)
    requires
        can_take(
            flex::flex_frames(*old(s)),
            chunk_update_last_inserted_value(chunk_ids@, last_inserted_at_millis),
        ),
    ensures
        r is Ok,
        flex::flex_frames(*final(s)) == flex::with_value(
            flex::flex_frames(*old(s)),
            chunk_update_last_inserted_value(chunk_ids@, last_inserted_at_millis),
        ),
{
    broadcast use {lemma_entry_in_variant, lemma_written_variant, flex::lemma_entries_push};

    let ghost outer = flex::flex_frames(*s);
    let ghost fields = fields_in(
        chunk_update_last_inserted_value(chunk_ids@, last_inserted_at_millis),
    );
    proof {
        reveal_strlit("ChunkUpdateLastInserted");
        reveal_strlit("chunk_ids");
        reveal_strlit("last_inserted_at_millis");
        lemma_variant_room(outer, "ChunkUpdateLastInserted"@, fields);
        assert(fields =~= Seq::empty().push(fields[0]).push(fields[1]));
        flex::lemma_record_weight(Seq::empty());
    }
    open_variant(s, "ChunkUpdateLastInserted")?;
    put_u64s(s, "chunk_ids", chunk_ids)?;
    put_opt_i64(s, "last_inserted_at_millis", last_inserted_at_millis)?;
    assert(flex::flex_frames(*s).last()->Record_0 =~= fields);
    close_variant(s, Ghost(outer), Ghost("ChunkUpdateLastInserted"@), Ghost(fields))
}

fn write_swap_chunks(
    s: &mut FlexbufferSerializer,
    deactivate_ids: &Vec<u64>,
    uploaded_ids_and_sizes: &Vec<(u64, Option<u64>)>,
    new_replay_handle_id: Option<u64>,
) -> (r: Result<(), SerializationError>)
    requires
        can_take(
            flex::flex_frames(*old(s)),
            swap_chunks_value(deactivate_ids@, uploaded_ids_and_sizes@, new_replay_handle_id),
        ),
    ensures
        r is Ok,
        flex::flex_frames(*final(s)) == flex::with_value(
            flex::flex_frames(*old(s)),
            swap_chunks_value(deactivate_ids@, uploaded_ids_and_sizes@, new_replay_handle_id),
        ),
{
    broadcast use {lemma_entry_in_variant, lemma_written_variant, flex::lemma_entries_push};

    let ghost outer = flex::flex_frames(*s);
    let ghost fields = fields_in(
        swap_chunks_value(deactivate_ids@, uploaded_ids_and_sizes@, new_replay_handle_id),
    );
    proof {
        reveal_strlit("SwapChunks");
        reveal_strlit("deactivate_ids");
        reveal_strlit("uploaded_ids_and_sizes");
        reveal_strlit("new_replay_handle_id");
        lemma_variant_room(outer, "SwapChunks"@, fields);
        assert(fields =~= Seq::empty().push(fields[0]).push(fields[1]).push(fields[2]));
        flex::lemma_record_weight(Seq::empty());
    }
    open_variant(s, "SwapChunks")?;
    put_u64s(s, "deactivate_ids", deactivate_ids)?;
    put_id_sizes(s, "uploaded_ids_and_sizes", uploaded_ids_and_sizes)?;
    put_opt_u64(s, "new_replay_handle_id", new_replay_handle_id)?;
    assert(flex::flex_frames(*s).last()->Record_0 =~= fields);
    close_variant(s, Ghost(outer), Ghost("SwapChunks"@), Ghost(fields))
}

fn write_swap_chunks_without_check(
    s: &mut FlexbufferSerializer,
    deactivate_ids: &Vec<u64>,
    uploaded_ids_and_sizes: &Vec<(u64, Option<u64>)>,
    new_replay_handle_id: Option<u64>,
) -> (r: Result<(), SerializationError>)
    requires
        can_take(
            flex::flex_frames(*old(s)),
            swap_chunks_without_check_value(
                deactivate_ids@,
                uploaded_ids_and_sizes@,
                new_replay_handle_id,
            ),
        ),
    ensures
        r is Ok,
        flex::flex_frames(*final(s)) == flex::with_value(
            flex::flex_frames(*old(s)),
            swap_chunks_without_check_value(
                deactivate_ids@,
                uploaded_ids_and_sizes@,
                new_replay_handle_id,
            ),
        ),
{
    broadcast use {lemma_entry_in_variant, lemma_written_variant, flex::lemma_entries_push};

    let ghost outer = flex::flex_frames(*s);
    let ghost fields = fields_in(
        swap_chunks_without_check_value(
            deactivate_ids@,
            uploaded_ids_and_sizes@,
            new_replay_handle_id,
        ),
    );
    proof {
        reveal_strlit("SwapChunksWithoutCheck");
        reveal_strlit("deactivate_ids");
        reveal_strlit("uploaded_ids_and_sizes");
        reveal_strlit("new_replay_handle_id");
        lemma_variant_room(outer, "SwapChunksWithoutCheck"@, fields);
        assert(fields =~= Seq::empty().push(fields[0]).push(fields[1]).push(fields[2]));
        flex::lemma_record_weight(Seq::empty());
    }
    open_variant(s, "SwapChunksWithoutCheck")?;
    put_u64s(s, "deactivate_ids", deactivate_ids)?;
    put_id_sizes(s, "uploaded_ids_and_sizes", uploaded_ids_and_sizes)?;
    put_opt_u64(s, "new_replay_handle_id", new_replay_handle_id)?;
    assert(flex::flex_frames(*s).last()->Record_0 =~= fields);
    close_variant(s, Ghost(outer), Ghost("SwapChunksWithoutCheck"@), Ghost(fields))
}

fn write_activate_chunks(
    s: &mut FlexbufferSerializer,
    table_id: u64,
    uploaded_chunk_ids: &Vec<(u64, Option<u64>)>,
    replay_handle_id: Option<u64>,
) -> (r: Result<(), SerializationError>)
    requires
        can_take(
            flex::flex_frames(*old(s)),
            activate_chunks_value(table_id, uploaded_chunk_ids@, replay_handle_id),
        ),
    ensures
        r is Ok,
        flex::flex_frames(*final(s)) == flex::with_value(
            flex::flex_frames(*old(s)),
            activate_chunks_value(table_id, uploaded_chunk_ids@, replay_handle_id),
        ),
{
    broadcast use {lemma_entry_in_variant, lemma_written_variant, flex::lemma_entries_push};

    let ghost outer = flex::flex_frames(*s);
    let ghost fields = fields_in(
        activate_chunks_value(table_id, uploaded_chunk_ids@, replay_handle_id),
    );
    proof {
        reveal_strlit("ActivateChunks");
        reveal_strlit("table_id");
        reveal_strlit("uploaded_chunk_ids");
        reveal_strlit("replay_handle_id");
        lemma_variant_room(outer, "ActivateChunks"@, fields);
        assert(fields =~= Seq::empty().push(fields[0]).push(fields[1]).push(fields[2]));
        flex::lemma_record_weight(Seq::empty());
    }
    open_variant(s, "ActivateChunks")?;
    put_u64(s, "table_id", table_id)?;
    put_id_sizes(s, "uploaded_chunk_ids", uploaded_chunk_ids)?;
    put_opt_u64(s, "replay_handle_id", replay_handle_id)?;
    assert(flex::flex_frames(*s).last()->Record_0 =~= fields);
    close_variant(s, Ghost(outer), Ghost("ActivateChunks"@), Ghost(fields))
}

fn write_deactivate_chunk(
    s: &mut FlexbufferSerializer,
    chunk_id: u64,
    assigned_now_millis: i64,
) -> (r: Result<(), SerializationError>)
    requires
        can_take(
            flex::flex_frames(*old(s)),
            deactivate_chunk_value(chunk_id, assigned_now_millis),
        ),
    ensures
        r is Ok,
        flex::flex_frames(*final(s)) == flex::with_value(
            flex::flex_frames(*old(s)),
            deactivate_chunk_value(chunk_id, assigned_now_millis),
        ),
{
    broadcast use {lemma_entry_in_variant, lemma_written_variant, flex::lemma_entries_push};

    let ghost outer = flex::flex_frames(*s);
    let ghost fields = fields_in(deactivate_chunk_value(chunk_id, assigned_now_millis));
    proof {
        reveal_strlit("DeactivateChunk");
        reveal_strlit("chunk_id");
        reveal_strlit("assigned_now_millis");
        lemma_variant_room(outer, "DeactivateChunk"@, fields);
        assert(fields =~= Seq::empty().push(fields[0]).push(fields[1]));
        flex::lemma_record_weight(Seq::empty());
    }
    open_variant(s, "DeactivateChunk")?;
    put_u64(s, "chunk_id", chunk_id)?;
    put_i64(s, "assigned_now_millis", assigned_now_millis)?;
    assert(flex::flex_frames(*s).last()->Record_0 =~= fields);
    close_variant(s, Ghost(outer), Ghost("DeactivateChunk"@), Ghost(fields))
}

fn write_deactivate_chunks(
    s: &mut FlexbufferSerializer,
    chunk_ids: &Vec<u64>,
    assigned_now_millis: i64,
) -> (r: Result<(), SerializationError>)
    requires
        can_take(
            flex::flex_frames(*old(s)),
            deactivate_chunks_value(chunk_ids@, assigned_now_millis),
        ),
    ensures
        r is Ok,
        flex::flex_frames(*final(s)) == flex::with_value(
            flex::flex_frames(*old(s)),
            deactivate_chunks_value(chunk_ids@, assigned_now_millis),
        ),
{
    broadcast use {lemma_entry_in_variant, lemma_written_variant, flex::lemma_entries_push};

    let ghost outer = flex::flex_frames(*s);
    let ghost fields = fields_in(deactivate_chunks_value(chunk_ids@, assigned_now_millis));
    proof {
        reveal_strlit("DeactivateChunks");
        reveal_strlit("chunk_ids");
        reveal_strlit("assigned_now_millis");
        lemma_variant_room(outer, "DeactivateChunks"@, fields);
        assert(fields =~= Seq::empty().push(fields[0]).push(fields[1]));
        flex::lemma_record_weight(Seq::empty());
    }
    open_variant(s, "DeactivateChunks")?;
    put_u64s(s, "chunk_ids", chunk_ids)?;
    put_i64(s, "assigned_now_millis", assigned_now_millis)?;
    assert(flex::flex_frames(*s).last()->Record_0 =~= fields);
    close_variant(s, Ghost(outer), Ghost("DeactivateChunks"@), Ghost(fields))
}

fn write_deactivate_chunks_without_check(
    s: &mut FlexbufferSerializer,
    deactivate_ids: &Vec<u64>,
) -> (r: Result<(), SerializationError>)
    requires
        can_take(
            flex::flex_frames(*old(s)),
            deactivate_chunks_without_check_value(deactivate_ids@),
        ),
    ensures
        r is Ok,
        flex::flex_frames(*final(s)) == flex::with_value(
            flex::flex_frames(*old(s)),
            deactivate_chunks_without_check_value(deactivate_ids@),
        ),
{
    broadcast use {lemma_entry_in_variant, lemma_written_variant, flex::lemma_entries_push};

    let ghost outer = flex::flex_frames(*s);
    let ghost fields = fields_in(deactivate_chunks_without_check_value(deactivate_ids@));
    proof {
        reveal_strlit("DeactivateChunksWithoutCheck");
        reveal_strlit("deactivate_ids");
        lemma_variant_room(outer, "DeactivateChunksWithoutCheck"@, fields);
        assert(fields =~= Seq::empty().push(fields[0]));
        flex::lemma_record_weight(Seq::empty());
    }
    open_variant(s, "DeactivateChunksWithoutCheck")?;
    put_u64s(s, "deactivate_ids", deactivate_ids)?;
    assert(flex::flex_frames(*s).last()->Record_0 =~= fields);
    close_variant(s, Ghost(outer), Ghost("DeactivateChunksWithoutCheck"@), Ghost(fields))
}

fn write_create_wal(
    s: &mut FlexbufferSerializer,
    table_id: u64,
    row_count: u64,
) -> (r: Result<(), SerializationError>)
    requires
        can_take(
            flex::flex_frames(*old(s)),
            create_wal_value(table_id, row_count),
        ),
    ensures
        r is Ok,
        flex::flex_frames(*final(s)) == flex::with_value(
            flex::flex_frames(*old(s)),
            create_wal_value(table_id, row_count),
        ),
{
    broadcast use {lemma_entry_in_variant, lemma_written_variant, flex::lemma_entries_push};

    let ghost outer = flex::flex_frames(*s);
    let ghost fields = fields_in(create_wal_value(table_id, row_count));
    proof {
        reveal_strlit("CreateWal");
        reveal_strlit("table_id");
        reveal_strlit("row_count");
        lemma_variant_room(outer, "CreateWal"@, fields);
        assert(fields =~= Seq::empty().push(fields[0]).push(fields[1]));
        flex::lemma_record_weight(Seq::empty());
    }
    open_variant(s, "CreateWal")?;
    put_u64(s, "table_id", table_id)?;
    put_u64(s, "row_count", row_count)?;
    assert(flex::flex_frames(*s).last()->Record_0 =~= fields);
    close_variant(s, Ghost(outer), Ghost("CreateWal"@), Ghost(fields))
}

fn write_delete_wal(
    s: &mut FlexbufferSerializer,
    wal_id: u64,
) -> (r: Result<(), SerializationError>)
    requires
        can_take(
            flex::flex_frames(*old(s)),
            delete_wal_value(wal_id),
        ),
    ensures
        r is Ok,
        flex::flex_frames(*final(s)) == flex::with_value(
            flex::flex_frames(*old(s)),
            delete_wal_value(wal_id),
        ),
{
    broadcast use {lemma_entry_in_variant, lemma_written_variant, flex::lemma_entries_push};

    let ghost outer = flex::flex_frames(*s);
    let ghost fields = fields_in(delete_wal_value(wal_id));
    proof {
        reveal_strlit("DeleteWal");
        reveal_strlit("wal_id");
        lemma_variant_room(outer, "DeleteWal"@, fields);
        assert(fields =~= Seq::empty().push(fields[0]));
        flex::lemma_record_weight(Seq::empty());
    }
    open_variant(s, "DeleteWal")?;
    put_u64(s, "wal_id", wal_id)?;
    assert(flex::flex_frames(*s).last()->Record_0 =~= fields);
    close_variant(s, Ghost(outer), Ghost("DeleteWal"@), Ghost(fields))
}

fn write_wal_uploaded(
    s: &mut FlexbufferSerializer,
    wal_id: u64,
) -> (r: Result<(), SerializationError>)
    requires
        can_take(
            flex::flex_frames(*old(s)),
            wal_uploaded_value(wal_id),
        ),
    ensures
        r is Ok,
        flex::flex_frames(*final(s)) == flex::with_value(
            flex::flex_frames(*old(s)),
            wal_uploaded_value(wal_id),
        ),
{
    broadcast use {lemma_entry_in_variant, lemma_written_variant, flex::lemma_entries_push};

    let ghost outer = flex::flex_frames(*s);
    let ghost fields = fields_in(wal_uploaded_value(wal_id));
    proof {
        reveal_strlit("WalUploaded");
        reveal_strlit("wal_id");
        lemma_variant_room(outer, "WalUploaded"@, fields);
        assert(fields =~= Seq::empty().push(fields[0]));
        flex::lemma_record_weight(Seq::empty());
    }
    open_variant(s, "WalUploaded")?;
    put_u64(s, "wal_id", wal_id)?;
    assert(flex::flex_frames(*s).last()->Record_0 =~= fields);
    close_variant(s, Ghost(outer), Ghost("WalUploaded"@), Ghost(fields))
}

fn write_add_job(
    s: &mut FlexbufferSerializer,
    job_blob: &Vec<u8>,
) -> (r: Result<(), SerializationError>)
    requires
        can_take(
            flex::flex_frames(*old(s)),
            add_job_value(job_blob@),
        ),
    ensures
        r is Ok,
        flex::flex_frames(*final(s)) == flex::with_value(
            flex::flex_frames(*old(s)),
            add_job_value(job_blob@),
        ),
{
    broadcast use {lemma_entry_in_variant, lemma_written_variant, flex::lemma_entries_push};

    let ghost outer = flex::flex_frames(*s);
    let ghost fields = fields_in(add_job_value(job_blob@));
    proof {
        reveal_strlit("AddJob");
        reveal_strlit("job_blob");
        lemma_variant_room(outer, "AddJob"@, fields);
        assert(fields =~= Seq::empty().push(fields[0]));
        flex::lemma_record_weight(Seq::empty());
    }
    open_variant(s, "AddJob")?;
    put_bytes(s, "job_blob", job_blob)?;
    assert(flex::flex_frames(*s).last()->Record_0 =~= fields);
    close_variant(s, Ghost(outer), Ghost("AddJob"@), Ghost(fields))
}

fn write_delete_job(
    s: &mut FlexbufferSerializer,
    job_id: u64,
) -> (r: Result<(), SerializationError>)
    requires
        can_take(
            flex::flex_frames(*old(s)),
            delete_job_value(job_id),
        ),
    ensures
        r is Ok,
        flex::flex_frames(*final(s)) == flex::with_value(
            flex::flex_frames(*old(s)),
            delete_job_value(job_id),
        ),
{
    broadcast use {lemma_entry_in_variant, lemma_written_variant, flex::lemma_entries_push};

    let ghost outer = flex::flex_frames(*s);
    let ghost fields = fields_in(delete_job_value(job_id));
    proof {
        reveal_strlit("DeleteJob");
        reveal_strlit("job_id");
        lemma_variant_room(outer, "DeleteJob"@, fields);
        assert(fields =~= Seq::empty().push(fields[0]));
        flex::lemma_record_weight(Seq::empty());
    }
    open_variant(s, "DeleteJob")?;
    put_u64(s, "job_id", job_id)?;
    assert(flex::flex_frames(*s).last()->Record_0 =~= fields);
    close_variant(s, Ghost(outer), Ghost("DeleteJob"@), Ghost(fields))
}

fn write_start_processing_job(
    s: &mut FlexbufferSerializer,
    server_name: &String,
    long_term: bool,
    assigned_now_millis: i64,
) -> (r: Result<(), SerializationError>)
    requires
        can_take(
            flex::flex_frames(*old(s)),
            start_processing_job_value(server_name@, long_term, assigned_now_millis),
        ),
    ensures
        r is Ok,
        flex::flex_frames(*final(s)) == flex::with_value(
            flex::flex_frames(*old(s)),
            start_processing_job_value(server_name@, long_term, assigned_now_millis),
        ),
{
    broadcast use {lemma_entry_in_variant, lemma_written_variant, flex::lemma_entries_push};

    let ghost outer = flex::flex_frames(*s);
    let ghost fields = fields_in(
        start_processing_job_value(server_name@, long_term, assigned_now_millis),
    );
    proof {
        reveal_strlit("StartProcessingJob");
        reveal_strlit("server_name");
        reveal_strlit("long_term");
        reveal_strlit("assigned_now_millis");
        lemma_variant_room(outer, "StartProcessingJob"@, fields);
        assert(fields =~= Seq::empty().push(fields[0]).push(fields[1]).push(fields[2]));
        flex::lemma_record_weight(Seq::empty());
    }
    open_variant(s, "StartProcessingJob")?;
    put_text(s, "server_name", server_name)?;
    put_bool(s, "long_term", long_term)?;
    put_i64(s, "assigned_now_millis", assigned_now_millis)?;
    assert(flex::flex_frames(*s).last()->Record_0 =~= fields);
    close_variant(s, Ghost(outer), Ghost("StartProcessingJob"@), Ghost(fields))
}

fn write_update_status(
    s: &mut FlexbufferSerializer,
    job_id: u64,
    status_blob: &Vec<u8>,
    assigned_now_millis: i64,
) -> (r: Result<(), SerializationError>)
    requires
        can_take(
            flex::flex_frames(*old(s)),
            update_status_value(job_id, status_blob@, assigned_now_millis),
        ),
    ensures
        r is Ok,
        flex::flex_frames(*final(s)) == flex::with_value(
            flex::flex_frames(*old(s)),
            update_status_value(job_id, status_blob@, assigned_now_millis),
        ),
{
    broadcast use {lemma_entry_in_variant, lemma_written_variant, flex::lemma_entries_push};

    let ghost outer = flex::flex_frames(*s);
    let ghost fields = fields_in(update_status_value(job_id, status_blob@, assigned_now_millis));
    proof {
        reveal_strlit("UpdateStatus");
        reveal_strlit("job_id");
        reveal_strlit("status_blob");
        reveal_strlit("assigned_now_millis");
        lemma_variant_room(outer, "UpdateStatus"@, fields);
        assert(fields =~= Seq::empty().push(fields[0]).push(fields[1]).push(fields[2]));
        flex::lemma_record_weight(Seq::empty());
    }
    open_variant(s, "UpdateStatus")?;
    put_u64(s, "job_id", job_id)?;
    put_bytes(s, "status_blob", status_blob)?;
    put_i64(s, "assigned_now_millis", assigned_now_millis)?;
    assert(flex::flex_frames(*s).last()->Record_0 =~= fields);
    close_variant(s, Ghost(outer), Ghost("UpdateStatus"@), Ghost(fields))
}

fn write_update_heart_beat(
    s: &mut FlexbufferSerializer,
    job_id: u64,
    assigned_now_millis: i64,
) -> (r: Result<(), SerializationError>)
    requires
        can_take(
            flex::flex_frames(*old(s)),
            update_heart_beat_value(job_id, assigned_now_millis),
        ),
    ensures
        r is Ok,
        flex::flex_frames(*final(s)) == flex::with_value(
            flex::flex_frames(*old(s)),
            update_heart_beat_value(job_id, assigned_now_millis),
        ),
{
    broadcast use {lemma_entry_in_variant, lemma_written_variant, flex::lemma_entries_push};

    let ghost outer = flex::flex_frames(*s);
    let ghost fields = fields_in(update_heart_beat_value(job_id, assigned_now_millis));
    proof {
        reveal_strlit("UpdateHeartBeat");
        reveal_strlit("job_id");
        reveal_strlit("assigned_now_millis");
        lemma_variant_room(outer, "UpdateHeartBeat"@, fields);
        assert(fields =~= Seq::empty().push(fields[0]).push(fields[1]));
        flex::lemma_record_weight(Seq::empty());
    }
    open_variant(s, "UpdateHeartBeat")?;
    put_u64(s, "job_id", job_id)?;
    put_i64(s, "assigned_now_millis", assigned_now_millis)?;
    assert(flex::flex_frames(*s).last()->Record_0 =~= fields);
    close_variant(s, Ghost(outer), Ghost("UpdateHeartBeat"@), Ghost(fields))
}

fn write_create_or_update_source(
    s: &mut FlexbufferSerializer,
    name: &String,
    credentials_blob: &Vec<u8>,
) -> (r: Result<(), SerializationError>)
    requires
        can_take(
            flex::flex_frames(*old(s)),
            create_or_update_source_value(name@, credentials_blob@),
        ),
    ensures
        r is Ok,
        flex::flex_frames(*final(s)) == flex::with_value(
            flex::flex_frames(*old(s)),
            create_or_update_source_value(name@, credentials_blob@),
        ),
{
    broadcast use {lemma_entry_in_variant, lemma_written_variant, flex::lemma_entries_push};

    let ghost outer = flex::flex_frames(*s);
    let ghost fields = fields_in(create_or_update_source_value(name@, credentials_blob@));
    proof {
        reveal_strlit("CreateOrUpdateSource");
        reveal_strlit("name");
        reveal_strlit("credentials_blob");
        lemma_variant_room(outer, "CreateOrUpdateSource"@, fields);
        assert(fields =~= Seq::empty().push(fields[0]).push(fields[1]));
        flex::lemma_record_weight(Seq::empty());
    }
    open_variant(s, "CreateOrUpdateSource")?;
    put_text(s, "name", name)?;
    put_bytes(s, "credentials_blob", credentials_blob)?;
    assert(flex::flex_frames(*s).last()->Record_0 =~= fields);
    close_variant(s, Ghost(outer), Ghost("CreateOrUpdateSource"@), Ghost(fields))
}

fn write_delete_source(
    s: &mut FlexbufferSerializer,
    id: u64,
) -> (r: Result<(), SerializationError>)
    requires
        can_take(
            flex::flex_frames(*old(s)),
            delete_source_value(id),
        ),
    ensures
        r is Ok,
        flex::flex_frames(*final(s)) == flex::with_value(
            flex::flex_frames(*old(s)),
            delete_source_value(id),
        ),
{
    broadcast use {lemma_entry_in_variant, lemma_written_variant, flex::lemma_entries_push};

    let ghost outer = flex::flex_frames(*s);
    let ghost fields = fields_in(delete_source_value(id));
    proof {
        reveal_strlit("DeleteSource");
        reveal_strlit("id");
        lemma_variant_room(outer, "DeleteSource"@, fields);
        assert(fields =~= Seq::empty().push(fields[0]));
        flex::lemma_record_weight(Seq::empty());
    }
    open_variant(s, "DeleteSource")?;
    put_u64(s, "id", id)?;
    assert(flex::flex_frames(*s).last()->Record_0 =~= fields);
    close_variant(s, Ghost(outer), Ghost("DeleteSource"@), Ghost(fields))
}

fn write_create_replay_handle(
    s: &mut FlexbufferSerializer,
    table_id: u64,
    location_index: u64,
    seq_pointer_blob: &Vec<u8>,
    assigned_now_millis: i64,
) -> (r: Result<(), SerializationError>)
    requires
        can_take(
            flex::flex_frames(*old(s)),
            create_replay_handle_value(
                table_id,
                location_index,
                seq_pointer_blob@,
                assigned_now_millis,
            ),
        ),
    ensures
        r is Ok,
        flex::flex_frames(*final(s)) == flex::with_value(
            flex::flex_frames(*old(s)),
            create_replay_handle_value(
                table_id,
                location_index,
                seq_pointer_blob@,
                assigned_now_millis,
            ),
        ),
{
    broadcast use {lemma_entry_in_variant, lemma_written_variant, flex::lemma_entries_push};

    let ghost outer = flex::flex_frames(*s);
    let ghost fields = fields_in(
        create_replay_handle_value(
            table_id,
            location_index,
            seq_pointer_blob@,
            assigned_now_millis,
        ),
    );
    proof {
        reveal_strlit("CreateReplayHandle");
        reveal_strlit("table_id");
        reveal_strlit("location_index");
        reveal_strlit("seq_pointer_blob");
        reveal_strlit("assigned_now_millis");
        lemma_variant_room(outer, "CreateReplayHandle"@, fields);
        assert(fields =~= Seq::empty().push(fields[0]).push(fields[1]).push(fields[2])
            .push(fields[3]));
        flex::lemma_record_weight(Seq::empty());
    }
    open_variant(s, "CreateReplayHandle")?;
    put_u64(s, "table_id", table_id)?;
    put_u64(s, "location_index", location_index)?;
    put_bytes(s, "seq_pointer_blob", seq_pointer_blob)?;
    put_i64(s, "assigned_now_millis", assigned_now_millis)?;
    assert(flex::flex_frames(*s).last()->Record_0 =~= fields);
    close_variant(s, Ghost(outer), Ghost("CreateReplayHandle"@), Ghost(fields))
}

fn write_create_replay_handle_from_seq_pointers(
    s: &mut FlexbufferSerializer,
    table_id: u64,
    seq_pointers_blob: &Vec<u8>,
    assigned_now_millis: i64,
) -> (r: Result<(), SerializationError>)
    requires
        can_take(
            flex::flex_frames(*old(s)),
            create_replay_handle_from_seq_pointers_value(
                table_id,
                seq_pointers_blob@,
                assigned_now_millis,
            ),
        ),
    ensures
        r is Ok,
        flex::flex_frames(*final(s)) == flex::with_value(
            flex::flex_frames(*old(s)),
            create_replay_handle_from_seq_pointers_value(
                table_id,
                seq_pointers_blob@,
                assigned_now_millis,
            ),
        ),
{
    broadcast use {lemma_entry_in_variant, lemma_written_variant, flex::lemma_entries_push};

    let ghost outer = flex::flex_frames(*s);
    let ghost fields = fields_in(
        create_replay_handle_from_seq_pointers_value(
            table_id,
            seq_pointers_blob@,
            assigned_now_millis,
        ),
    );
    proof {
        reveal_strlit("CreateReplayHandleFromSeqPointers");
        reveal_strlit("table_id");
        reveal_strlit("seq_pointers_blob");
        reveal_strlit("assigned_now_millis");
        lemma_variant_room(outer, "CreateReplayHandleFromSeqPointers"@, fields);
        assert(fields =~= Seq::empty().push(fields[0]).push(fields[1]).push(fields[2]));
        flex::lemma_record_weight(Seq::empty());
    }
    open_variant(s, "CreateReplayHandleFromSeqPointers")?;
    put_u64(s, "table_id", table_id)?;
    put_bytes(s, "seq_pointers_blob", seq_pointers_blob)?;
    put_i64(s, "assigned_now_millis", assigned_now_millis)?;
    assert(flex::flex_frames(*s).last()->Record_0 =~= fields);
    close_variant(s, Ghost(outer), Ghost("CreateReplayHandleFromSeqPointers"@), Ghost(fields))
}

fn write_update_replay_handle_failed_if_exists(
    s: &mut FlexbufferSerializer,
    id: u64,
    failed: bool,
) -> (r: Result<(), SerializationError>)
    requires
        can_take(
            flex::flex_frames(*old(s)),
            update_replay_handle_failed_if_exists_value(id, failed),
        ),
    ensures
        r is Ok,
        flex::flex_frames(*final(s)) == flex::with_value(
            flex::flex_frames(*old(s)),
            update_replay_handle_failed_if_exists_value(id, failed),
        ),
{
    broadcast use {lemma_entry_in_variant, lemma_written_variant, flex::lemma_entries_push};

    let ghost outer = flex::flex_frames(*s);
    let ghost fields = fields_in(update_replay_handle_failed_if_exists_value(id, failed));
    proof {
        reveal_strlit("UpdateReplayHandleFailedIfExists");
        reveal_strlit("id");
        reveal_strlit("failed");
        lemma_variant_room(outer, "UpdateReplayHandleFailedIfExists"@, fields);
        assert(fields =~= Seq::empty().push(fields[0]).push(fields[1]));
        flex::lemma_record_weight(Seq::empty());
    }
    open_variant(s, "UpdateReplayHandleFailedIfExists")?;
    put_u64(s, "id", id)?;
    put_bool(s, "failed", failed)?;
    assert(flex::flex_frames(*s).last()->Record_0 =~= fields);
    close_variant(s, Ghost(outer), Ghost("UpdateReplayHandleFailedIfExists"@), Ghost(fields))
}

fn write_replace_replay_handles(
    s: &mut FlexbufferSerializer,
    old_ids: &Vec<u64>,
    new_seq_pointer_blob: &Vec<u8>,
) -> (r: Result<(), SerializationError>)
    requires
        can_take(
            flex::flex_frames(*old(s)),
            replace_replay_handles_value(old_ids@, new_seq_pointer_blob@),
        ),
    ensures
        r is Ok,
        flex::flex_frames(*final(s)) == flex::with_value(
            flex::flex_frames(*old(s)),
            replace_replay_handles_value(old_ids@, new_seq_pointer_blob@),
        ),
{
    broadcast use {lemma_entry_in_variant, lemma_written_variant, flex::lemma_entries_push};

    let ghost outer = flex::flex_frames(*s);
    let ghost fields = fields_in(replace_replay_handles_value(old_ids@, new_seq_pointer_blob@));
    proof {
        reveal_strlit("ReplaceReplayHandles");
        reveal_strlit("old_ids");
        reveal_strlit("new_seq_pointer_blob");
        lemma_variant_room(outer, "ReplaceReplayHandles"@, fields);
        assert(fields =~= Seq::empty().push(fields[0]).push(fields[1]));
        flex::lemma_record_weight(Seq::empty());
    }
    open_variant(s, "ReplaceReplayHandles")?;
    put_u64s(s, "old_ids", old_ids)?;
    put_bytes(s, "new_seq_pointer_blob", new_seq_pointer_blob)?;
    assert(flex::flex_frames(*s).last()->Record_0 =~= fields);
    close_variant(s, Ghost(outer), Ghost("ReplaceReplayHandles"@), Ghost(fields))
}

fn write_set_current_snapshot(
    s: &mut FlexbufferSerializer,
    snapshot_id_low: u64,
    snapshot_id_high: u64,
) -> (r: Result<(), SerializationError>)
    requires
        can_take(
            flex::flex_frames(*old(s)),
            set_current_snapshot_value(snapshot_id_low, snapshot_id_high),
        ),
    ensures
        r is Ok,
        flex::flex_frames(*final(s)) == flex::with_value(
            flex::flex_frames(*old(s)),
            set_current_snapshot_value(snapshot_id_low, snapshot_id_high),
        ),
{
    broadcast use {lemma_entry_in_variant, lemma_written_variant, flex::lemma_entries_push};

    let ghost outer = flex::flex_frames(*s);
    let ghost fields = fields_in(set_current_snapshot_value(snapshot_id_low, snapshot_id_high));
    proof {
        reveal_strlit("SetCurrentSnapshot");
        reveal_strlit("snapshot_id_low");
        reveal_strlit("snapshot_id_high");
        lemma_variant_room(outer, "SetCurrentSnapshot"@, fields);
        assert(fields =~= Seq::empty().push(fields[0]).push(fields[1]));
        flex::lemma_record_weight(Seq::empty());
    }
    open_variant(s, "SetCurrentSnapshot")?;
    put_u64(s, "snapshot_id_low", snapshot_id_low)?;
    put_u64(s, "snapshot_id_high", snapshot_id_high)?;
    assert(flex::flex_frames(*s).last()->Record_0 =~= fields);
    close_variant(s, Ghost(outer), Ghost("SetCurrentSnapshot"@), Ghost(fields))
}

fn write_acquire_partitioned_lock(
    s: &mut FlexbufferSerializer,
    payload_version: u16,
    payload: &Vec<u8>,
) -> (r: Result<(), SerializationError>)
    requires
        can_take(
            flex::flex_frames(*old(s)),
            acquire_partitioned_lock_value(payload_version, payload@),
        ),
    ensures
        r is Ok,
        flex::flex_frames(*final(s)) == flex::with_value(
            flex::flex_frames(*old(s)),
            acquire_partitioned_lock_value(payload_version, payload@),
        ),
{
    broadcast use {lemma_entry_in_variant, lemma_written_variant, flex::lemma_entries_push};

    let ghost outer = flex::flex_frames(*s);
    let ghost fields = fields_in(acquire_partitioned_lock_value(payload_version, payload@));
    proof {
        reveal_strlit("AcquirePartitionedLock");
        reveal_strlit("payload_version");
        reveal_strlit("payload");
        lemma_variant_room(outer, "AcquirePartitionedLock"@, fields);
        assert(fields =~= Seq::empty().push(fields[0]).push(fields[1]));
        flex::lemma_record_weight(Seq::empty());
    }
    open_variant(s, "AcquirePartitionedLock")?;
    put_u64(s, "payload_version", payload_version as u64)?;
    put_bytes(s, "payload", payload)?;
    assert(flex::flex_frames(*s).last()->Record_0 =~= fields);
    close_variant(s, Ghost(outer), Ghost("AcquirePartitionedLock"@), Ghost(fields))
}

fn write_release_partitioned_lock(
    s: &mut FlexbufferSerializer,
    payload_version: u16,
    payload: &Vec<u8>,
) -> (r: Result<(), SerializationError>)
    requires
        can_take(
            flex::flex_frames(*old(s)),
            release_partitioned_lock_value(payload_version, payload@),
        ),
    ensures
        r is Ok,
        flex::flex_frames(*final(s)) == flex::with_value(
            flex::flex_frames(*old(s)),
            release_partitioned_lock_value(payload_version, payload@),
        ),
{
    broadcast use {lemma_entry_in_variant, lemma_written_variant, flex::lemma_entries_push};

    let ghost outer = flex::flex_frames(*s);
    let ghost fields = fields_in(release_partitioned_lock_value(payload_version, payload@));
    proof {
        reveal_strlit("ReleasePartitionedLock");
        reveal_strlit("payload_version");
        reveal_strlit("payload");
        lemma_variant_room(outer, "ReleasePartitionedLock"@, fields);
        assert(fields =~= Seq::empty().push(fields[0]).push(fields[1]));
        flex::lemma_record_weight(Seq::empty());
    }
    open_variant(s, "ReleasePartitionedLock")?;
    put_u64(s, "payload_version", payload_version as u64)?;
    put_bytes(s, "payload", payload)?;
    assert(flex::flex_frames(*s).last()->Record_0 =~= fields);
    close_variant(s, Ghost(outer), Ghost("ReleasePartitionedLock"@), Ghost(fields))
}

fn write_generic(
    s: &mut FlexbufferSerializer,
    method: &String,
    body: &Vec<u8>,
) -> (r: Result<(), SerializationError>)
    requires
        can_take(
            flex::flex_frames(*old(s)),
            generic_value(method@, body@),
        ),
    ensures
        r is Ok,
        flex::flex_frames(*final(s)) == flex::with_value(
            flex::flex_frames(*old(s)),
            generic_value(method@, body@),
        ),
{
    broadcast use {lemma_entry_in_variant, lemma_written_variant, flex::lemma_entries_push};

    let ghost outer = flex::flex_frames(*s);
    let ghost fields = fields_in(generic_value(method@, body@));
    proof {
        reveal_strlit("Generic");
        reveal_strlit("method");
        reveal_strlit("body");
        lemma_variant_room(outer, "Generic"@, fields);
        assert(fields =~= Seq::empty().push(fields[0]).push(fields[1]));
        flex::lemma_record_weight(Seq::empty());
    }
    open_variant(s, "Generic")?;
    put_text(s, "method", method)?;
    put_bytes(s, "body", body)?;
    assert(flex::flex_frames(*s).last()->Record_0 =~= fields);
    close_variant(s, Ghost(outer), Ghost("Generic"@), Ghost(fields))
}

/// Writes a command.
pub(crate) fn write_command(s: &mut FlexbufferSerializer, command: &MetaCommand) -> (r: Result<
    (),
    SerializationError,
>)
    requires
        can_take(flex::flex_frames(*old(s)), command.value()),
    ensures
        r is Ok,
        flex::flex_frames(*final(s)) == flex::with_value(
            flex::flex_frames(*old(s)),
            command.value(),
        ),
    decreases command,
{
    reveal(MetaCommand::value);
    match command {
        MetaCommand::CreateSchema { schema_name, if_not_exists } => write_create_schema(
            s,
            schema_name,
            *if_not_exists,
        ),
        MetaCommand::RenameSchema { old_schema_name, new_schema_name } => write_rename_schema(
            s,
            old_schema_name,
            new_schema_name,
        ),
        MetaCommand::RenameSchemaById { schema_id, new_schema_name } => write_rename_schema_by_id(
            s,
            *schema_id,
            new_schema_name,
        ),
        MetaCommand::DeleteSchema { schema_name } => write_delete_schema(s, schema_name),
        MetaCommand::DeleteSchemaById { schema_id } => write_delete_schema_by_id(s, *schema_id),
        MetaCommand::CreateTable { schema_name, table_name, payload_version, payload } =>
            write_create_table(s, schema_name, table_name, *payload_version, payload),
        MetaCommand::CreateTableStructured {
            schema_name,
            table_name,
            columns_blob,
            locations,
            import_format_blob,
            indexes_blob,
            is_ready,
            build_range_end_millis,
            seal_at_millis,
            select_statement,
            source_columns_blob,
            stream_offset_blob,
            unique_key_column_names,
            aggregates,
            partition_split_threshold,
            trace_obj,
            drop_if_exists,
            extension,
            assigned_now_millis,
        } => write_create_table_structured(
            s,
            schema_name,
            table_name,
            columns_blob,
            locations,
            import_format_blob,
            indexes_blob,
            *is_ready,
            *build_range_end_millis,
            *seal_at_millis,
            select_statement,
            source_columns_blob,
            stream_offset_blob,
            unique_key_column_names,
            aggregates,
            *partition_split_threshold,
            trace_obj,
            *drop_if_exists,
            extension,
            *assigned_now_millis,
        ),
        MetaCommand::DropTable { table_id } => write_drop_table(s, *table_id),
        MetaCommand::SealTable { table_id } => write_seal_table(s, *table_id),
        MetaCommand::UpdateLocationDownloadSize { table_id, location, download_size } =>
            write_update_location_download_size(s, *table_id, location, *download_size),
        MetaCommand::TableReady { table_id, is_ready } => write_table_ready(
            s,
            *table_id,
            *is_ready,
        ),
        MetaCommand::CreatePartition { partition_blob } => write_create_partition(
            s,
            partition_blob,
        ),
        MetaCommand::DeletePartition { partition_id } => write_delete_partition(s, *partition_id),
        MetaCommand::MarkPartitionWarmedUp { partition_id } => write_mark_partition_warmed_up(
            s,
            *partition_id,
        ),
        MetaCommand::DeleteMiddleManPartition { partition_id } => write_delete_middle_man_partition(
            s,
            *partition_id,
        ),
        MetaCommand::SwapActivePartitions { payload_version, payload } =>
            write_swap_active_partitions(s, *payload_version, payload),
        MetaCommand::SwapActivePartitionsStructured {
            current_active_blob,
            new_active_blob,
            new_active_min_max_blob,
        } => write_swap_active_partitions_structured(
            s,
            current_active_blob,
            new_active_blob,
            new_active_min_max_blob,
        ),
        MetaCommand::CreateMultiPartition { multi_partition_blob } => write_create_multi_partition(
            s,
            multi_partition_blob,
        ),
        MetaCommand::CommitMultiPartitionSplit {
            multi_partition_id,
            new_multi_partitions,
            new_multi_partition_rows,
            old_partitions_blob,
            new_partitions_blob,
            new_partition_rows,
            initial_split,
        } => write_commit_multi_partition_split(
            s,
            *multi_partition_id,
            new_multi_partitions,
            new_multi_partition_rows,
            old_partitions_blob,
            new_partitions_blob,
            new_partition_rows,
            *initial_split,
        ),
        MetaCommand::CreateIndex { schema_name, table_name, index_def_blob } => write_create_index(
            s,
            schema_name,
            table_name,
            index_def_blob,
        ),
        MetaCommand::CreatePartitionedIndex { schema, name, columns_blob, if_not_exists } =>
            write_create_partitioned_index(s, schema, name, columns_blob, *if_not_exists),
        MetaCommand::DropPartitionedIndex { schema, name } => write_drop_partitioned_index(
            s,
            schema,
            name,
        ),
        MetaCommand::CreateChunk { chunk_blob } => write_create_chunk(s, chunk_blob),
        MetaCommand::InsertChunks { chunks_blob } => write_insert_chunks(s, chunks_blob),
        MetaCommand::SwapCompactedChunks {
            partition_id,
            old_chunk_ids,
            new_chunk,
            new_chunk_file_size,
        } => write_swap_compacted_chunks(
            s,
            *partition_id,
            old_chunk_ids,
            *new_chunk,
            *new_chunk_file_size,
        ),
        MetaCommand::DeleteChunk { chunk_id } => write_delete_chunk(s, *chunk_id),
        MetaCommand::DeleteChunksWithoutChecks { chunk_ids } => write_delete_chunks_without_checks(
            s,
            chunk_ids,
        ),
        MetaCommand::ChunkUploaded { chunk_id } => write_chunk_uploaded(s, *chunk_id),
        MetaCommand::ChunkUpdateLastInserted { chunk_ids, last_inserted_at_millis } =>
            write_chunk_update_last_inserted(s, chunk_ids, *last_inserted_at_millis),
        MetaCommand::SwapChunks {
            deactivate_ids,
            uploaded_ids_and_sizes,
            new_replay_handle_id,
        } => write_swap_chunks(s, deactivate_ids, uploaded_ids_and_sizes, *new_replay_handle_id),
        MetaCommand::SwapChunksWithoutCheck {
            deactivate_ids,
            uploaded_ids_and_sizes,
            new_replay_handle_id,
        } => write_swap_chunks_without_check(
            s,
            deactivate_ids,
            uploaded_ids_and_sizes,
            *new_replay_handle_id,
        ),
        MetaCommand::ActivateChunks { table_id, uploaded_chunk_ids, replay_handle_id } =>
            write_activate_chunks(s, *table_id, uploaded_chunk_ids, *replay_handle_id),
        MetaCommand::DeactivateChunk { chunk_id, assigned_now_millis } => write_deactivate_chunk(
            s,
            *chunk_id,
            *assigned_now_millis,
        ),
        MetaCommand::DeactivateChunks { chunk_ids, assigned_now_millis } => write_deactivate_chunks(
            s,
            chunk_ids,
            *assigned_now_millis,
        ),
        MetaCommand::DeactivateChunksWithoutCheck { deactivate_ids } =>
            write_deactivate_chunks_without_check(s, deactivate_ids),
        MetaCommand::CreateWal { table_id, row_count } => write_create_wal(
            s,
            *table_id,
            *row_count,
        ),
        MetaCommand::DeleteWal { wal_id } => write_delete_wal(s, *wal_id),
        MetaCommand::WalUploaded { wal_id } => write_wal_uploaded(s, *wal_id),
        MetaCommand::AddJob { job_blob } => write_add_job(s, job_blob),
        MetaCommand::DeleteJob { job_id } => write_delete_job(s, *job_id),
        MetaCommand::DeleteAllJobs => flex_write_str(s, "DeleteAllJobs"),
        MetaCommand::StartProcessingJob { server_name, long_term, assigned_now_millis } =>
            write_start_processing_job(s, server_name, *long_term, *assigned_now_millis),
        MetaCommand::UpdateStatus { job_id, status_blob, assigned_now_millis } =>
            write_update_status(s, *job_id, status_blob, *assigned_now_millis),
        MetaCommand::UpdateHeartBeat { job_id, assigned_now_millis } => write_update_heart_beat(
            s,
            *job_id,
            *assigned_now_millis,
        ),
        MetaCommand::CreateOrUpdateSource { name, credentials_blob } =>
            write_create_or_update_source(s, name, credentials_blob),
        MetaCommand::DeleteSource { id } => write_delete_source(s, *id),
        MetaCommand::CreateReplayHandle {
            table_id,
            location_index,
            seq_pointer_blob,
            assigned_now_millis,
        } => write_create_replay_handle(
            s,
            *table_id,
            *location_index,
            seq_pointer_blob,
            *assigned_now_millis,
        ),
        MetaCommand::CreateReplayHandleFromSeqPointers {
            table_id,
            seq_pointers_blob,
            assigned_now_millis,
        } => write_create_replay_handle_from_seq_pointers(
            s,
            *table_id,
            seq_pointers_blob,
            *assigned_now_millis,
        ),
        MetaCommand::UpdateReplayHandleFailedIfExists { id, failed } =>
            write_update_replay_handle_failed_if_exists(s, *id, *failed),
        MetaCommand::ReplaceReplayHandles { old_ids, new_seq_pointer_blob } =>
            write_replace_replay_handles(s, old_ids, new_seq_pointer_blob),
        MetaCommand::SetCurrentSnapshot { snapshot_id_low, snapshot_id_high } =>
            write_set_current_snapshot(s, *snapshot_id_low, *snapshot_id_high),
        MetaCommand::AcquirePartitionedLock { payload_version, payload } =>
            write_acquire_partitioned_lock(s, *payload_version, payload),
        MetaCommand::ReleasePartitionedLock { payload_version, payload } =>
            write_release_partitioned_lock(s, *payload_version, payload),
        MetaCommand::Batch { commands } => write_batch(s, commands),
        MetaCommand::Generic { method, body } => write_generic(s, method, body),
    }
}

pub proof fn lemma_commands_value(commands: Seq<MetaCommand>, i: int)
    requires
        0 <= i < commands.len(),
    ensures
        commands_value(commands)[i] == commands[i].value(),
{
    reveal(MetaCommand::value);
}

proof fn lemma_batch_storable(name: Seq<char>, key: Seq<char>, all: Seq<Flex>)
    requires
        flex::storable(tagged(name, seq![(key, Flex::Vector(all))])),
    ensures
        forall|k: int| 0 <= k < all.len() ==> flex::storable(#[trigger] all[k]),
{
    let list = Flex::Vector(all);
    let fields = seq![(key, list)];
    let inner = Flex::Record(fields);
    let whole = seq![(name, inner)];
    assert(flex::storable(Flex::Record(whole)));
    assert(whole[0].1 == inner);
    assert(flex::storable(inner));
    assert(fields[0].1 == list);
    assert(flex::storable(list));
    assert forall|k: int| 0 <= k < all.len() implies flex::storable(#[trigger] all[k]) by {
        flex::lemma_item_storable(all, k);
    }
}

fn write_batch(s: &mut FlexbufferSerializer, commands: &Vec<MetaCommand>) -> (r: Result<
    (),
    SerializationError,
>)
    requires
        can_take(
            flex::flex_frames(*old(s)),
            tagged("Batch"@, seq![("commands"@, Flex::Vector(commands_value(commands@)))]),
        ),
    ensures
        r is Ok,
        flex::flex_frames(*final(s)) == flex::with_value(
            flex::flex_frames(*old(s)),
            tagged("Batch"@, seq![("commands"@, Flex::Vector(commands_value(commands@)))]),
        ),
    decreases commands,
{
    let ghost outer = flex::flex_frames(*s);
    let ghost all = commands_value(commands@);
    let ghost empty = in_variant(outer, "Batch"@, Seq::empty());
    proof {
        reveal_strlit("Batch");
        reveal_strlit("commands");
    }
    open_variant(s, "Batch")?;
    flex_write_key(s, "commands")?;
    let ghost before = flex::flex_frames(*s);
    let ghost fields = seq![("commands"@, Flex::Vector(all))];
    proof {
        assert(empty.drop_last() =~= before.drop_last());
        assert(Seq::<(Seq<char>, Flex)>::empty().push(("commands"@, Flex::Vector(all))) =~= fields);
        assert(flex::with_value(before, Flex::Vector(all)) =~= in_variant(outer, "Batch"@, fields));
        lemma_variant_room(outer, "Batch"@, fields);
        lemma_written_variant(outer, "Batch"@, fields);
        lemma_batch_storable("Batch"@, "commands"@, all);
    }
    flex_begin_vector(s)?;
    let mut i: usize = 0;
    assert(all.take(0) =~= Seq::<Flex>::empty());
    while i < commands.len()
        invariant
            0 <= i <= commands@.len(),
            all == commands_value(commands@),
            flex::flex_frames(*s) == before.push(FlexFrame::Vector(all.take(i as int))),
            flex::room_for(before, Flex::Vector(all)),
            forall|k: int| 0 <= k < all.len() ==> flex::storable(#[trigger] all[k]),
        decreases commands@.len() - i,
    {
        assert(decreases_to!(commands => commands@[i as int]));
        proof {
            lemma_commands_value(commands@, i as int);
            flex::lemma_item_room(before, all, i as int);
        }
        write_command(s, &commands[i])?;
        assert(all.take(i + 1) =~= all.take(i as int).push(all[i as int]));
        assert(flex::flex_frames(*s) =~= before.push(FlexFrame::Vector(all.take(i + 1))));
        i = i + 1;
    }
    proof {
        assert(all.take(commands@.len() as int) =~= all);
        flex::lemma_vector_room(before, all);
    }
    flex_end_vector(s)?;
    assert(before.push(FlexFrame::Vector(all)).drop_last() =~= before);
    assert(flex::flex_frames(*s) =~= in_variant(outer, "Batch"@, fields));
    close_variant(s, Ghost(outer), Ghost("Batch"@), Ghost(fields))
}

// ---------------------------------------------------------------------------
// Reading
// ---------------------------------------------------------------------------

/// A command was read if and only if the value holds one, and it is that one.
pub open spec fn read_as(x: Option<MetaCommand>, v: Option<Flex>) -> bool {
    match x {
        Some(c) => v == Some(c.value()),
        None => v is None,
    }
}

fn read_create_schema(r: &FlexReader<'_>) -> (x: Option<MetaCommand>)
    requires
        r.value() is Record,
    ensures
        read_as(x, create_schema_of(wire::entries_at(*r))),
{
    reveal(MetaCommand::value);
    let schema_name: String = text_field(r, "schema_name")?;
    let if_not_exists: bool = bool_field(r, "if_not_exists")?;
    Some(MetaCommand::CreateSchema { schema_name, if_not_exists })
}

fn read_rename_schema(r: &FlexReader<'_>) -> (x: Option<MetaCommand>)
    requires
        r.value() is Record,
    ensures
        read_as(x, rename_schema_of(wire::entries_at(*r))),
{
    reveal(MetaCommand::value);
    let old_schema_name: String = text_field(r, "old_schema_name")?;
    let new_schema_name: String = text_field(r, "new_schema_name")?;
    Some(MetaCommand::RenameSchema { old_schema_name, new_schema_name })
}

fn read_rename_schema_by_id(r: &FlexReader<'_>) -> (x: Option<MetaCommand>)
    requires
        r.value() is Record,
    ensures
        read_as(x, rename_schema_by_id_of(wire::entries_at(*r))),
{
    reveal(MetaCommand::value);
    let schema_id: u64 = u64_field(r, "schema_id")?;
    let new_schema_name: String = text_field(r, "new_schema_name")?;
    Some(MetaCommand::RenameSchemaById { schema_id, new_schema_name })
}

fn read_delete_schema(r: &FlexReader<'_>) -> (x: Option<MetaCommand>)
    requires
        r.value() is Record,
    ensures
        read_as(x, delete_schema_of(wire::entries_at(*r))),
{
    reveal(MetaCommand::value);
    let schema_name: String = text_field(r, "schema_name")?;
    Some(MetaCommand::DeleteSchema { schema_name })
}

fn read_delete_schema_by_id(r: &FlexReader<'_>) -> (x: Option<MetaCommand>)
    requires
        r.value() is Record,
    ensures
        read_as(x, delete_schema_by_id_of(wire::entries_at(*r))),
{
    reveal(MetaCommand::value);
    let schema_id: u64 = u64_field(r, "schema_id")?;
    Some(MetaCommand::DeleteSchemaById { schema_id })
}

fn read_create_table(r: &FlexReader<'_>) -> (x: Option<MetaCommand>)
    requires
        r.value() is Record,
    ensures
        read_as(x, create_table_of(wire::entries_at(*r))),
{
    reveal(MetaCommand::value);
    let schema_name: String = text_field(r, "schema_name")?;
    let table_name: String = text_field(r, "table_name")?;
    let payload_version: u16 = u16_field(r, "payload_version")?;
    let payload: Vec<u8> = bytes_field(r, "payload")?;
    Some(MetaCommand::CreateTable { schema_name, table_name, payload_version, payload })
}

#[verifier::rlimit(60)]
fn read_create_table_structured(r: &FlexReader<'_>) -> (x: Option<MetaCommand>)
    requires
        r.value() is Record,
    ensures
        read_as(x, create_table_structured_of(wire::entries_at(*r))),
{
    reveal(MetaCommand::value);
    let schema_name: String = text_field(r, "schema_name")?;
    let table_name: String = text_field(r, "table_name")?;
    let columns_blob: Vec<u8> = bytes_field(r, "columns_blob")?;
    let locations: Option<Vec<String>> = opt_texts_field(r, "locations")?;
    let import_format_blob: Option<Vec<u8>> = opt_bytes_field(r, "import_format_blob")?;
    let indexes_blob: Vec<u8> = bytes_field(r, "indexes_blob")?;
    let is_ready: bool = bool_field(r, "is_ready")?;
    let build_range_end_millis: Option<i64> = opt_i64_field(r, "build_range_end_millis")?;
    let seal_at_millis: Option<i64> = opt_i64_field(r, "seal_at_millis")?;
    let select_statement: Option<String> = opt_text_field(r, "select_statement")?;
    let source_columns_blob: Option<Vec<u8>> = opt_bytes_field(r, "source_columns_blob")?;
    let stream_offset_blob: Option<Vec<u8>> = opt_bytes_field(r, "stream_offset_blob")?;
    let unique_key_column_names: Option<Vec<String>> = opt_texts_field(
        r,
        "unique_key_column_names",
    )?;
    let aggregates: Option<Vec<(String, String)>> = opt_pairs_field(r, "aggregates")?;
    let partition_split_threshold: Option<u64> = opt_u64_field(r, "partition_split_threshold")?;
    let trace_obj: Option<String> = opt_text_field(r, "trace_obj")?;
    let drop_if_exists: bool = bool_field(r, "drop_if_exists")?;
    let extension: Option<String> = opt_text_field(r, "extension")?;
    let assigned_now_millis: i64 = i64_field(r, "assigned_now_millis")?;
    Some(
        MetaCommand::CreateTableStructured {
            schema_name,
            table_name,
            columns_blob,
            locations,
            import_format_blob,
            indexes_blob,
            is_ready,
            build_range_end_millis,
            seal_at_millis,
            select_statement,
            source_columns_blob,
            stream_offset_blob,
            unique_key_column_names,
            aggregates,
            partition_split_threshold,
            trace_obj,
            drop_if_exists,
            extension,
            assigned_now_millis,
        },
    )
}

fn read_drop_table(r: &FlexReader<'_>) -> (x: Option<MetaCommand>)
    requires
        r.value() is Record,
    ensures
        read_as(x, drop_table_of(wire::entries_at(*r))),
{
    reveal(MetaCommand::value);
    let table_id: u64 = u64_field(r, "table_id")?;
    Some(MetaCommand::DropTable { table_id })
}

fn read_seal_table(r: &FlexReader<'_>) -> (x: Option<MetaCommand>)
    requires
        r.value() is Record,
    ensures
        read_as(x, seal_table_of(wire::entries_at(*r))),
{
    reveal(MetaCommand::value);
    let table_id: u64 = u64_field(r, "table_id")?;
    Some(MetaCommand::SealTable { table_id })
}

fn read_update_location_download_size(r: &FlexReader<'_>) -> (x: Option<MetaCommand>)
    requires
        r.value() is Record,
    ensures
        read_as(x, update_location_download_size_of(wire::entries_at(*r))),
{
    reveal(MetaCommand::value);
    let table_id: u64 = u64_field(r, "table_id")?;
    let location: String = text_field(r, "location")?;
    let download_size: u64 = u64_field(r, "download_size")?;
    Some(MetaCommand::UpdateLocationDownloadSize { table_id, location, download_size })
}

fn read_table_ready(r: &FlexReader<'_>) -> (x: Option<MetaCommand>)
    requires
        r.value() is Record,
    ensures
        read_as(x, table_ready_of(wire::entries_at(*r))),
{
    reveal(MetaCommand::value);
    let table_id: u64 = u64_field(r, "table_id")?;
    let is_ready: bool = bool_field(r, "is_ready")?;
    Some(MetaCommand::TableReady { table_id, is_ready })
}

fn read_create_partition(r: &FlexReader<'_>) -> (x: Option<MetaCommand>)
    requires
        r.value() is Record,
    ensures
        read_as(x, create_partition_of(wire::entries_at(*r))),
{
    reveal(MetaCommand::value);
    let partition_blob: Vec<u8> = bytes_field(r, "partition_blob")?;
    Some(MetaCommand::CreatePartition { partition_blob })
}

fn read_delete_partition(r: &FlexReader<'_>) -> (x: Option<MetaCommand>)
    requires
        r.value() is Record,
    ensures
        read_as(x, delete_partition_of(wire::entries_at(*r))),
{
    reveal(MetaCommand::value);
    let partition_id: u64 = u64_field(r, "partition_id")?;
    Some(MetaCommand::DeletePartition { partition_id })
}

fn read_mark_partition_warmed_up(r: &FlexReader<'_>) -> (x: Option<MetaCommand>)
    requires
        r.value() is Record,
    ensures
        read_as(x, mark_partition_warmed_up_of(wire::entries_at(*r))),
{
    reveal(MetaCommand::value);
    let partition_id: u64 = u64_field(r, "partition_id")?;
    Some(MetaCommand::MarkPartitionWarmedUp { partition_id })
}

fn read_delete_middle_man_partition(r: &FlexReader<'_>) -> (x: Option<MetaCommand>)
    requires
        r.value() is Record,
    ensures
        read_as(x, delete_middle_man_partition_of(wire::entries_at(*r))),
{
    reveal(MetaCommand::value);
    let partition_id: u64 = u64_field(r, "partition_id")?;
    Some(MetaCommand::DeleteMiddleManPartition { partition_id })
}

fn read_swap_active_partitions(r: &FlexReader<'_>) -> (x: Option<MetaCommand>)
    requires
        r.value() is Record,
    ensures
        read_as(x, swap_active_partitions_of(wire::entries_at(*r))),
{
    reveal(MetaCommand::value);
    let payload_version: u16 = u16_field(r, "payload_version")?;
    let payload: Vec<u8> = bytes_field(r, "payload")?;
    Some(MetaCommand::SwapActivePartitions { payload_version, payload })
}

fn read_swap_active_partitions_structured(r: &FlexReader<'_>) -> (x: Option<MetaCommand>)
    requires
        r.value() is Record,
    ensures
        read_as(x, swap_active_partitions_structured_of(wire::entries_at(*r))),
{
    reveal(MetaCommand::value);
    let current_active_blob: Vec<u8> = bytes_field(r, "current_active_blob")?;
    let new_active_blob: Vec<u8> = bytes_field(r, "new_active_blob")?;
    let new_active_min_max_blob: Vec<u8> = bytes_field(r, "new_active_min_max_blob")?;
    Some(
        MetaCommand::SwapActivePartitionsStructured {
            current_active_blob,
            new_active_blob,
            new_active_min_max_blob,
        },
    )
}

fn read_create_multi_partition(r: &FlexReader<'_>) -> (x: Option<MetaCommand>)
    requires
        r.value() is Record,
    ensures
        read_as(x, create_multi_partition_of(wire::entries_at(*r))),
{
    reveal(MetaCommand::value);
    let multi_partition_blob: Vec<u8> = bytes_field(r, "multi_partition_blob")?;
    Some(MetaCommand::CreateMultiPartition { multi_partition_blob })
}

fn read_commit_multi_partition_split(r: &FlexReader<'_>) -> (x: Option<MetaCommand>)
    requires
        r.value() is Record,
    ensures
        read_as(x, commit_multi_partition_split_of(wire::entries_at(*r))),
{
    reveal(MetaCommand::value);
    let multi_partition_id: u64 = u64_field(r, "multi_partition_id")?;
    let new_multi_partitions: Vec<u64> = u64s_field(r, "new_multi_partitions")?;
    let new_multi_partition_rows: Vec<u64> = u64s_field(r, "new_multi_partition_rows")?;
    let old_partitions_blob: Vec<u8> = bytes_field(r, "old_partitions_blob")?;
    let new_partitions_blob: Vec<u8> = bytes_field(r, "new_partitions_blob")?;
    let new_partition_rows: Vec<u64> = u64s_field(r, "new_partition_rows")?;
    let initial_split: bool = bool_field(r, "initial_split")?;
    Some(
        MetaCommand::CommitMultiPartitionSplit {
            multi_partition_id,
            new_multi_partitions,
            new_multi_partition_rows,
            old_partitions_blob,
            new_partitions_blob,
            new_partition_rows,
            initial_split,
        },
    )
}

fn read_create_index(r: &FlexReader<'_>) -> (x: Option<MetaCommand>)
    requires
        r.value() is Record,
    ensures
        read_as(x, create_index_of(wire::entries_at(*r))),
{
    reveal(MetaCommand::value);
    let schema_name: String = text_field(r, "schema_name")?;
    let table_name: String = text_field(r, "table_name")?;
    let index_def_blob: Vec<u8> = bytes_field(r, "index_def_blob")?;
    Some(MetaCommand::CreateIndex { schema_name, table_name, index_def_blob })
}

fn read_create_partitioned_index(r: &FlexReader<'_>) -> (x: Option<MetaCommand>)
    requires
        r.value() is Record,
    ensures
        read_as(x, create_partitioned_index_of(wire::entries_at(*r))),
{
    reveal(MetaCommand::value);
    let schema: String = text_field(r, "schema")?;
    let name: String = text_field(r, "name")?;
    let columns_blob: Vec<u8> = bytes_field(r, "columns_blob")?;
    let if_not_exists: bool = bool_field(r, "if_not_exists")?;
    Some(MetaCommand::CreatePartitionedIndex { schema, name, columns_blob, if_not_exists })
}

fn read_drop_partitioned_index(r: &FlexReader<'_>) -> (x: Option<MetaCommand>)
    requires
        r.value() is Record,
    ensures
        read_as(x, drop_partitioned_index_of(wire::entries_at(*r))),
{
    reveal(MetaCommand::value);
    let schema: String = text_field(r, "schema")?;
    let name: String = text_field(r, "name")?;
    Some(MetaCommand::DropPartitionedIndex { schema, name })
}

fn read_create_chunk(r: &FlexReader<'_>) -> (x: Option<MetaCommand>)
    requires
        r.value() is Record,
    ensures
        read_as(x, create_chunk_of(wire::entries_at(*r))),
{
    reveal(MetaCommand::value);
    let chunk_blob: Vec<u8> = bytes_field(r, "chunk_blob")?;
    Some(MetaCommand::CreateChunk { chunk_blob })
}

fn read_insert_chunks(r: &FlexReader<'_>) -> (x: Option<MetaCommand>)
    requires
        r.value() is Record,
    ensures
        read_as(x, insert_chunks_of(wire::entries_at(*r))),
{
    reveal(MetaCommand::value);
    let chunks_blob: Vec<u8> = bytes_field(r, "chunks_blob")?;
    Some(MetaCommand::InsertChunks { chunks_blob })
}

fn read_swap_compacted_chunks(r: &FlexReader<'_>) -> (x: Option<MetaCommand>)
    requires
        r.value() is Record,
    ensures
        read_as(x, swap_compacted_chunks_of(wire::entries_at(*r))),
{
    reveal(MetaCommand::value);
    let partition_id: u64 = u64_field(r, "partition_id")?;
    let old_chunk_ids: Vec<u64> = u64s_field(r, "old_chunk_ids")?;
    let new_chunk: u64 = u64_field(r, "new_chunk")?;
    let new_chunk_file_size: u64 = u64_field(r, "new_chunk_file_size")?;
    Some(
        MetaCommand::SwapCompactedChunks {
            partition_id,
            old_chunk_ids,
            new_chunk,
            new_chunk_file_size,
        },
    )
}

fn read_delete_chunk(r: &FlexReader<'_>) -> (x: Option<MetaCommand>)
    requires
        r.value() is Record,
    ensures
        read_as(x, delete_chunk_of(wire::entries_at(*r))),
{
    reveal(MetaCommand::value);
    let chunk_id: u64 = u64_field(r, "chunk_id")?;
    Some(MetaCommand::DeleteChunk { chunk_id })
}

fn read_delete_chunks_without_checks(r: &FlexReader<'_>) -> (x: Option<MetaCommand>)
    requires
        r.value() is Record,
    ensures
        read_as(x, delete_chunks_without_checks_of(wire::entries_at(*r))),
{
    reveal(MetaCommand::value);
    let chunk_ids: Vec<u64> = u64s_field(r, "chunk_ids")?;
    Some(MetaCommand::DeleteChunksWithoutChecks { chunk_ids })
}

fn read_chunk_uploaded(r: &FlexReader<'_>) -> (x: Option<MetaCommand>)
    requires
        r.value() is Record,
    ensures
        read_as(x, chunk_uploaded_of(wire::entries_at(*r))),
{
    reveal(MetaCommand::value);
    let chunk_id: u64 = u64_field(r, "chunk_id")?;
    Some(MetaCommand::ChunkUploaded { chunk_id })
}

fn read_chunk_update_last_inserted(r: &FlexReader<'_>) -> (x: Option<MetaCommand>)
    requires
        r.value() is Record,
    ensures
        read_as(x, chunk_update_last_inserted_of(wire::entries_at(*r))),
{
    reveal(MetaCommand::value);
    let chunk_ids: Vec<u64> = u64s_field(r, "chunk_ids")?;
    let last_inserted_at_millis: Option<i64> = opt_i64_field(r, "last_inserted_at_millis")?;
    Some(MetaCommand::ChunkUpdateLastInserted { chunk_ids, last_inserted_at_millis })
}

fn read_swap_chunks(r: &FlexReader<'_>) -> (x: Option<MetaCommand>)
    requires
        r.value() is Record,
    ensures
        read_as(x, swap_chunks_of(wire::entries_at(*r))),
{
    reveal(MetaCommand::value);
    let deactivate_ids: Vec<u64> = u64s_field(r, "deactivate_ids")?;
    let uploaded_ids_and_sizes: Vec<(u64, Option<u64>)> = id_sizes_field(
        r,
        "uploaded_ids_and_sizes",
    )?;
    let new_replay_handle_id: Option<u64> = opt_u64_field(r, "new_replay_handle_id")?;
    Some(MetaCommand::SwapChunks { deactivate_ids, uploaded_ids_and_sizes, new_replay_handle_id })
}

fn read_swap_chunks_without_check(r: &FlexReader<'_>) -> (x: Option<MetaCommand>)
    requires
        r.value() is Record,
    ensures
        read_as(x, swap_chunks_without_check_of(wire::entries_at(*r))),
{
    reveal(MetaCommand::value);
    let deactivate_ids: Vec<u64> = u64s_field(r, "deactivate_ids")?;
    let uploaded_ids_and_sizes: Vec<(u64, Option<u64>)> = id_sizes_field(
        r,
        "uploaded_ids_and_sizes",
    )?;
    let new_replay_handle_id: Option<u64> = opt_u64_field(r, "new_replay_handle_id")?;
    Some(
        MetaCommand::SwapChunksWithoutCheck {
            deactivate_ids,
            uploaded_ids_and_sizes,
            new_replay_handle_id,
        },
    )
}

fn read_activate_chunks(r: &FlexReader<'_>) -> (x: Option<MetaCommand>)
    requires
        r.value() is Record,
    ensures
        read_as(x, activate_chunks_of(wire::entries_at(*r))),
{
    reveal(MetaCommand::value);
    let table_id: u64 = u64_field(r, "table_id")?;
    let uploaded_chunk_ids: Vec<(u64, Option<u64>)> = id_sizes_field(r, "uploaded_chunk_ids")?;
    let replay_handle_id: Option<u64> = opt_u64_field(r, "replay_handle_id")?;
    Some(MetaCommand::ActivateChunks { table_id, uploaded_chunk_ids, replay_handle_id })
}

fn read_deactivate_chunk(r: &FlexReader<'_>) -> (x: Option<MetaCommand>)
    requires
        r.value() is Record,
    ensures
        read_as(x, deactivate_chunk_of(wire::entries_at(*r))),
{
    reveal(MetaCommand::value);
    let chunk_id: u64 = u64_field(r, "chunk_id")?;
    let assigned_now_millis: i64 = i64_field(r, "assigned_now_millis")?;
    Some(MetaCommand::DeactivateChunk { chunk_id, assigned_now_millis })
}

fn read_deactivate_chunks(r: &FlexReader<'_>) -> (x: Option<MetaCommand>)
    requires
        r.value() is Record,
    ensures
        read_as(x, deactivate_chunks_of(wire::entries_at(*r))),
{
    reveal(MetaCommand::value);
    let chunk_ids: Vec<u64> = u64s_field(r, "chunk_ids")?;
    let assigned_now_millis: i64 = i64_field(r, "assigned_now_millis")?;
    Some(MetaCommand::DeactivateChunks { chunk_ids, assigned_now_millis })
}

fn read_deactivate_chunks_without_check(r: &FlexReader<'_>) -> (x: Option<MetaCommand>)
    requires
        r.value() is Record,
    ensures
        read_as(x, deactivate_chunks_without_check_of(wire::entries_at(*r))),
{
    reveal(MetaCommand::value);
    let deactivate_ids: Vec<u64> = u64s_field(r, "deactivate_ids")?;
    Some(MetaCommand::DeactivateChunksWithoutCheck { deactivate_ids })
}

fn read_create_wal(r: &FlexReader<'_>) -> (x: Option<MetaCommand>)
    requires
        r.value() is Record,
    ensures
        read_as(x, create_wal_of(wire::entries_at(*r))),
{
    reveal(MetaCommand::value);
    let table_id: u64 = u64_field(r, "table_id")?;
    let row_count: u64 = u64_field(r, "row_count")?;
    Some(MetaCommand::CreateWal { table_id, row_count })
}

fn read_delete_wal(r: &FlexReader<'_>) -> (x: Option<MetaCommand>)
    requires
        r.value() is Record,
    ensures
        read_as(x, delete_wal_of(wire::entries_at(*r))),
{
    reveal(MetaCommand::value);
    let wal_id: u64 = u64_field(r, "wal_id")?;
    Some(MetaCommand::DeleteWal { wal_id })
}

fn read_wal_uploaded(r: &FlexReader<'_>) -> (x: Option<MetaCommand>)
    requires
        r.value() is Record,
    ensures
        read_as(x, wal_uploaded_of(wire::entries_at(*r))),
{
    reveal(MetaCommand::value);
    let wal_id: u64 = u64_field(r, "wal_id")?;
    Some(MetaCommand::WalUploaded { wal_id })
}

fn read_add_job(r: &FlexReader<'_>) -> (x: Option<MetaCommand>)
    requires
        r.value() is Record,
    ensures
        read_as(x, add_job_of(wire::entries_at(*r))),
{
    reveal(MetaCommand::value);
    let job_blob: Vec<u8> = bytes_field(r, "job_blob")?;
    Some(MetaCommand::AddJob { job_blob })
}

fn read_delete_job(r: &FlexReader<'_>) -> (x: Option<MetaCommand>)
    requires
        r.value() is Record,
    ensures
        read_as(x, delete_job_of(wire::entries_at(*r))),
{
    reveal(MetaCommand::value);
    let job_id: u64 = u64_field(r, "job_id")?;
    Some(MetaCommand::DeleteJob { job_id })
}

fn read_start_processing_job(r: &FlexReader<'_>) -> (x: Option<MetaCommand>)
    requires
        r.value() is Record,
    ensures
        read_as(x, start_processing_job_of(wire::entries_at(*r))),
{
    reveal(MetaCommand::value);
    let server_name: String = text_field(r, "server_name")?;
    let long_term: bool = bool_field(r, "long_term")?;
    let assigned_now_millis: i64 = i64_field(r, "assigned_now_millis")?;
    Some(MetaCommand::StartProcessingJob { server_name, long_term, assigned_now_millis })
}

fn read_update_status(r: &FlexReader<'_>) -> (x: Option<MetaCommand>)
    requires
        r.value() is Record,
    ensures
        read_as(x, update_status_of(wire::entries_at(*r))),
{
    reveal(MetaCommand::value);
    let job_id: u64 = u64_field(r, "job_id")?;
    let status_blob: Vec<u8> = bytes_field(r, "status_blob")?;
    let assigned_now_millis: i64 = i64_field(r, "assigned_now_millis")?;
    Some(MetaCommand::UpdateStatus { job_id, status_blob, assigned_now_millis })
}

fn read_update_heart_beat(r: &FlexReader<'_>) -> (x: Option<MetaCommand>)
    requires
        r.value() is Record,
    ensures
        read_as(x, update_heart_beat_of(wire::entries_at(*r))),
{
    reveal(MetaCommand::value);
    let job_id: u64 = u64_field(r, "job_id")?;
    let assigned_now_millis: i64 = i64_field(r, "assigned_now_millis")?;
    Some(MetaCommand::UpdateHeartBeat { job_id, assigned_now_millis })
}

fn read_create_or_update_source(r: &FlexReader<'_>) -> (x: Option<MetaCommand>)
    requires
        r.value() is Record,
    ensures
        read_as(x, create_or_update_source_of(wire::entries_at(*r))),
{
    reveal(MetaCommand::value);
    let name: String = text_field(r, "name")?;
    let credentials_blob: Vec<u8> = bytes_field(r, "credentials_blob")?;
    Some(MetaCommand::CreateOrUpdateSource { name, credentials_blob })
}

fn read_delete_source(r: &FlexReader<'_>) -> (x: Option<MetaCommand>)
    requires
        r.value() is Record,
    ensures
        read_as(x, delete_source_of(wire::entries_at(*r))),
{
    reveal(MetaCommand::value);
    let id: u64 = u64_field(r, "id")?;
    Some(MetaCommand::DeleteSource { id })
}

fn read_create_replay_handle(r: &FlexReader<'_>) -> (x: Option<MetaCommand>)
    requires
        r.value() is Record,
    ensures
        read_as(x, create_replay_handle_of(wire::entries_at(*r))),
{
    reveal(MetaCommand::value);
    let table_id: u64 = u64_field(r, "table_id")?;
    let location_index: u64 = u64_field(r, "location_index")?;
    let seq_pointer_blob: Vec<u8> = bytes_field(r, "seq_pointer_blob")?;
    let assigned_now_millis: i64 = i64_field(r, "assigned_now_millis")?;
    Some(
        MetaCommand::CreateReplayHandle {
            table_id,
            location_index,
            seq_pointer_blob,
            assigned_now_millis,
        },
    )
}

fn read_create_replay_handle_from_seq_pointers(r: &FlexReader<'_>) -> (x: Option<MetaCommand>)
    requires
        r.value() is Record,
    ensures
        read_as(x, create_replay_handle_from_seq_pointers_of(wire::entries_at(*r))),
{
    reveal(MetaCommand::value);
    let table_id: u64 = u64_field(r, "table_id")?;
    let seq_pointers_blob: Vec<u8> = bytes_field(r, "seq_pointers_blob")?;
    let assigned_now_millis: i64 = i64_field(r, "assigned_now_millis")?;
    Some(
        MetaCommand::CreateReplayHandleFromSeqPointers {
            table_id,
            seq_pointers_blob,
            assigned_now_millis,
        },
    )
}

fn read_update_replay_handle_failed_if_exists(r: &FlexReader<'_>) -> (x: Option<MetaCommand>)
    requires
        r.value() is Record,
    ensures
        read_as(x, update_replay_handle_failed_if_exists_of(wire::entries_at(*r))),
{
    reveal(MetaCommand::value);
    let id: u64 = u64_field(r, "id")?;
    let failed: bool = bool_field(r, "failed")?;
    Some(MetaCommand::UpdateReplayHandleFailedIfExists { id, failed })
}

fn read_replace_replay_handles(r: &FlexReader<'_>) -> (x: Option<MetaCommand>)
    requires
        r.value() is Record,
    ensures
        read_as(x, replace_replay_handles_of(wire::entries_at(*r))),
{
    reveal(MetaCommand::value);
    let old_ids: Vec<u64> = u64s_field(r, "old_ids")?;
    let new_seq_pointer_blob: Vec<u8> = bytes_field(r, "new_seq_pointer_blob")?;
    Some(MetaCommand::ReplaceReplayHandles { old_ids, new_seq_pointer_blob })
}

fn read_set_current_snapshot(r: &FlexReader<'_>) -> (x: Option<MetaCommand>)
    requires
        r.value() is Record,
    ensures
        read_as(x, set_current_snapshot_of(wire::entries_at(*r))),
{
    reveal(MetaCommand::value);
    let snapshot_id_low: u64 = u64_field(r, "snapshot_id_low")?;
    let snapshot_id_high: u64 = u64_field(r, "snapshot_id_high")?;
    Some(MetaCommand::SetCurrentSnapshot { snapshot_id_low, snapshot_id_high })
}

fn read_acquire_partitioned_lock(r: &FlexReader<'_>) -> (x: Option<MetaCommand>)
    requires
        r.value() is Record,
    ensures
        read_as(x, acquire_partitioned_lock_of(wire::entries_at(*r))),
{
    reveal(MetaCommand::value);
    let payload_version: u16 = u16_field(r, "payload_version")?;
    let payload: Vec<u8> = bytes_field(r, "payload")?;
    Some(MetaCommand::AcquirePartitionedLock { payload_version, payload })
}

fn read_release_partitioned_lock(r: &FlexReader<'_>) -> (x: Option<MetaCommand>)
    requires
        r.value() is Record,
    ensures
        read_as(x, release_partitioned_lock_of(wire::entries_at(*r))),
{
    reveal(MetaCommand::value);
    let payload_version: u16 = u16_field(r, "payload_version")?;
    let payload: Vec<u8> = bytes_field(r, "payload")?;
    Some(MetaCommand::ReleasePartitionedLock { payload_version, payload })
}

fn read_generic(r: &FlexReader<'_>) -> (x: Option<MetaCommand>)
    requires
        r.value() is Record,
    ensures
        read_as(x, generic_of(wire::entries_at(*r))),
{
    reveal(MetaCommand::value);
    let method: String = text_field(r, "method")?;
    let body: Vec<u8> = bytes_field(r, "body")?;
    Some(MetaCommand::Generic { method, body })
}

fn read_variant(name: &str, r: &FlexReader<'_>) -> (x: Option<MetaCommand>)
    requires
        r.value() is Record,
    ensures
        read_as(x, variant_of(name@, wire::entries_at(*r))),
{
    reveal(variant_of);
    if same_text(name, "CreateSchema") {
        read_create_schema(r)
    } else if same_text(name, "RenameSchema") {
        read_rename_schema(r)
    } else if same_text(name, "RenameSchemaById") {
        read_rename_schema_by_id(r)
    } else if same_text(name, "DeleteSchema") {
        read_delete_schema(r)
    } else if same_text(name, "DeleteSchemaById") {
        read_delete_schema_by_id(r)
    } else if same_text(name, "CreateTable") {
        read_create_table(r)
    } else if same_text(name, "CreateTableStructured") {
        read_create_table_structured(r)
    } else if same_text(name, "DropTable") {
        read_drop_table(r)
    } else if same_text(name, "SealTable") {
        read_seal_table(r)
    } else if same_text(name, "UpdateLocationDownloadSize") {
        read_update_location_download_size(r)
    } else if same_text(name, "TableReady") {
        read_table_ready(r)
    } else if same_text(name, "CreatePartition") {
        read_create_partition(r)
    } else if same_text(name, "DeletePartition") {
        read_delete_partition(r)
    } else if same_text(name, "MarkPartitionWarmedUp") {
        read_mark_partition_warmed_up(r)
    } else if same_text(name, "DeleteMiddleManPartition") {
        read_delete_middle_man_partition(r)
    } else if same_text(name, "SwapActivePartitions") {
        read_swap_active_partitions(r)
    } else if same_text(name, "SwapActivePartitionsStructured") {
        read_swap_active_partitions_structured(r)
    } else if same_text(name, "CreateMultiPartition") {
        read_create_multi_partition(r)
    } else if same_text(name, "CommitMultiPartitionSplit") {
        read_commit_multi_partition_split(r)
    } else if same_text(name, "CreateIndex") {
        read_create_index(r)
    } else if same_text(name, "CreatePartitionedIndex") {
        read_create_partitioned_index(r)
    } else if same_text(name, "DropPartitionedIndex") {
        read_drop_partitioned_index(r)
    } else if same_text(name, "CreateChunk") {
        read_create_chunk(r)
    } else if same_text(name, "InsertChunks") {
        read_insert_chunks(r)
    } else if same_text(name, "SwapCompactedChunks") {
        read_swap_compacted_chunks(r)
    } else if same_text(name, "DeleteChunk") {
        read_delete_chunk(r)
    } else if same_text(name, "DeleteChunksWithoutChecks") {
        read_delete_chunks_without_checks(r)
    } else if same_text(name, "ChunkUploaded") {
        read_chunk_uploaded(r)
    } else if same_text(name, "ChunkUpdateLastInserted") {
        read_chunk_update_last_inserted(r)
    } else if same_text(name, "SwapChunks") {
        read_swap_chunks(r)
    } else if same_text(name, "SwapChunksWithoutCheck") {
        read_swap_chunks_without_check(r)
    } else if same_text(name, "ActivateChunks") {
        read_activate_chunks(r)
    } else if same_text(name, "DeactivateChunk") {
        read_deactivate_chunk(r)
    } else if same_text(name, "DeactivateChunks") {
        read_deactivate_chunks(r)
    } else if same_text(name, "DeactivateChunksWithoutCheck") {
        read_deactivate_chunks_without_check(r)
    } else if same_text(name, "CreateWal") {
        read_create_wal(r)
    } else if same_text(name, "DeleteWal") {
        read_delete_wal(r)
    } else if same_text(name, "WalUploaded") {
        read_wal_uploaded(r)
    } else if same_text(name, "AddJob") {
        read_add_job(r)
    } else if same_text(name, "DeleteJob") {
        read_delete_job(r)
    } else if same_text(name, "StartProcessingJob") {
        read_start_processing_job(r)
    } else if same_text(name, "UpdateStatus") {
        read_update_status(r)
    } else if same_text(name, "UpdateHeartBeat") {
        read_update_heart_beat(r)
    } else if same_text(name, "CreateOrUpdateSource") {
        read_create_or_update_source(r)
    } else if same_text(name, "DeleteSource") {
        read_delete_source(r)
    } else if same_text(name, "CreateReplayHandle") {
        read_create_replay_handle(r)
    } else if same_text(name, "CreateReplayHandleFromSeqPointers") {
        read_create_replay_handle_from_seq_pointers(r)
    } else if same_text(name, "UpdateReplayHandleFailedIfExists") {
        read_update_replay_handle_failed_if_exists(r)
    } else if same_text(name, "ReplaceReplayHandles") {
        read_replace_replay_handles(r)
    } else if same_text(name, "SetCurrentSnapshot") {
        read_set_current_snapshot(r)
    } else if same_text(name, "AcquirePartitionedLock") {
        read_acquire_partitioned_lock(r)
    } else if same_text(name, "ReleasePartitionedLock") {
        read_release_partitioned_lock(r)
    } else if same_text(name, "Generic") {
        read_generic(r)
    } else {
        None
    }
}

/// Reads a command that is a name alone.
fn read_name(r: &FlexReader<'_>) -> (x: Option<MetaCommand>)
    requires
        r.value() is Text,
    ensures
        read_as(x, command_of(r.value())),
{
    reveal(command_of);
    reveal(MetaCommand::value);
    if same_text(r.text_value().as_str(), "DeleteAllJobs") {
        Some(MetaCommand::DeleteAllJobs)
    } else {
        None
    }
}

#[verifier::rlimit(60)]
#[verifier::spinoff_prover]
fn has_field(name: &str, key: &str) -> (r: bool)
    ensures
        r == is_field(name@, key@),
{
    reveal(is_field);
    let mut r: bool = false;
    r = r || (same_text(name, "CreateSchema") && (
        same_text(key, "schema_name") || same_text(key, "if_not_exists")));
    r = r || (same_text(name, "RenameSchema") && (
        same_text(key, "old_schema_name") || same_text(key, "new_schema_name")));
    r = r || (same_text(name, "RenameSchemaById") && (
        same_text(key, "schema_id") || same_text(key, "new_schema_name")));
    r = r || (same_text(name, "DeleteSchema") && (
        same_text(key, "schema_name")));
    r = r || (same_text(name, "DeleteSchemaById") && (
        same_text(key, "schema_id")));
    r = r || (same_text(name, "CreateTable") && (
        same_text(key, "schema_name") || same_text(key, "table_name")
            || same_text(key, "payload_version") || same_text(key, "payload")));
    r = r || (same_text(name, "CreateTableStructured") && (
        same_text(key, "schema_name") || same_text(key, "table_name")
            || same_text(key, "columns_blob") || same_text(key, "locations")
            || same_text(key, "import_format_blob") || same_text(key, "indexes_blob")
            || same_text(key, "is_ready") || same_text(key, "build_range_end_millis")
            || same_text(key, "seal_at_millis") || same_text(key, "select_statement")
            || same_text(key, "source_columns_blob") || same_text(key, "stream_offset_blob")
            || same_text(key, "unique_key_column_names") || same_text(key, "aggregates")
            || same_text(key, "partition_split_threshold") || same_text(key, "trace_obj")
            || same_text(key, "drop_if_exists") || same_text(key, "extension")
            || same_text(key, "assigned_now_millis")));
    r = r || (same_text(name, "DropTable") && (
        same_text(key, "table_id")));
    r = r || (same_text(name, "SealTable") && (
        same_text(key, "table_id")));
    r = r || (same_text(name, "UpdateLocationDownloadSize") && (
        same_text(key, "table_id") || same_text(key, "location")
            || same_text(key, "download_size")));
    r = r || (same_text(name, "TableReady") && (
        same_text(key, "table_id") || same_text(key, "is_ready")));
    r = r || (same_text(name, "CreatePartition") && (
        same_text(key, "partition_blob")));
    r = r || (same_text(name, "DeletePartition") && (
        same_text(key, "partition_id")));
    r = r || (same_text(name, "MarkPartitionWarmedUp") && (
        same_text(key, "partition_id")));
    r = r || (same_text(name, "DeleteMiddleManPartition") && (
        same_text(key, "partition_id")));
    r = r || (same_text(name, "SwapActivePartitions") && (
        same_text(key, "payload_version") || same_text(key, "payload")));
    r = r || (same_text(name, "SwapActivePartitionsStructured") && (
        same_text(key, "current_active_blob") || same_text(key, "new_active_blob")
            || same_text(key, "new_active_min_max_blob")));
    r = r || (same_text(name, "CreateMultiPartition") && (
        same_text(key, "multi_partition_blob")));
    r = r || (same_text(name, "CommitMultiPartitionSplit") && (
        same_text(key, "multi_partition_id") || same_text(key, "new_multi_partitions")
            || same_text(key, "new_multi_partition_rows") || same_text(key, "old_partitions_blob")
            || same_text(key, "new_partitions_blob") || same_text(key, "new_partition_rows")
            || same_text(key, "initial_split")));
    r = r || (same_text(name, "CreateIndex") && (
        same_text(key, "schema_name") || same_text(key, "table_name")
            || same_text(key, "index_def_blob")));
    r = r || (same_text(name, "CreatePartitionedIndex") && (
        same_text(key, "schema") || same_text(key, "name") || same_text(key, "columns_blob")
            || same_text(key, "if_not_exists")));
    r = r || (same_text(name, "DropPartitionedIndex") && (
        same_text(key, "schema") || same_text(key, "name")));
    r = r || (same_text(name, "CreateChunk") && (
        same_text(key, "chunk_blob")));
    r = r || (same_text(name, "InsertChunks") && (
        same_text(key, "chunks_blob")));
    r = r || (same_text(name, "SwapCompactedChunks") && (
        same_text(key, "partition_id") || same_text(key, "old_chunk_ids")
            || same_text(key, "new_chunk") || same_text(key, "new_chunk_file_size")));
    r = r || (same_text(name, "DeleteChunk") && (
        same_text(key, "chunk_id")));
    r = r || (same_text(name, "DeleteChunksWithoutChecks") && (
        same_text(key, "chunk_ids")));
    r = r || (same_text(name, "ChunkUploaded") && (
        same_text(key, "chunk_id")));
    r = r || (same_text(name, "ChunkUpdateLastInserted") && (
        same_text(key, "chunk_ids") || same_text(key, "last_inserted_at_millis")));
    r = r || (same_text(name, "SwapChunks") && (
        same_text(key, "deactivate_ids") || same_text(key, "uploaded_ids_and_sizes")
            || same_text(key, "new_replay_handle_id")));
    r = r || (same_text(name, "SwapChunksWithoutCheck") && (
        same_text(key, "deactivate_ids") || same_text(key, "uploaded_ids_and_sizes")
            || same_text(key, "new_replay_handle_id")));
    r = r || (same_text(name, "ActivateChunks") && (
        same_text(key, "table_id") || same_text(key, "uploaded_chunk_ids")
            || same_text(key, "replay_handle_id")));
    r = r || (same_text(name, "DeactivateChunk") && (
        same_text(key, "chunk_id") || same_text(key, "assigned_now_millis")));
    r = r || (same_text(name, "DeactivateChunks") && (
        same_text(key, "chunk_ids") || same_text(key, "assigned_now_millis")));
    r = r || (same_text(name, "DeactivateChunksWithoutCheck") && (
        same_text(key, "deactivate_ids")));
    r = r || (same_text(name, "CreateWal") && (
        same_text(key, "table_id") || same_text(key, "row_count")));
    r = r || (same_text(name, "DeleteWal") && (
        same_text(key, "wal_id")));
    r = r || (same_text(name, "WalUploaded") && (
        same_text(key, "wal_id")));
    r = r || (same_text(name, "AddJob") && (
        same_text(key, "job_blob")));
    r = r || (same_text(name, "DeleteJob") && (
        same_text(key, "job_id")));
    r = r || (same_text(name, "StartProcessingJob") && (
        same_text(key, "server_name") || same_text(key, "long_term")
            || same_text(key, "assigned_now_millis")));
    r = r || (same_text(name, "UpdateStatus") && (
        same_text(key, "job_id") || same_text(key, "status_blob")
            || same_text(key, "assigned_now_millis")));
    r = r || (same_text(name, "UpdateHeartBeat") && (
        same_text(key, "job_id") || same_text(key, "assigned_now_millis")));
    r = r || (same_text(name, "CreateOrUpdateSource") && (
        same_text(key, "name") || same_text(key, "credentials_blob")));
    r = r || (same_text(name, "DeleteSource") && (
        same_text(key, "id")));
    r = r || (same_text(name, "CreateReplayHandle") && (
        same_text(key, "table_id") || same_text(key, "location_index")
            || same_text(key, "seq_pointer_blob") || same_text(key, "assigned_now_millis")));
    r = r || (same_text(name, "CreateReplayHandleFromSeqPointers") && (
        same_text(key, "table_id") || same_text(key, "seq_pointers_blob")
            || same_text(key, "assigned_now_millis")));
    r = r || (same_text(name, "UpdateReplayHandleFailedIfExists") && (
        same_text(key, "id") || same_text(key, "failed")));
    r = r || (same_text(name, "ReplaceReplayHandles") && (
        same_text(key, "old_ids") || same_text(key, "new_seq_pointer_blob")));
    r = r || (same_text(name, "SetCurrentSnapshot") && (
        same_text(key, "snapshot_id_low") || same_text(key, "snapshot_id_high")));
    r = r || (same_text(name, "AcquirePartitionedLock") && (
        same_text(key, "payload_version") || same_text(key, "payload")));
    r = r || (same_text(name, "ReleasePartitionedLock") && (
        same_text(key, "payload_version") || same_text(key, "payload")));
    r = r || (same_text(name, "Generic") && (
        same_text(key, "method") || same_text(key, "body")));
    r = r || (same_text(name, "Batch") && (
        same_text(key, "commands")));
    r
}

/// Whether what the record at a reader holds beside the fields of a variant can be passed
/// over.
fn passes_rest(name: &str, r: &FlexReader<'_>) -> (x: bool)
    requires
        r.value() is Record,
    ensures
        x == rest_passes(name@, wire::entries_at(*r)),
{
    let ghost entries = wire::entries_at(*r);
    let n: usize = r.count();
    let mut i: usize = 0;
    while i < n
        invariant
            r.value() == Flex::Record(entries),
            n == entries.len(),
            0 <= i <= n,
            forall|k: int|
                0 <= k < i ==> is_field(name@, (#[trigger] entries[k]).0) || flex::passable(
                    entries[k].1,
                ),
        decreases n - i,
    {
        let key: String = r.key(i);
        if !has_field(name, key.as_str()) && !r.item(i).can_pass() {
            assert(!is_field(name@, entries[i as int].0));
            return false;
        }
        i = i + 1;
    }
    true
}

/// Reads a command that is a record.
fn read_tagged(r: &FlexReader<'_>) -> (x: Option<MetaCommand>)
    requires
        r.value() is Record,
    ensures
        read_as(x, command_of(r.value())),
    decreases r.depth(),
{
    reveal(command_of);
    reveal(MetaCommand::value);
    if r.count() == 0 {
        return None;
    }
    let name: String = r.key(0);
    let body: FlexReader<'_> = r.item(0);
    if same_text(name.as_str(), "DeleteAllJobs") {
        return Some(MetaCommand::DeleteAllJobs);
    }
    proof {
        let fields = wire::entries_at(body);
        assert(tagged("Batch"@, fields)->Record_0[0] == ("Batch"@, Flex::Record(fields)));
    }
    match body.kind() {
        FlexKind::Record => if !passes_rest(name.as_str(), &body) {
            None
        } else if same_text(name.as_str(), "Batch") {
            read_batch(&body)
        } else {
            read_variant(name.as_str(), &body)
        },
        _ => None,
    }
}

/// Reads the command at a reader, if there is one.
pub(crate) fn read_command(r: &FlexReader<'_>) -> (x: Option<MetaCommand>)
    ensures
        read_as(x, command_of(r.value())),
{
    reveal(command_of);
    match r.kind() {
        FlexKind::Text => read_name(r),
        FlexKind::Record => read_tagged(r),
        _ => None,
    }
}

/// The value that the fields of a batch are read as.
pub open spec fn batch_of(fields: Seq<(Seq<char>, Flex)>) -> Option<Flex> {
    command_of(tagged("Batch"@, fields))
}

proof fn lemma_batch_of(fields: Seq<(Seq<char>, Flex)>)
    requires
        rest_passes("Batch"@, fields),
    ensures
        match wire::find(fields, "commands"@) {
            wire::Found::At(i) => match fields[i].1 {
                Flex::Vector(items) => {
                    &&& batch_of(fields) is Some <==> forall|k: int|
                        0 <= k < items.len() ==> command_of(#[trigger] items[k]) is Some
                    &&& batch_of(fields) matches Some(v) ==> v == tagged(
                        "Batch"@,
                        seq![("commands"@, Flex::Vector(read_items(items)))],
                    )
                },
                _ => batch_of(fields) is None,
            },
            _ => batch_of(fields) is None,
        },
{
    reveal(command_of);
    reveal_strlit("Batch");
    reveal_strlit("DeleteAllJobs");
    wire::lemma_find_at(fields, "commands"@);
    let w = tagged("Batch"@, fields);
    assert("Batch"@.len() != "DeleteAllJobs"@.len());
    assert(w->Record_0[0] == ("Batch"@, Flex::Record(fields)));
    if let wire::Found::At(i) = wire::find(fields, "commands"@) {
        if let Flex::Vector(items) = fields[i].1 {
            if let Some(v) = batch_of(fields) {
                assert(
                    forall|k: int| 0 <= k < items.len() ==> command_of(#[trigger] items[k]) is Some
                );
                assert(fields_in(v).len() == 1);
                let got = fields_in(v)[0].1->Vector_0;
                assert(got =~= read_items(items));
                assert(fields_in(v) =~= seq![("commands"@, Flex::Vector(read_items(items)))]);
            }
        }
    }
}

/// The values that the items of a batch are read as.
pub open spec fn read_items(items: Seq<Flex>) -> Seq<Flex> {
    Seq::new(items.len(), |k: int| command_of(items[k])->0)
}

fn read_batch(r: &FlexReader<'_>) -> (x: Option<MetaCommand>)
    requires
        r.value() is Record,
        rest_passes("Batch"@, wire::entries_at(*r)),
    ensures
        read_as(x, batch_of(wire::entries_at(*r))),
    decreases r.depth(),
{
    let ghost fields = wire::entries_at(*r);
    proof {
        wire::lemma_find_at(fields, "commands"@);
        lemma_batch_of(fields);
    }
    let list: FlexReader<'_> = match find_field(r, "commands") {
        Field::At(item) => item,
        _ => {
            return None;
        },
    };
    match list.kind() {
        FlexKind::Vector => {},
        _ => {
            return None;
        },
    }
    let n: usize = list.count();
    let ghost items = list.value()->Vector_0;
    let mut commands: Vec<MetaCommand> = Vec::new();
    let mut i: usize = 0;
    while i < n
        invariant
            fields == wire::entries_at(*r),
            list.depth() < r.depth(),
            list.value() == Flex::Vector(items),
            items.len() == n,
            batch_of(fields) is Some ==> forall|k: int|
                0 <= k < n ==> command_of(#[trigger] items[k]) is Some,
            0 <= i <= n,
            commands@.len() == i,
            forall|k: int|
                0 <= k < i ==> command_of(#[trigger] items[k]) == Some(commands@[k].value()),
        decreases n - i,
    {
        let item: FlexReader<'_> = list.item(i);
        assert(item.value() == items[i as int]);
        let read: Option<MetaCommand> = match item.kind() {
            FlexKind::Text => read_name(&item),
            FlexKind::Record => read_tagged(&item),
            _ => {
                reveal(command_of);
                None
            },
        };
        match read {
            None => {
                return None;
            },
            Some(command) => {
                commands.push(command);
            },
        }
        i = i + 1;
    }
    proof {
        reveal(MetaCommand::value);
        assert(forall|k: int| 0 <= k < n ==> command_of(#[trigger] items[k]) is Some);
        assert(commands_value(commands@) =~= read_items(items));
    }
    Some(MetaCommand::Batch { commands })
}

// ---------------------------------------------------------------------------
// What was written is read back
// ---------------------------------------------------------------------------

proof fn lemma_distinct(fields: Seq<(Seq<char>, Flex)>, codes: Seq<int>)
    requires
        fields.len() == codes.len(),
        forall|i: int| 0 <= i < fields.len() ==> name_code((#[trigger] fields[i]).0) == codes[i],
        forall|i: int, j: int| 0 <= i < j < codes.len() ==> #[trigger] codes[i] != #[trigger] codes[j],
    ensures
        flex::distinct_keys(fields),
{
    assert forall|i: int, j: int| 0 <= i < j < fields.len() implies (#[trigger] fields[i]).0 != (
    #[trigger] fields[j]).0 by {
        assert(codes[i] != codes[j]);
    }
}

proof fn lemma_tagged_storable(name: Seq<char>, fields: Seq<(Seq<char>, Flex)>)
    requires
        flex::distinct_keys(fields),
        forall|i: int| 0 <= i < fields.len() ==> flex::storable((#[trigger] fields[i]).1),
    ensures
        flex::storable(tagged(name, fields)),
{
    assert(flex::storable(Flex::Record(fields)));
}

proof fn lemma_tagged_same(name: Seq<char>, fields: Seq<(Seq<char>, Flex)>, w: Flex)
    requires
        flex::same_value(tagged(name, fields), w),
    ensures
        w is Record,
        w->Record_0.len() == 1,
        w->Record_0[0].0 == name,
        w->Record_0[0].1 is Record,
        flex::same_value(Flex::Record(fields), Flex::Record(w->Record_0[0].1->Record_0)),
{
    let a = seq![(name, Flex::Record(fields))];
    let b = w->Record_0;
    assert(a[0] == (name, Flex::Record(fields)));
    assert(tagged(name, fields) == Flex::Record(a));
    let j = choose|j: int|
        0 <= j < b.len() && (#[trigger] b[j]).0 == a[0].0 && flex::same_value(a[0].1, b[j].1);
    assert(b[0] == b[j]);
}

proof fn lemma_flat_fields(name: Seq<char>, fields: Seq<(Seq<char>, Flex)>)
    requires
        flex::distinct_keys(fields),
        forall|i: int| 0 <= i < fields.len() ==> flex::flat((#[trigger] fields[i]).1),
    ensures
        flex::storable(tagged(name, fields)),
{
    assert forall|i: int| 0 <= i < fields.len() implies flex::storable(
        (#[trigger] fields[i]).1,
    ) by {
        flex::lemma_flat_storable(fields[i].1);
    }
    lemma_tagged_storable(name, fields);
}

/// The entries that a variant's fields are stored as, and what they hold.
proof fn lemma_variant_back(name: Seq<char>, fields: Seq<(Seq<char>, Flex)>, w: Flex) -> (e: Seq<
    (Seq<char>, Flex),
>)
    requires
        flex::same_value(tagged(name, fields), w),
        forall|i: int| 0 <= i < fields.len() ==> flex::flat((#[trigger] fields[i]).1),
    ensures
        name != "Batch"@ && name != "DeleteAllJobs"@ ==> command_of(w) == variant_of(name, e),
        forall|i: int|
            0 <= i < fields.len() ==> wire::entry(e, (#[trigger] fields[i]).0) == Some(fields[i].1)
                && wire::optional_entry(e, fields[i].0) == Some(fields[i].1),
{
    reveal(command_of);
    lemma_tagged_same(name, fields, w);
    let e = w->Record_0[0].1->Record_0;
    wire::lemma_read_back(fields, e);
    assert forall|j: int| 0 <= j < e.len() implies flex::passable((#[trigger] e[j]).1) by {
        let i = choose|i: int|
            0 <= i < fields.len() && e[j].0 == (#[trigger] fields[i]).0 && flex::same_value(
                fields[i].1,
                e[j].1,
            );
        flex::lemma_flat_same(fields[i].1, e[j].1);
        flex::lemma_flat_passable(fields[i].1);
    }
    assert(rest_passes(name, e));
    e
}

proof fn lemma_create_schema(schema_name: Seq<char>, if_not_exists: bool, w: Flex)
    ensures
        flex::storable(create_schema_value(schema_name, if_not_exists)),
        flex::same_value(
            create_schema_value(schema_name, if_not_exists),
            w,
        ) ==> command_of(w) == Some(create_schema_value(schema_name, if_not_exists)),
{
    let v = create_schema_value(schema_name, if_not_exists);
    let fields = fields_in(v);
    let codes: Seq<int> = seq![24965349int, 28995571];
    reveal_strlit("schema_name");
    reveal_strlit("if_not_exists");
    assert(fields[0] == ("schema_name"@, Flex::Text(schema_name)));
    assert(fields[1] == ("if_not_exists"@, Flex::Bool(if_not_exists)));
    lemma_distinct(fields, codes);
    lemma_flat_fields("CreateSchema"@, fields);
    if flex::same_value(v, w) {
        let e = lemma_variant_back("CreateSchema"@, fields, w);
        lemma_variant_names();
        reveal(variant_of);
        wire::lemma_text_back(e, fields[0].0, schema_name);
        wire::lemma_bool_back(e, fields[1].0, if_not_exists);
    }
}

proof fn lemma_rename_schema(old_schema_name: Seq<char>, new_schema_name: Seq<char>, w: Flex)
    ensures
        flex::storable(rename_schema_value(old_schema_name, new_schema_name)),
        flex::same_value(
            rename_schema_value(old_schema_name, new_schema_name),
            w,
        ) ==> command_of(w) == Some(rename_schema_value(old_schema_name, new_schema_name)),
{
    let v = rename_schema_value(old_schema_name, new_schema_name);
    let fields = fields_in(v);
    let codes: Seq<int> = seq![33288933int, 33272549];
    reveal_strlit("old_schema_name");
    reveal_strlit("new_schema_name");
    assert(fields[0] == ("old_schema_name"@, Flex::Text(old_schema_name)));
    assert(fields[1] == ("new_schema_name"@, Flex::Text(new_schema_name)));
    lemma_distinct(fields, codes);
    lemma_flat_fields("RenameSchema"@, fields);
    if flex::same_value(v, w) {
        let e = lemma_variant_back("RenameSchema"@, fields, w);
        lemma_variant_names();
        reveal(variant_of);
        wire::lemma_text_back(e, fields[0].0, old_schema_name);
        wire::lemma_text_back(e, fields[1].0, new_schema_name);
    }
}

proof fn lemma_rename_schema_by_id(schema_id: u64, new_schema_name: Seq<char>, w: Flex)
    ensures
        flex::storable(rename_schema_by_id_value(schema_id, new_schema_name)),
        flex::same_value(
            rename_schema_by_id_value(schema_id, new_schema_name),
            w,
        ) ==> command_of(w) == Some(rename_schema_by_id_value(schema_id, new_schema_name)),
{
    let v = rename_schema_by_id_value(schema_id, new_schema_name);
    let fields = fields_in(v);
    let codes: Seq<int> = seq![20772580int, 33272549];
    reveal_strlit("schema_id");
    reveal_strlit("new_schema_name");
    assert(fields[0] == ("schema_id"@, Flex::UInt(schema_id)));
    assert(fields[1] == ("new_schema_name"@, Flex::Text(new_schema_name)));
    lemma_distinct(fields, codes);
    lemma_flat_fields("RenameSchemaById"@, fields);
    if flex::same_value(v, w) {
        let e = lemma_variant_back("RenameSchemaById"@, fields, w);
        lemma_variant_names();
        reveal(variant_of);
        wire::lemma_u64_back(e, fields[0].0, schema_id);
        wire::lemma_text_back(e, fields[1].0, new_schema_name);
    }
}

proof fn lemma_delete_schema(schema_name: Seq<char>, w: Flex)
    ensures
        flex::storable(delete_schema_value(schema_name)),
        flex::same_value(
            delete_schema_value(schema_name),
            w,
        ) ==> command_of(w) == Some(delete_schema_value(schema_name)),
{
    let v = delete_schema_value(schema_name);
    let fields = fields_in(v);
    let codes: Seq<int> = seq![24965349int];
    reveal_strlit("schema_name");
    assert(fields[0] == ("schema_name"@, Flex::Text(schema_name)));
    lemma_distinct(fields, codes);
    lemma_flat_fields("DeleteSchema"@, fields);
    if flex::same_value(v, w) {
        let e = lemma_variant_back("DeleteSchema"@, fields, w);
        lemma_variant_names();
        reveal(variant_of);
        wire::lemma_text_back(e, fields[0].0, schema_name);
    }
}

proof fn lemma_delete_schema_by_id(schema_id: u64, w: Flex)
    ensures
        flex::storable(delete_schema_by_id_value(schema_id)),
        flex::same_value(
            delete_schema_by_id_value(schema_id),
            w,
        ) ==> command_of(w) == Some(delete_schema_by_id_value(schema_id)),
{
    let v = delete_schema_by_id_value(schema_id);
    let fields = fields_in(v);
    let codes: Seq<int> = seq![20772580int];
    reveal_strlit("schema_id");
    assert(fields[0] == ("schema_id"@, Flex::UInt(schema_id)));
    lemma_distinct(fields, codes);
    lemma_flat_fields("DeleteSchemaById"@, fields);
    if flex::same_value(v, w) {
        let e = lemma_variant_back("DeleteSchemaById"@, fields, w);
        lemma_variant_names();
        reveal(variant_of);
        wire::lemma_u64_back(e, fields[0].0, schema_id);
    }
}

proof fn lemma_create_table(
    schema_name: Seq<char>,
    table_name: Seq<char>,
    payload_version: u16,
    payload: Seq<u8>,
    w: Flex,
)
    ensures
        flex::storable(create_table_value(schema_name, table_name, payload_version, payload)),
        flex::same_value(
            create_table_value(schema_name, table_name, payload_version, payload),
            w,
        ) ==> command_of(w) == Some(
            create_table_value(schema_name, table_name, payload_version, payload),
        ),
{
    let v = create_table_value(schema_name, table_name, payload_version, payload);
    let fields = fields_in(v);
    let codes: Seq<int> = seq![24965349int, 22884325, 33304558, 16528996];
    reveal_strlit("schema_name");
    reveal_strlit("table_name");
    reveal_strlit("payload_version");
    reveal_strlit("payload");
    assert(fields[0] == ("schema_name"@, Flex::Text(schema_name)));
    assert(fields[1] == ("table_name"@, Flex::Text(table_name)));
    assert(fields[2] == ("payload_version"@, Flex::UInt(payload_version as u64)));
    assert(fields[3] == ("payload"@, wire::bytes_value(payload)));
    wire::lemma_bytes_value(payload);
    lemma_distinct(fields, codes);
    lemma_flat_fields("CreateTable"@, fields);
    if flex::same_value(v, w) {
        let e = lemma_variant_back("CreateTable"@, fields, w);
        lemma_variant_names();
        reveal(variant_of);
        wire::lemma_text_back(e, fields[0].0, schema_name);
        wire::lemma_text_back(e, fields[1].0, table_name);
        wire::lemma_u16_back(e, fields[2].0, payload_version);
        wire::lemma_bytes_back(e, fields[3].0, payload);
    }
}

proof fn lemma_create_table_structured(
    schema_name: Seq<char>,
    table_name: Seq<char>,
    columns_blob: Seq<u8>,
    locations: Option<Seq<Seq<char>>>,
    import_format_blob: Option<Seq<u8>>,
    indexes_blob: Seq<u8>,
    is_ready: bool,
    build_range_end_millis: Option<i64>,
    seal_at_millis: Option<i64>,
    select_statement: Option<Seq<char>>,
    source_columns_blob: Option<Seq<u8>>,
    stream_offset_blob: Option<Seq<u8>>,
    unique_key_column_names: Option<Seq<Seq<char>>>,
    aggregates: Option<Seq<(Seq<char>, Seq<char>)>>,
    partition_split_threshold: Option<u64>,
    trace_obj: Option<Seq<char>>,
    drop_if_exists: bool,
    extension: Option<Seq<char>>,
    assigned_now_millis: i64,
    w: Flex,
)
    ensures
        flex::storable(
            create_table_structured_value(
                schema_name,
                table_name,
                columns_blob,
                locations,
                import_format_blob,
                indexes_blob,
                is_ready,
                build_range_end_millis,
                seal_at_millis,
                select_statement,
                source_columns_blob,
                stream_offset_blob,
                unique_key_column_names,
                aggregates,
                partition_split_threshold,
                trace_obj,
                drop_if_exists,
                extension,
                assigned_now_millis,
            ),
        ),
        flex::same_value(
            create_table_structured_value(
                schema_name,
                table_name,
                columns_blob,
                locations,
                import_format_blob,
                indexes_blob,
                is_ready,
                build_range_end_millis,
                seal_at_millis,
                select_statement,
                source_columns_blob,
                stream_offset_blob,
                unique_key_column_names,
                aggregates,
                partition_split_threshold,
                trace_obj,
                drop_if_exists,
                extension,
                assigned_now_millis,
            ),
            w,
        ) ==> command_of(w) == Some(
            create_table_structured_value(
                schema_name,
                table_name,
                columns_blob,
                locations,
                import_format_blob,
                indexes_blob,
                is_ready,
                build_range_end_millis,
                seal_at_millis,
                select_statement,
                source_columns_blob,
                stream_offset_blob,
                unique_key_column_names,
                aggregates,
                partition_split_threshold,
                trace_obj,
                drop_if_exists,
                extension,
                assigned_now_millis,
            ),
        ),
{
    let v = create_table_structured_value(
        schema_name,
        table_name,
        columns_blob,
        locations,
        import_format_blob,
        indexes_blob,
        is_ready,
        build_range_end_millis,
        seal_at_millis,
        select_statement,
        source_columns_blob,
        stream_offset_blob,
        unique_key_column_names,
        aggregates,
        partition_split_threshold,
        trace_obj,
        drop_if_exists,
        extension,
        assigned_now_millis,
    );
    let fields = fields_in(v);
    let codes: Seq<int> = seq![
        24965349int,
        22884325,
        26802658,
        20658803,
        39483746,
        26900962,
        18510585,
        47755251,
        31256563,
        35453556,
        41743970,
        39646050,
        50164211,
        22574067,
        54277732,
        20787946,
        31010803,
        20543342,
        41449331,
    ];
    reveal_strlit("schema_name");
    reveal_strlit("table_name");
    reveal_strlit("columns_blob");
    reveal_strlit("locations");
    reveal_strlit("import_format_blob");
    reveal_strlit("indexes_blob");
    reveal_strlit("is_ready");
    reveal_strlit("build_range_end_millis");
    reveal_strlit("seal_at_millis");
    reveal_strlit("select_statement");
    reveal_strlit("source_columns_blob");
    reveal_strlit("stream_offset_blob");
    reveal_strlit("unique_key_column_names");
    reveal_strlit("aggregates");
    reveal_strlit("partition_split_threshold");
    reveal_strlit("trace_obj");
    reveal_strlit("drop_if_exists");
    reveal_strlit("extension");
    reveal_strlit("assigned_now_millis");
    assert(fields[0] == ("schema_name"@, Flex::Text(schema_name)));
    assert(fields[1] == ("table_name"@, Flex::Text(table_name)));
    assert(fields[2] == ("columns_blob"@, wire::bytes_value(columns_blob)));
    wire::lemma_bytes_value(columns_blob);
    assert(fields[3] == ("locations"@, wire::opt_texts_value(locations)));
    wire::lemma_opt_texts_flat(locations);
    assert(fields[4] == ("import_format_blob"@, wire::opt_bytes_value(import_format_blob)));
    wire::lemma_opt_bytes_flat(import_format_blob);
    assert(fields[5] == ("indexes_blob"@, wire::bytes_value(indexes_blob)));
    wire::lemma_bytes_value(indexes_blob);
    assert(fields[6] == ("is_ready"@, Flex::Bool(is_ready)));
    assert(fields[7] == ("build_range_end_millis"@, wire::opt_i64_value(build_range_end_millis)));
    wire::lemma_opt_i64_flat(build_range_end_millis);
    assert(fields[8] == ("seal_at_millis"@, wire::opt_i64_value(seal_at_millis)));
    wire::lemma_opt_i64_flat(seal_at_millis);
    assert(fields[9] == ("select_statement"@, wire::opt_text_value(select_statement)));
    wire::lemma_opt_text_flat(select_statement);
    assert(fields[10] == ("source_columns_blob"@, wire::opt_bytes_value(source_columns_blob)));
    wire::lemma_opt_bytes_flat(source_columns_blob);
    assert(fields[11] == ("stream_offset_blob"@, wire::opt_bytes_value(stream_offset_blob)));
    wire::lemma_opt_bytes_flat(stream_offset_blob);
    assert(
        fields[12] == ("unique_key_column_names"@, wire::opt_texts_value(unique_key_column_names))
    );
    wire::lemma_opt_texts_flat(unique_key_column_names);
    assert(fields[13] == ("aggregates"@, wire::opt_pairs_value(aggregates)));
    wire::lemma_opt_pairs_flat(aggregates);
    assert(
        fields[14] == (
            "partition_split_threshold"@,
            wire::opt_u64_value(partition_split_threshold),
        )
    );
    wire::lemma_opt_u64_flat(partition_split_threshold);
    assert(fields[15] == ("trace_obj"@, wire::opt_text_value(trace_obj)));
    wire::lemma_opt_text_flat(trace_obj);
    assert(fields[16] == ("drop_if_exists"@, Flex::Bool(drop_if_exists)));
    assert(fields[17] == ("extension"@, wire::opt_text_value(extension)));
    wire::lemma_opt_text_flat(extension);
    assert(fields[18] == ("assigned_now_millis"@, Flex::Int(assigned_now_millis)));
    lemma_distinct(fields, codes);
    lemma_flat_fields("CreateTableStructured"@, fields);
    if flex::same_value(v, w) {
        let e = lemma_variant_back("CreateTableStructured"@, fields, w);
        lemma_variant_names();
        reveal(variant_of);
        wire::lemma_text_back(e, fields[0].0, schema_name);
        wire::lemma_text_back(e, fields[1].0, table_name);
        wire::lemma_bytes_back(e, fields[2].0, columns_blob);
        wire::lemma_opt_texts_back(e, fields[3].0, locations);
        wire::lemma_opt_bytes_back(e, fields[4].0, import_format_blob);
        wire::lemma_bytes_back(e, fields[5].0, indexes_blob);
        wire::lemma_bool_back(e, fields[6].0, is_ready);
        wire::lemma_opt_i64_back(e, fields[7].0, build_range_end_millis);
        wire::lemma_opt_i64_back(e, fields[8].0, seal_at_millis);
        wire::lemma_opt_text_back(e, fields[9].0, select_statement);
        wire::lemma_opt_bytes_back(e, fields[10].0, source_columns_blob);
        wire::lemma_opt_bytes_back(e, fields[11].0, stream_offset_blob);
        wire::lemma_opt_texts_back(e, fields[12].0, unique_key_column_names);
        wire::lemma_opt_pairs_back(e, fields[13].0, aggregates);
        wire::lemma_opt_u64_back(e, fields[14].0, partition_split_threshold);
        wire::lemma_opt_text_back(e, fields[15].0, trace_obj);
        wire::lemma_bool_back(e, fields[16].0, drop_if_exists);
        wire::lemma_opt_text_back(e, fields[17].0, extension);
        wire::lemma_i64_back(e, fields[18].0, assigned_now_millis);
    }
}

proof fn lemma_drop_table(table_id: u64, w: Flex)
    ensures
        flex::storable(drop_table_value(table_id)),
        flex::same_value(
            drop_table_value(table_id),
            w,
        ) ==> command_of(w) == Some(drop_table_value(table_id)),
{
    let v = drop_table_value(table_id);
    let fields = fields_in(v);
    let codes: Seq<int> = seq![18690788int];
    reveal_strlit("table_id");
    assert(fields[0] == ("table_id"@, Flex::UInt(table_id)));
    lemma_distinct(fields, codes);
    lemma_flat_fields("DropTable"@, fields);
    if flex::same_value(v, w) {
        let e = lemma_variant_back("DropTable"@, fields, w);
        lemma_variant_names();
        reveal(variant_of);
        wire::lemma_u64_back(e, fields[0].0, table_id);
    }
}

proof fn lemma_seal_table(table_id: u64, w: Flex)
    ensures
        flex::storable(seal_table_value(table_id)),
        flex::same_value(
            seal_table_value(table_id),
            w,
        ) ==> command_of(w) == Some(seal_table_value(table_id)),
{
    let v = seal_table_value(table_id);
    let fields = fields_in(v);
    let codes: Seq<int> = seq![18690788int];
    reveal_strlit("table_id");
    assert(fields[0] == ("table_id"@, Flex::UInt(table_id)));
    lemma_distinct(fields, codes);
    lemma_flat_fields("SealTable"@, fields);
    if flex::same_value(v, w) {
        let e = lemma_variant_back("SealTable"@, fields, w);
        lemma_variant_names();
        reveal(variant_of);
        wire::lemma_u64_back(e, fields[0].0, table_id);
    }
}

proof fn lemma_update_location_download_size(
    table_id: u64,
    location: Seq<char>,
    download_size: u64,
    w: Flex,
)
    ensures
        flex::storable(update_location_download_size_value(table_id, location, download_size)),
        flex::same_value(
            update_location_download_size_value(table_id, location, download_size),
            w,
        ) ==> command_of(w) == Some(
            update_location_download_size_value(table_id, location, download_size),
        ),
{
    let v = update_location_download_size_value(table_id, location, download_size);
    let fields = fields_in(v);
    let codes: Seq<int> = seq![18690788int, 18561646, 28913893];
    reveal_strlit("table_id");
    reveal_strlit("location");
    reveal_strlit("download_size");
    assert(fields[0] == ("table_id"@, Flex::UInt(table_id)));
    assert(fields[1] == ("location"@, Flex::Text(location)));
    assert(fields[2] == ("download_size"@, Flex::UInt(download_size)));
    lemma_distinct(fields, codes);
    lemma_flat_fields("UpdateLocationDownloadSize"@, fields);
    if flex::same_value(v, w) {
        let e = lemma_variant_back("UpdateLocationDownloadSize"@, fields, w);
        lemma_variant_names();
        reveal(variant_of);
        wire::lemma_u64_back(e, fields[0].0, table_id);
        wire::lemma_text_back(e, fields[1].0, location);
        wire::lemma_u64_back(e, fields[2].0, download_size);
    }
}

proof fn lemma_table_ready(table_id: u64, is_ready: bool, w: Flex)
    ensures
        flex::storable(table_ready_value(table_id, is_ready)),
        flex::same_value(
            table_ready_value(table_id, is_ready),
            w,
        ) ==> command_of(w) == Some(table_ready_value(table_id, is_ready)),
{
    let v = table_ready_value(table_id, is_ready);
    let fields = fields_in(v);
    let codes: Seq<int> = seq![18690788int, 18510585];
    reveal_strlit("table_id");
    reveal_strlit("is_ready");
    assert(fields[0] == ("table_id"@, Flex::UInt(table_id)));
    assert(fields[1] == ("is_ready"@, Flex::Bool(is_ready)));
    lemma_distinct(fields, codes);
    lemma_flat_fields("TableReady"@, fields);
    if flex::same_value(v, w) {
        let e = lemma_variant_back("TableReady"@, fields, w);
        lemma_variant_names();
        reveal(variant_of);
        wire::lemma_u64_back(e, fields[0].0, table_id);
        wire::lemma_bool_back(e, fields[1].0, is_ready);
    }
}

proof fn lemma_create_partition(partition_blob: Seq<u8>, w: Flex)
    ensures
        flex::storable(create_partition_value(partition_blob)),
        flex::same_value(
            create_partition_value(partition_blob),
            w,
        ) ==> command_of(w) == Some(create_partition_value(partition_blob)),
{
    let v = create_partition_value(partition_blob);
    let fields = fields_in(v);
    let codes: Seq<int> = seq![31209442int];
    reveal_strlit("partition_blob");
    assert(fields[0] == ("partition_blob"@, wire::bytes_value(partition_blob)));
    wire::lemma_bytes_value(partition_blob);
    lemma_distinct(fields, codes);
    lemma_flat_fields("CreatePartition"@, fields);
    if flex::same_value(v, w) {
        let e = lemma_variant_back("CreatePartition"@, fields, w);
        lemma_variant_names();
        reveal(variant_of);
        wire::lemma_bytes_back(e, fields[0].0, partition_blob);
    }
}

proof fn lemma_delete_partition(partition_id: u64, w: Flex)
    ensures
        flex::storable(delete_partition_value(partition_id)),
        flex::same_value(
            delete_partition_value(partition_id),
            w,
        ) ==> command_of(w) == Some(delete_partition_value(partition_id)),
{
    let v = delete_partition_value(partition_id);
    let fields = fields_in(v);
    let codes: Seq<int> = seq![27014372int];
    reveal_strlit("partition_id");
    assert(fields[0] == ("partition_id"@, Flex::UInt(partition_id)));
    lemma_distinct(fields, codes);
    lemma_flat_fields("DeletePartition"@, fields);
    if flex::same_value(v, w) {
        let e = lemma_variant_back("DeletePartition"@, fields, w);
        lemma_variant_names();
        reveal(variant_of);
        wire::lemma_u64_back(e, fields[0].0, partition_id);
    }
}

proof fn lemma_mark_partition_warmed_up(partition_id: u64, w: Flex)
    ensures
        flex::storable(mark_partition_warmed_up_value(partition_id)),
        flex::same_value(
            mark_partition_warmed_up_value(partition_id),
            w,
        ) ==> command_of(w) == Some(mark_partition_warmed_up_value(partition_id)),
{
    let v = mark_partition_warmed_up_value(partition_id);
    let fields = fields_in(v);
    let codes: Seq<int> = seq![27014372int];
    reveal_strlit("partition_id");
    assert(fields[0] == ("partition_id"@, Flex::UInt(partition_id)));
    lemma_distinct(fields, codes);
    lemma_flat_fields("MarkPartitionWarmedUp"@, fields);
    if flex::same_value(v, w) {
        let e = lemma_variant_back("MarkPartitionWarmedUp"@, fields, w);
        lemma_variant_names();
        reveal(variant_of);
        wire::lemma_u64_back(e, fields[0].0, partition_id);
    }
}

proof fn lemma_delete_middle_man_partition(partition_id: u64, w: Flex)
    ensures
        flex::storable(delete_middle_man_partition_value(partition_id)),
        flex::same_value(
            delete_middle_man_partition_value(partition_id),
            w,
        ) ==> command_of(w) == Some(delete_middle_man_partition_value(partition_id)),
{
    let v = delete_middle_man_partition_value(partition_id);
    let fields = fields_in(v);
    let codes: Seq<int> = seq![27014372int];
    reveal_strlit("partition_id");
    assert(fields[0] == ("partition_id"@, Flex::UInt(partition_id)));
    lemma_distinct(fields, codes);
    lemma_flat_fields("DeleteMiddleManPartition"@, fields);
    if flex::same_value(v, w) {
        let e = lemma_variant_back("DeleteMiddleManPartition"@, fields, w);
        lemma_variant_names();
        reveal(variant_of);
        wire::lemma_u64_back(e, fields[0].0, partition_id);
    }
}

proof fn lemma_swap_active_partitions(payload_version: u16, payload: Seq<u8>, w: Flex)
    ensures
        flex::storable(swap_active_partitions_value(payload_version, payload)),
        flex::same_value(
            swap_active_partitions_value(payload_version, payload),
            w,
        ) ==> command_of(w) == Some(swap_active_partitions_value(payload_version, payload)),
{
    let v = swap_active_partitions_value(payload_version, payload);
    let fields = fields_in(v);
    let codes: Seq<int> = seq![33304558int, 16528996];
    reveal_strlit("payload_version");
    reveal_strlit("payload");
    assert(fields[0] == ("payload_version"@, Flex::UInt(payload_version as u64)));
    assert(fields[1] == ("payload"@, wire::bytes_value(payload)));
    wire::lemma_bytes_value(payload);
    lemma_distinct(fields, codes);
    lemma_flat_fields("SwapActivePartitions"@, fields);
    if flex::same_value(v, w) {
        let e = lemma_variant_back("SwapActivePartitions"@, fields, w);
        lemma_variant_names();
        reveal(variant_of);
        wire::lemma_u16_back(e, fields[0].0, payload_version);
        wire::lemma_bytes_back(e, fields[1].0, payload);
    }
}

proof fn lemma_swap_active_partitions_structured(
    current_active_blob: Seq<u8>,
    new_active_blob: Seq<u8>,
    new_active_min_max_blob: Seq<u8>,
    w: Flex,
)
    ensures
        flex::storable(
            swap_active_partitions_structured_value(
                current_active_blob,
                new_active_blob,
                new_active_min_max_blob,
            ),
        ),
        flex::same_value(
            swap_active_partitions_structured_value(
                current_active_blob,
                new_active_blob,
                new_active_min_max_blob,
            ),
            w,
        ) ==> command_of(w) == Some(
            swap_active_partitions_structured_value(
                current_active_blob,
                new_active_blob,
                new_active_min_max_blob,
            ),
        ),
{
    let v = swap_active_partitions_structured_value(
        current_active_blob,
        new_active_blob,
        new_active_min_max_blob,
    );
    let fields = fields_in(v);
    let codes: Seq<int> = seq![41480674int, 33273058, 50050786];
    reveal_strlit("current_active_blob");
    reveal_strlit("new_active_blob");
    reveal_strlit("new_active_min_max_blob");
    assert(fields[0] == ("current_active_blob"@, wire::bytes_value(current_active_blob)));
    wire::lemma_bytes_value(current_active_blob);
    assert(fields[1] == ("new_active_blob"@, wire::bytes_value(new_active_blob)));
    wire::lemma_bytes_value(new_active_blob);
    assert(fields[2] == ("new_active_min_max_blob"@, wire::bytes_value(new_active_min_max_blob)));
    wire::lemma_bytes_value(new_active_min_max_blob);
    lemma_distinct(fields, codes);
    lemma_flat_fields("SwapActivePartitionsStructured"@, fields);
    if flex::same_value(v, w) {
        let e = lemma_variant_back("SwapActivePartitionsStructured"@, fields, w);
        lemma_variant_names();
        reveal(variant_of);
        wire::lemma_bytes_back(e, fields[0].0, current_active_blob);
        wire::lemma_bytes_back(e, fields[1].0, new_active_blob);
        wire::lemma_bytes_back(e, fields[2].0, new_active_min_max_blob);
    }
}

proof fn lemma_create_multi_partition(multi_partition_blob: Seq<u8>, w: Flex)
    ensures
        flex::storable(create_multi_partition_value(multi_partition_blob)),
        flex::same_value(
            create_multi_partition_value(multi_partition_blob),
            w,
        ) ==> command_of(w) == Some(create_multi_partition_value(multi_partition_blob)),
{
    let v = create_multi_partition_value(multi_partition_blob);
    let fields = fields_in(v);
    let codes: Seq<int> = seq![43742434int];
    reveal_strlit("multi_partition_blob");
    assert(fields[0] == ("multi_partition_blob"@, wire::bytes_value(multi_partition_blob)));
    wire::lemma_bytes_value(multi_partition_blob);
    lemma_distinct(fields, codes);
    lemma_flat_fields("CreateMultiPartition"@, fields);
    if flex::same_value(v, w) {
        let e = lemma_variant_back("CreateMultiPartition"@, fields, w);
        lemma_variant_names();
        reveal(variant_of);
        wire::lemma_bytes_back(e, fields[0].0, multi_partition_blob);
    }
}

proof fn lemma_commit_multi_partition_split(
    multi_partition_id: u64,
    new_multi_partitions: Seq<u64>,
    new_multi_partition_rows: Seq<u64>,
    old_partitions_blob: Seq<u8>,
    new_partitions_blob: Seq<u8>,
    new_partition_rows: Seq<u64>,
    initial_split: bool,
    w: Flex,
)
    ensures
        flex::storable(
            commit_multi_partition_split_value(
                multi_partition_id,
                new_multi_partitions,
                new_multi_partition_rows,
                old_partitions_blob,
                new_partitions_blob,
                new_partition_rows,
                initial_split,
            ),
        ),
        flex::same_value(
            commit_multi_partition_split_value(
                multi_partition_id,
                new_multi_partitions,
                new_multi_partition_rows,
                old_partitions_blob,
                new_partitions_blob,
                new_partition_rows,
                initial_split,
            ),
            w,
        ) ==> command_of(w) == Some(
            commit_multi_partition_split_value(
                multi_partition_id,
                new_multi_partitions,
                new_multi_partition_rows,
                old_partitions_blob,
                new_partitions_blob,
                new_partition_rows,
                initial_split,
            ),
        ),
{
    let v = commit_multi_partition_split_value(
        multi_partition_id,
        new_multi_partitions,
        new_multi_partition_rows,
        old_partitions_blob,
        new_partitions_blob,
        new_partition_rows,
        initial_split,
    );
    let fields = fields_in(v);
    let codes: Seq<int> = seq![
        39549540int,
        43759731,
        52148595,
        41679458,
        41663074,
        39565939,
        28997236,
    ];
    reveal_strlit("multi_partition_id");
    reveal_strlit("new_multi_partitions");
    reveal_strlit("new_multi_partition_rows");
    reveal_strlit("old_partitions_blob");
    reveal_strlit("new_partitions_blob");
    reveal_strlit("new_partition_rows");
    reveal_strlit("initial_split");
    assert(fields[0] == ("multi_partition_id"@, Flex::UInt(multi_partition_id)));
    assert(fields[1] == ("new_multi_partitions"@, wire::u64s_value(new_multi_partitions)));
    wire::lemma_u64s_value(new_multi_partitions);
    assert(fields[2] == ("new_multi_partition_rows"@, wire::u64s_value(new_multi_partition_rows)));
    wire::lemma_u64s_value(new_multi_partition_rows);
    assert(fields[3] == ("old_partitions_blob"@, wire::bytes_value(old_partitions_blob)));
    wire::lemma_bytes_value(old_partitions_blob);
    assert(fields[4] == ("new_partitions_blob"@, wire::bytes_value(new_partitions_blob)));
    wire::lemma_bytes_value(new_partitions_blob);
    assert(fields[5] == ("new_partition_rows"@, wire::u64s_value(new_partition_rows)));
    wire::lemma_u64s_value(new_partition_rows);
    assert(fields[6] == ("initial_split"@, Flex::Bool(initial_split)));
    lemma_distinct(fields, codes);
    lemma_flat_fields("CommitMultiPartitionSplit"@, fields);
    if flex::same_value(v, w) {
        let e = lemma_variant_back("CommitMultiPartitionSplit"@, fields, w);
        lemma_variant_names();
        reveal(variant_of);
        wire::lemma_u64_back(e, fields[0].0, multi_partition_id);
        wire::lemma_u64s_back(e, fields[1].0, new_multi_partitions);
        wire::lemma_u64s_back(e, fields[2].0, new_multi_partition_rows);
        wire::lemma_bytes_back(e, fields[3].0, old_partitions_blob);
        wire::lemma_bytes_back(e, fields[4].0, new_partitions_blob);
        wire::lemma_u64s_back(e, fields[5].0, new_partition_rows);
        wire::lemma_bool_back(e, fields[6].0, initial_split);
    }
}

proof fn lemma_create_index(
    schema_name: Seq<char>,
    table_name: Seq<char>,
    index_def_blob: Seq<u8>,
    w: Flex,
)
    ensures
        flex::storable(create_index_value(schema_name, table_name, index_def_blob)),
        flex::same_value(
            create_index_value(schema_name, table_name, index_def_blob),
            w,
        ) ==> command_of(w) == Some(create_index_value(schema_name, table_name, index_def_blob)),
{
    let v = create_index_value(schema_name, table_name, index_def_blob);
    let fields = fields_in(v);
    let codes: Seq<int> = seq![24965349int, 22884325, 31093474];
    reveal_strlit("schema_name");
    reveal_strlit("table_name");
    reveal_strlit("index_def_blob");
    assert(fields[0] == ("schema_name"@, Flex::Text(schema_name)));
    assert(fields[1] == ("table_name"@, Flex::Text(table_name)));
    assert(fields[2] == ("index_def_blob"@, wire::bytes_value(index_def_blob)));
    wire::lemma_bytes_value(index_def_blob);
    lemma_distinct(fields, codes);
    lemma_flat_fields("CreateIndex"@, fields);
    if flex::same_value(v, w) {
        let e = lemma_variant_back("CreateIndex"@, fields, w);
        lemma_variant_names();
        reveal(variant_of);
        wire::lemma_text_back(e, fields[0].0, schema_name);
        wire::lemma_text_back(e, fields[1].0, table_name);
        wire::lemma_bytes_back(e, fields[2].0, index_def_blob);
    }
}

proof fn lemma_create_partitioned_index(
    schema: Seq<char>,
    name: Seq<char>,
    columns_blob: Seq<u8>,
    if_not_exists: bool,
    w: Flex,
)
    ensures
        flex::storable(create_partitioned_index_value(schema, name, columns_blob, if_not_exists)),
        flex::same_value(
            create_partitioned_index_value(schema, name, columns_blob, if_not_exists),
            w,
        ) ==> command_of(w) == Some(
            create_partitioned_index_value(schema, name, columns_blob, if_not_exists),
        ),
{
    let v = create_partitioned_index_value(schema, name, columns_blob, if_not_exists);
    let fields = fields_in(v);
    let codes: Seq<int> = seq![14480097int, 10204901, 26802658, 28995571];
    reveal_strlit("schema");
    reveal_strlit("name");
    reveal_strlit("columns_blob");
    reveal_strlit("if_not_exists");
    assert(fields[0] == ("schema"@, Flex::Text(schema)));
    assert(fields[1] == ("name"@, Flex::Text(name)));
    assert(fields[2] == ("columns_blob"@, wire::bytes_value(columns_blob)));
    wire::lemma_bytes_value(columns_blob);
    assert(fields[3] == ("if_not_exists"@, Flex::Bool(if_not_exists)));
    lemma_distinct(fields, codes);
    lemma_flat_fields("CreatePartitionedIndex"@, fields);
    if flex::same_value(v, w) {
        let e = lemma_variant_back("CreatePartitionedIndex"@, fields, w);
        lemma_variant_names();
        reveal(variant_of);
        wire::lemma_text_back(e, fields[0].0, schema);
        wire::lemma_text_back(e, fields[1].0, name);
        wire::lemma_bytes_back(e, fields[2].0, columns_blob);
        wire::lemma_bool_back(e, fields[3].0, if_not_exists);
    }
}

proof fn lemma_drop_partitioned_index(schema: Seq<char>, name: Seq<char>, w: Flex)
    ensures
        flex::storable(drop_partitioned_index_value(schema, name)),
        flex::same_value(
            drop_partitioned_index_value(schema, name),
            w,
        ) ==> command_of(w) == Some(drop_partitioned_index_value(schema, name)),
{
    let v = drop_partitioned_index_value(schema, name);
    let fields = fields_in(v);
    let codes: Seq<int> = seq![14480097int, 10204901];
    reveal_strlit("schema");
    reveal_strlit("name");
    assert(fields[0] == ("schema"@, Flex::Text(schema)));
    assert(fields[1] == ("name"@, Flex::Text(name)));
    lemma_distinct(fields, codes);
    lemma_flat_fields("DropPartitionedIndex"@, fields);
    if flex::same_value(v, w) {
        let e = lemma_variant_back("DropPartitionedIndex"@, fields, w);
        lemma_variant_names();
        reveal(variant_of);
        wire::lemma_text_back(e, fields[0].0, schema);
        wire::lemma_text_back(e, fields[1].0, name);
    }
}

proof fn lemma_create_chunk(chunk_blob: Seq<u8>, w: Flex)
    ensures
        flex::storable(create_chunk_value(chunk_blob)),
        flex::same_value(
            create_chunk_value(chunk_blob),
            w,
        ) ==> command_of(w) == Some(create_chunk_value(chunk_blob)),
{
    let v = create_chunk_value(chunk_blob);
    let fields = fields_in(v);
    let codes: Seq<int> = seq![22605794int];
    reveal_strlit("chunk_blob");
    assert(fields[0] == ("chunk_blob"@, wire::bytes_value(chunk_blob)));
    wire::lemma_bytes_value(chunk_blob);
    lemma_distinct(fields, codes);
    lemma_flat_fields("CreateChunk"@, fields);
    if flex::same_value(v, w) {
        let e = lemma_variant_back("CreateChunk"@, fields, w);
        lemma_variant_names();
        reveal(variant_of);
        wire::lemma_bytes_back(e, fields[0].0, chunk_blob);
    }
}

proof fn lemma_insert_chunks(chunks_blob: Seq<u8>, w: Flex)
    ensures
        flex::storable(insert_chunks_value(chunks_blob)),
        flex::same_value(
            insert_chunks_value(chunks_blob),
            w,
        ) ==> command_of(w) == Some(insert_chunks_value(chunks_blob)),
{
    let v = insert_chunks_value(chunks_blob);
    let fields = fields_in(v);
    let codes: Seq<int> = seq![24705506int];
    reveal_strlit("chunks_blob");
    assert(fields[0] == ("chunks_blob"@, wire::bytes_value(chunks_blob)));
    wire::lemma_bytes_value(chunks_blob);
    lemma_distinct(fields, codes);
    lemma_flat_fields("InsertChunks"@, fields);
    if flex::same_value(v, w) {
        let e = lemma_variant_back("InsertChunks"@, fields, w);
        lemma_variant_names();
        reveal(variant_of);
        wire::lemma_bytes_back(e, fields[0].0, chunks_blob);
    }
}

proof fn lemma_swap_compacted_chunks(
    partition_id: u64,
    old_chunk_ids: Seq<u64>,
    new_chunk: u64,
    new_chunk_file_size: u64,
    w: Flex,
)
    ensures
        flex::storable(
            swap_compacted_chunks_value(
                partition_id,
                old_chunk_ids,
                new_chunk,
                new_chunk_file_size,
            ),
        ),
        flex::same_value(
            swap_compacted_chunks_value(
                partition_id,
                old_chunk_ids,
                new_chunk,
                new_chunk_file_size,
            ),
            w,
        ) ==> command_of(w) == Some(
            swap_compacted_chunks_value(
                partition_id,
                old_chunk_ids,
                new_chunk,
                new_chunk_file_size,
            ),
        ),
{
    let v = swap_compacted_chunks_value(
        partition_id,
        old_chunk_ids,
        new_chunk,
        new_chunk_file_size,
    );
    let fields = fields_in(v);
    let codes: Seq<int> = seq![27014372int, 29096691, 20689387, 41660389];
    reveal_strlit("partition_id");
    reveal_strlit("old_chunk_ids");
    reveal_strlit("new_chunk");
    reveal_strlit("new_chunk_file_size");
    assert(fields[0] == ("partition_id"@, Flex::UInt(partition_id)));
    assert(fields[1] == ("old_chunk_ids"@, wire::u64s_value(old_chunk_ids)));
    wire::lemma_u64s_value(old_chunk_ids);
    assert(fields[2] == ("new_chunk"@, Flex::UInt(new_chunk)));
    assert(fields[3] == ("new_chunk_file_size"@, Flex::UInt(new_chunk_file_size)));
    lemma_distinct(fields, codes);
    lemma_flat_fields("SwapCompactedChunks"@, fields);
    if flex::same_value(v, w) {
        let e = lemma_variant_back("SwapCompactedChunks"@, fields, w);
        lemma_variant_names();
        reveal(variant_of);
        wire::lemma_u64_back(e, fields[0].0, partition_id);
        wire::lemma_u64s_back(e, fields[1].0, old_chunk_ids);
        wire::lemma_u64_back(e, fields[2].0, new_chunk);
        wire::lemma_u64_back(e, fields[3].0, new_chunk_file_size);
    }
}

proof fn lemma_delete_chunk(chunk_id: u64, w: Flex)
    ensures
        flex::storable(delete_chunk_value(chunk_id)),
        flex::same_value(
            delete_chunk_value(chunk_id),
            w,
        ) ==> command_of(w) == Some(delete_chunk_value(chunk_id)),
{
    let v = delete_chunk_value(chunk_id);
    let fields = fields_in(v);
    let codes: Seq<int> = seq![18413028int];
    reveal_strlit("chunk_id");
    assert(fields[0] == ("chunk_id"@, Flex::UInt(chunk_id)));
    lemma_distinct(fields, codes);
    lemma_flat_fields("DeleteChunk"@, fields);
    if flex::same_value(v, w) {
        let e = lemma_variant_back("DeleteChunk"@, fields, w);
        lemma_variant_names();
        reveal(variant_of);
        wire::lemma_u64_back(e, fields[0].0, chunk_id);
    }
}

proof fn lemma_delete_chunks_without_checks(chunk_ids: Seq<u64>, w: Flex)
    ensures
        flex::storable(delete_chunks_without_checks_value(chunk_ids)),
        flex::same_value(
            delete_chunks_without_checks_value(chunk_ids),
            w,
        ) ==> command_of(w) == Some(delete_chunks_without_checks_value(chunk_ids)),
{
    let v = delete_chunks_without_checks_value(chunk_ids);
    let fields = fields_in(v);
    let codes: Seq<int> = seq![20510195int];
    reveal_strlit("chunk_ids");
    assert(fields[0] == ("chunk_ids"@, wire::u64s_value(chunk_ids)));
    wire::lemma_u64s_value(chunk_ids);
    lemma_distinct(fields, codes);
    lemma_flat_fields("DeleteChunksWithoutChecks"@, fields);
    if flex::same_value(v, w) {
        let e = lemma_variant_back("DeleteChunksWithoutChecks"@, fields, w);
        lemma_variant_names();
        reveal(variant_of);
        wire::lemma_u64s_back(e, fields[0].0, chunk_ids);
    }
}

proof fn lemma_chunk_uploaded(chunk_id: u64, w: Flex)
    ensures
        flex::storable(chunk_uploaded_value(chunk_id)),
        flex::same_value(
            chunk_uploaded_value(chunk_id),
            w,
        ) ==> command_of(w) == Some(chunk_uploaded_value(chunk_id)),
{
    let v = chunk_uploaded_value(chunk_id);
    let fields = fields_in(v);
    let codes: Seq<int> = seq![18413028int];
    reveal_strlit("chunk_id");
    assert(fields[0] == ("chunk_id"@, Flex::UInt(chunk_id)));
    lemma_distinct(fields, codes);
    lemma_flat_fields("ChunkUploaded"@, fields);
    if flex::same_value(v, w) {
        let e = lemma_variant_back("ChunkUploaded"@, fields, w);
        lemma_variant_names();
        reveal(variant_of);
        wire::lemma_u64_back(e, fields[0].0, chunk_id);
    }
}

proof fn lemma_chunk_update_last_inserted(
    chunk_ids: Seq<u64>,
    last_inserted_at_millis: Option<i64>,
    w: Flex,
)
    ensures
        flex::storable(chunk_update_last_inserted_value(chunk_ids, last_inserted_at_millis)),
        flex::same_value(
            chunk_update_last_inserted_value(chunk_ids, last_inserted_at_millis),
            w,
        ) ==> command_of(w) == Some(
            chunk_update_last_inserted_value(chunk_ids, last_inserted_at_millis),
        ),
{
    let v = chunk_update_last_inserted_value(chunk_ids, last_inserted_at_millis);
    let fields = fields_in(v);
    let codes: Seq<int> = seq![20510195int, 50017011];
    reveal_strlit("chunk_ids");
    reveal_strlit("last_inserted_at_millis");
    assert(fields[0] == ("chunk_ids"@, wire::u64s_value(chunk_ids)));
    wire::lemma_u64s_value(chunk_ids);
    assert(fields[1] == ("last_inserted_at_millis"@, wire::opt_i64_value(last_inserted_at_millis)));
    wire::lemma_opt_i64_flat(last_inserted_at_millis);
    lemma_distinct(fields, codes);
    lemma_flat_fields("ChunkUpdateLastInserted"@, fields);
    if flex::same_value(v, w) {
        let e = lemma_variant_back("ChunkUpdateLastInserted"@, fields, w);
        lemma_variant_names();
        reveal(variant_of);
        wire::lemma_u64s_back(e, fields[0].0, chunk_ids);
        wire::lemma_opt_i64_back(e, fields[1].0, last_inserted_at_millis);
    }
}

proof fn lemma_swap_chunks(
    deactivate_ids: Seq<u64>,
    uploaded_ids_and_sizes: Seq<(u64, Option<u64>)>,
    new_replay_handle_id: Option<u64>,
    w: Flex,
)
    ensures
        flex::storable(
            swap_chunks_value(deactivate_ids, uploaded_ids_and_sizes, new_replay_handle_id),
        ),
        flex::same_value(
            swap_chunks_value(deactivate_ids, uploaded_ids_and_sizes, new_replay_handle_id),
            w,
        ) ==> command_of(w) == Some(
            swap_chunks_value(deactivate_ids, uploaded_ids_and_sizes, new_replay_handle_id),
        ),
{
    let v = swap_chunks_value(deactivate_ids, uploaded_ids_and_sizes, new_replay_handle_id);
    let fields = fields_in(v);
    let codes: Seq<int> = seq![31011059int, 48069107, 43757540];
    reveal_strlit("deactivate_ids");
    reveal_strlit("uploaded_ids_and_sizes");
    reveal_strlit("new_replay_handle_id");
    assert(fields[0] == ("deactivate_ids"@, wire::u64s_value(deactivate_ids)));
    wire::lemma_u64s_value(deactivate_ids);
    assert(fields[1] == ("uploaded_ids_and_sizes"@, wire::id_sizes_value(uploaded_ids_and_sizes)));
    wire::lemma_id_sizes_value(uploaded_ids_and_sizes);
    assert(fields[2] == ("new_replay_handle_id"@, wire::opt_u64_value(new_replay_handle_id)));
    wire::lemma_opt_u64_flat(new_replay_handle_id);
    lemma_distinct(fields, codes);
    lemma_flat_fields("SwapChunks"@, fields);
    if flex::same_value(v, w) {
        let e = lemma_variant_back("SwapChunks"@, fields, w);
        lemma_variant_names();
        reveal(variant_of);
        wire::lemma_u64s_back(e, fields[0].0, deactivate_ids);
        wire::lemma_id_sizes_back(e, fields[1].0, uploaded_ids_and_sizes);
        wire::lemma_opt_u64_back(e, fields[2].0, new_replay_handle_id);
    }
}

proof fn lemma_swap_chunks_without_check(
    deactivate_ids: Seq<u64>,
    uploaded_ids_and_sizes: Seq<(u64, Option<u64>)>,
    new_replay_handle_id: Option<u64>,
    w: Flex,
)
    ensures
        flex::storable(
            swap_chunks_without_check_value(
                deactivate_ids,
                uploaded_ids_and_sizes,
                new_replay_handle_id,
            ),
        ),
        flex::same_value(
            swap_chunks_without_check_value(
                deactivate_ids,
                uploaded_ids_and_sizes,
                new_replay_handle_id,
            ),
            w,
        ) ==> command_of(w) == Some(
            swap_chunks_without_check_value(
                deactivate_ids,
                uploaded_ids_and_sizes,
                new_replay_handle_id,
            ),
        ),
{
    let v = swap_chunks_without_check_value(
        deactivate_ids,
        uploaded_ids_and_sizes,
        new_replay_handle_id,
    );
    let fields = fields_in(v);
    let codes: Seq<int> = seq![31011059int, 48069107, 43757540];
    reveal_strlit("deactivate_ids");
    reveal_strlit("uploaded_ids_and_sizes");
    reveal_strlit("new_replay_handle_id");
    assert(fields[0] == ("deactivate_ids"@, wire::u64s_value(deactivate_ids)));
    wire::lemma_u64s_value(deactivate_ids);
    assert(fields[1] == ("uploaded_ids_and_sizes"@, wire::id_sizes_value(uploaded_ids_and_sizes)));
    wire::lemma_id_sizes_value(uploaded_ids_and_sizes);
    assert(fields[2] == ("new_replay_handle_id"@, wire::opt_u64_value(new_replay_handle_id)));
    wire::lemma_opt_u64_flat(new_replay_handle_id);
    lemma_distinct(fields, codes);
    lemma_flat_fields("SwapChunksWithoutCheck"@, fields);
    if flex::same_value(v, w) {
        let e = lemma_variant_back("SwapChunksWithoutCheck"@, fields, w);
        lemma_variant_names();
        reveal(variant_of);
        wire::lemma_u64s_back(e, fields[0].0, deactivate_ids);
        wire::lemma_id_sizes_back(e, fields[1].0, uploaded_ids_and_sizes);
        wire::lemma_opt_u64_back(e, fields[2].0, new_replay_handle_id);
    }
}

proof fn lemma_activate_chunks(
    table_id: u64,
    uploaded_chunk_ids: Seq<(u64, Option<u64>)>,
    replay_handle_id: Option<u64>,
    w: Flex,
)
    ensures
        flex::storable(activate_chunks_value(table_id, uploaded_chunk_ids, replay_handle_id)),
        flex::same_value(
            activate_chunks_value(table_id, uploaded_chunk_ids, replay_handle_id),
            w,
        ) ==> command_of(w) == Some(
            activate_chunks_value(table_id, uploaded_chunk_ids, replay_handle_id),
        ),
{
    let v = activate_chunks_value(table_id, uploaded_chunk_ids, replay_handle_id);
    let fields = fields_in(v);
    let codes: Seq<int> = seq![18690788int, 39678451, 35434724];
    reveal_strlit("table_id");
    reveal_strlit("uploaded_chunk_ids");
    reveal_strlit("replay_handle_id");
    assert(fields[0] == ("table_id"@, Flex::UInt(table_id)));
    assert(fields[1] == ("uploaded_chunk_ids"@, wire::id_sizes_value(uploaded_chunk_ids)));
    wire::lemma_id_sizes_value(uploaded_chunk_ids);
    assert(fields[2] == ("replay_handle_id"@, wire::opt_u64_value(replay_handle_id)));
    wire::lemma_opt_u64_flat(replay_handle_id);
    lemma_distinct(fields, codes);
    lemma_flat_fields("ActivateChunks"@, fields);
    if flex::same_value(v, w) {
        let e = lemma_variant_back("ActivateChunks"@, fields, w);
        lemma_variant_names();
        reveal(variant_of);
        wire::lemma_u64_back(e, fields[0].0, table_id);
        wire::lemma_id_sizes_back(e, fields[1].0, uploaded_chunk_ids);
        wire::lemma_opt_u64_back(e, fields[2].0, replay_handle_id);
    }
}

proof fn lemma_deactivate_chunk(chunk_id: u64, assigned_now_millis: i64, w: Flex)
    ensures
        flex::storable(deactivate_chunk_value(chunk_id, assigned_now_millis)),
        flex::same_value(
            deactivate_chunk_value(chunk_id, assigned_now_millis),
            w,
        ) ==> command_of(w) == Some(deactivate_chunk_value(chunk_id, assigned_now_millis)),
{
    let v = deactivate_chunk_value(chunk_id, assigned_now_millis);
    let fields = fields_in(v);
    let codes: Seq<int> = seq![18413028int, 41449331];
    reveal_strlit("chunk_id");
    reveal_strlit("assigned_now_millis");
    assert(fields[0] == ("chunk_id"@, Flex::UInt(chunk_id)));
    assert(fields[1] == ("assigned_now_millis"@, Flex::Int(assigned_now_millis)));
    lemma_distinct(fields, codes);
    lemma_flat_fields("DeactivateChunk"@, fields);
    if flex::same_value(v, w) {
        let e = lemma_variant_back("DeactivateChunk"@, fields, w);
        lemma_variant_names();
        reveal(variant_of);
        wire::lemma_u64_back(e, fields[0].0, chunk_id);
        wire::lemma_i64_back(e, fields[1].0, assigned_now_millis);
    }
}

proof fn lemma_deactivate_chunks(chunk_ids: Seq<u64>, assigned_now_millis: i64, w: Flex)
    ensures
        flex::storable(deactivate_chunks_value(chunk_ids, assigned_now_millis)),
        flex::same_value(
            deactivate_chunks_value(chunk_ids, assigned_now_millis),
            w,
        ) ==> command_of(w) == Some(deactivate_chunks_value(chunk_ids, assigned_now_millis)),
{
    let v = deactivate_chunks_value(chunk_ids, assigned_now_millis);
    let fields = fields_in(v);
    let codes: Seq<int> = seq![20510195int, 41449331];
    reveal_strlit("chunk_ids");
    reveal_strlit("assigned_now_millis");
    assert(fields[0] == ("chunk_ids"@, wire::u64s_value(chunk_ids)));
    wire::lemma_u64s_value(chunk_ids);
    assert(fields[1] == ("assigned_now_millis"@, Flex::Int(assigned_now_millis)));
    lemma_distinct(fields, codes);
    lemma_flat_fields("DeactivateChunks"@, fields);
    if flex::same_value(v, w) {
        let e = lemma_variant_back("DeactivateChunks"@, fields, w);
        lemma_variant_names();
        reveal(variant_of);
        wire::lemma_u64s_back(e, fields[0].0, chunk_ids);
        wire::lemma_i64_back(e, fields[1].0, assigned_now_millis);
    }
}

proof fn lemma_deactivate_chunks_without_check(deactivate_ids: Seq<u64>, w: Flex)
    ensures
        flex::storable(deactivate_chunks_without_check_value(deactivate_ids)),
        flex::same_value(
            deactivate_chunks_without_check_value(deactivate_ids),
            w,
        ) ==> command_of(w) == Some(deactivate_chunks_without_check_value(deactivate_ids)),
{
    let v = deactivate_chunks_without_check_value(deactivate_ids);
    let fields = fields_in(v);
    let codes: Seq<int> = seq![31011059int];
    reveal_strlit("deactivate_ids");
    assert(fields[0] == ("deactivate_ids"@, wire::u64s_value(deactivate_ids)));
    wire::lemma_u64s_value(deactivate_ids);
    lemma_distinct(fields, codes);
    lemma_flat_fields("DeactivateChunksWithoutCheck"@, fields);
    if flex::same_value(v, w) {
        let e = lemma_variant_back("DeactivateChunksWithoutCheck"@, fields, w);
        lemma_variant_names();
        reveal(variant_of);
        wire::lemma_u64s_back(e, fields[0].0, deactivate_ids);
    }
}

proof fn lemma_create_wal(table_id: u64, row_count: u64, w: Flex)
    ensures
        flex::storable(create_wal_value(table_id, row_count)),
        flex::same_value(
            create_wal_value(table_id, row_count),
            w,
        ) ==> command_of(w) == Some(create_wal_value(table_id, row_count)),
{
    let v = create_wal_value(table_id, row_count);
    let fields = fields_in(v);
    let codes: Seq<int> = seq![18690788int, 20754932];
    reveal_strlit("table_id");
    reveal_strlit("row_count");
    assert(fields[0] == ("table_id"@, Flex::UInt(table_id)));
    assert(fields[1] == ("row_count"@, Flex::UInt(row_count)));
    lemma_distinct(fields, codes);
    lemma_flat_fields("CreateWal"@, fields);
    if flex::same_value(v, w) {
        let e = lemma_variant_back("CreateWal"@, fields, w);
        lemma_variant_names();
        reveal(variant_of);
        wire::lemma_u64_back(e, fields[0].0, table_id);
        wire::lemma_u64_back(e, fields[1].0, row_count);
    }
}

proof fn lemma_delete_wal(wal_id: u64, w: Flex)
    ensures
        flex::storable(delete_wal_value(wal_id)),
        flex::same_value(
            delete_wal_value(wal_id),
            w,
        ) ==> command_of(w) == Some(delete_wal_value(wal_id)),
{
    let v = delete_wal_value(wal_id);
    let fields = fields_in(v);
    let codes: Seq<int> = seq![14544868int];
    reveal_strlit("wal_id");
    assert(fields[0] == ("wal_id"@, Flex::UInt(wal_id)));
    lemma_distinct(fields, codes);
    lemma_flat_fields("DeleteWal"@, fields);
    if flex::same_value(v, w) {
        let e = lemma_variant_back("DeleteWal"@, fields, w);
        lemma_variant_names();
        reveal(variant_of);
        wire::lemma_u64_back(e, fields[0].0, wal_id);
    }
}

proof fn lemma_wal_uploaded(wal_id: u64, w: Flex)
    ensures
        flex::storable(wal_uploaded_value(wal_id)),
        flex::same_value(
            wal_uploaded_value(wal_id),
            w,
        ) ==> command_of(w) == Some(wal_uploaded_value(wal_id)),
{
    let v = wal_uploaded_value(wal_id);
    let fields = fields_in(v);
    let codes: Seq<int> = seq![14544868int];
    reveal_strlit("wal_id");
    assert(fields[0] == ("wal_id"@, Flex::UInt(wal_id)));
    lemma_distinct(fields, codes);
    lemma_flat_fields("WalUploaded"@, fields);
    if flex::same_value(v, w) {
        let e = lemma_variant_back("WalUploaded"@, fields, w);
        lemma_variant_names();
        reveal(variant_of);
        wire::lemma_u64_back(e, fields[0].0, wal_id);
    }
}

proof fn lemma_add_job(job_blob: Seq<u8>, w: Flex)
    ensures
        flex::storable(add_job_value(job_blob)),
        flex::same_value(
            add_job_value(job_blob),
            w,
        ) ==> command_of(w) == Some(add_job_value(job_blob)),
{
    let v = add_job_value(job_blob);
    let fields = fields_in(v);
    let codes: Seq<int> = seq![18526562int];
    reveal_strlit("job_blob");
    assert(fields[0] == ("job_blob"@, wire::bytes_value(job_blob)));
    wire::lemma_bytes_value(job_blob);
    lemma_distinct(fields, codes);
    lemma_flat_fields("AddJob"@, fields);
    if flex::same_value(v, w) {
        let e = lemma_variant_back("AddJob"@, fields, w);
        lemma_variant_names();
        reveal(variant_of);
        wire::lemma_bytes_back(e, fields[0].0, job_blob);
    }
}

proof fn lemma_delete_job(job_id: u64, w: Flex)
    ensures
        flex::storable(delete_job_value(job_id)),
        flex::same_value(
            delete_job_value(job_id),
            w,
        ) ==> command_of(w) == Some(delete_job_value(job_id)),
{
    let v = delete_job_value(job_id);
    let fields = fields_in(v);
    let codes: Seq<int> = seq![14331876int];
    reveal_strlit("job_id");
    assert(fields[0] == ("job_id"@, Flex::UInt(job_id)));
    lemma_distinct(fields, codes);
    lemma_flat_fields("DeleteJob"@, fields);
    if flex::same_value(v, w) {
        let e = lemma_variant_back("DeleteJob"@, fields, w);
        lemma_variant_names();
        reveal(variant_of);
        wire::lemma_u64_back(e, fields[0].0, job_id);
    }
}

proof fn lemma_start_processing_job(
    server_name: Seq<char>,
    long_term: bool,
    assigned_now_millis: i64,
    w: Flex,
)
    ensures
        flex::storable(start_processing_job_value(server_name, long_term, assigned_now_millis)),
        flex::same_value(
            start_processing_job_value(server_name, long_term, assigned_now_millis),
            w,
        ) ==> command_of(w) == Some(
            start_processing_job_value(server_name, long_term, assigned_now_millis),
        ),
{
    let v = start_processing_job_value(server_name, long_term, assigned_now_millis);
    let fields = fields_in(v);
    let codes: Seq<int> = seq![24967525int, 20656109, 41449331];
    reveal_strlit("server_name");
    reveal_strlit("long_term");
    reveal_strlit("assigned_now_millis");
    assert(fields[0] == ("server_name"@, Flex::Text(server_name)));
    assert(fields[1] == ("long_term"@, Flex::Bool(long_term)));
    assert(fields[2] == ("assigned_now_millis"@, Flex::Int(assigned_now_millis)));
    lemma_distinct(fields, codes);
    lemma_flat_fields("StartProcessingJob"@, fields);
    if flex::same_value(v, w) {
        let e = lemma_variant_back("StartProcessingJob"@, fields, w);
        lemma_variant_names();
        reveal(variant_of);
        wire::lemma_text_back(e, fields[0].0, server_name);
        wire::lemma_bool_back(e, fields[1].0, long_term);
        wire::lemma_i64_back(e, fields[2].0, assigned_now_millis);
    }
}

proof fn lemma_update_status(job_id: u64, status_blob: Seq<u8>, assigned_now_millis: i64, w: Flex)
    ensures
        flex::storable(update_status_value(job_id, status_blob, assigned_now_millis)),
        flex::same_value(
            update_status_value(job_id, status_blob, assigned_now_millis),
            w,
        ) ==> command_of(w) == Some(update_status_value(job_id, status_blob, assigned_now_millis)),
{
    let v = update_status_value(job_id, status_blob, assigned_now_millis);
    let fields = fields_in(v);
    let codes: Seq<int> = seq![14331876int, 24967650, 41449331];
    reveal_strlit("job_id");
    reveal_strlit("status_blob");
    reveal_strlit("assigned_now_millis");
    assert(fields[0] == ("job_id"@, Flex::UInt(job_id)));
    assert(fields[1] == ("status_blob"@, wire::bytes_value(status_blob)));
    wire::lemma_bytes_value(status_blob);
    assert(fields[2] == ("assigned_now_millis"@, Flex::Int(assigned_now_millis)));
    lemma_distinct(fields, codes);
    lemma_flat_fields("UpdateStatus"@, fields);
    if flex::same_value(v, w) {
        let e = lemma_variant_back("UpdateStatus"@, fields, w);
        lemma_variant_names();
        reveal(variant_of);
        wire::lemma_u64_back(e, fields[0].0, job_id);
        wire::lemma_bytes_back(e, fields[1].0, status_blob);
        wire::lemma_i64_back(e, fields[2].0, assigned_now_millis);
    }
}

proof fn lemma_update_heart_beat(job_id: u64, assigned_now_millis: i64, w: Flex)
    ensures
        flex::storable(update_heart_beat_value(job_id, assigned_now_millis)),
        flex::same_value(
            update_heart_beat_value(job_id, assigned_now_millis),
            w,
        ) ==> command_of(w) == Some(update_heart_beat_value(job_id, assigned_now_millis)),
{
    let v = update_heart_beat_value(job_id, assigned_now_millis);
    let fields = fields_in(v);
    let codes: Seq<int> = seq![14331876int, 41449331];
    reveal_strlit("job_id");
    reveal_strlit("assigned_now_millis");
    assert(fields[0] == ("job_id"@, Flex::UInt(job_id)));
    assert(fields[1] == ("assigned_now_millis"@, Flex::Int(assigned_now_millis)));
    lemma_distinct(fields, codes);
    lemma_flat_fields("UpdateHeartBeat"@, fields);
    if flex::same_value(v, w) {
        let e = lemma_variant_back("UpdateHeartBeat"@, fields, w);
        lemma_variant_names();
        reveal(variant_of);
        wire::lemma_u64_back(e, fields[0].0, job_id);
        wire::lemma_i64_back(e, fields[1].0, assigned_now_millis);
    }
}

proof fn lemma_create_or_update_source(name: Seq<char>, credentials_blob: Seq<u8>, w: Flex)
    ensures
        flex::storable(create_or_update_source_value(name, credentials_blob)),
        flex::same_value(
            create_or_update_source_value(name, credentials_blob),
            w,
        ) ==> command_of(w) == Some(create_or_update_source_value(name, credentials_blob)),
{
    let v = create_or_update_source_value(name, credentials_blob);
    let fields = fields_in(v);
    let codes: Seq<int> = seq![10204901int, 35188962];
    reveal_strlit("name");
    reveal_strlit("credentials_blob");
    assert(fields[0] == ("name"@, Flex::Text(name)));
    assert(fields[1] == ("credentials_blob"@, wire::bytes_value(credentials_blob)));
    wire::lemma_bytes_value(credentials_blob);
    lemma_distinct(fields, codes);
    lemma_flat_fields("CreateOrUpdateSource"@, fields);
    if flex::same_value(v, w) {
        let e = lemma_variant_back("CreateOrUpdateSource"@, fields, w);
        lemma_variant_names();
        reveal(variant_of);
        wire::lemma_text_back(e, fields[0].0, name);
        wire::lemma_bytes_back(e, fields[1].0, credentials_blob);
    }
}

proof fn lemma_delete_source(id: u64, w: Flex)
    ensures
        flex::storable(delete_source_value(id)),
        flex::same_value(
            delete_source_value(id),
            w,
        ) ==> command_of(w) == Some(delete_source_value(id)),
{
    let v = delete_source_value(id);
    let fields = fields_in(v);
    let codes: Seq<int> = seq![5927524int];
    reveal_strlit("id");
    assert(fields[0] == ("id"@, Flex::UInt(id)));
    lemma_distinct(fields, codes);
    lemma_flat_fields("DeleteSource"@, fields);
    if flex::same_value(v, w) {
        let e = lemma_variant_back("DeleteSource"@, fields, w);
        lemma_variant_names();
        reveal(variant_of);
        wire::lemma_u64_back(e, fields[0].0, id);
    }
}

proof fn lemma_create_replay_handle(
    table_id: u64,
    location_index: u64,
    seq_pointer_blob: Seq<u8>,
    assigned_now_millis: i64,
    w: Flex,
)
    ensures
        flex::storable(
            create_replay_handle_value(
                table_id,
                location_index,
                seq_pointer_blob,
                assigned_now_millis,
            ),
        ),
        flex::same_value(
            create_replay_handle_value(
                table_id,
                location_index,
                seq_pointer_blob,
                assigned_now_millis,
            ),
            w,
        ) ==> command_of(w) == Some(
            create_replay_handle_value(
                table_id,
                location_index,
                seq_pointer_blob,
                assigned_now_millis,
            ),
        ),
{
    let v = create_replay_handle_value(
        table_id,
        location_index,
        seq_pointer_blob,
        assigned_now_millis,
    );
    let fields = fields_in(v);
    let codes: Seq<int> = seq![18690788int, 31143800, 35453538, 41449331];
    reveal_strlit("table_id");
    reveal_strlit("location_index");
    reveal_strlit("seq_pointer_blob");
    reveal_strlit("assigned_now_millis");
    assert(fields[0] == ("table_id"@, Flex::UInt(table_id)));
    assert(fields[1] == ("location_index"@, Flex::UInt(location_index)));
    assert(fields[2] == ("seq_pointer_blob"@, wire::bytes_value(seq_pointer_blob)));
    wire::lemma_bytes_value(seq_pointer_blob);
    assert(fields[3] == ("assigned_now_millis"@, Flex::Int(assigned_now_millis)));
    lemma_distinct(fields, codes);
    lemma_flat_fields("CreateReplayHandle"@, fields);
    if flex::same_value(v, w) {
        let e = lemma_variant_back("CreateReplayHandle"@, fields, w);
        lemma_variant_names();
        reveal(variant_of);
        wire::lemma_u64_back(e, fields[0].0, table_id);
        wire::lemma_u64_back(e, fields[1].0, location_index);
        wire::lemma_bytes_back(e, fields[2].0, seq_pointer_blob);
        wire::lemma_i64_back(e, fields[3].0, assigned_now_millis);
    }
}

proof fn lemma_create_replay_handle_from_seq_pointers(
    table_id: u64,
    seq_pointers_blob: Seq<u8>,
    assigned_now_millis: i64,
    w: Flex,
)
    ensures
        flex::storable(
            create_replay_handle_from_seq_pointers_value(
                table_id,
                seq_pointers_blob,
                assigned_now_millis,
            ),
        ),
        flex::same_value(
            create_replay_handle_from_seq_pointers_value(
                table_id,
                seq_pointers_blob,
                assigned_now_millis,
            ),
            w,
        ) ==> command_of(w) == Some(
            create_replay_handle_from_seq_pointers_value(
                table_id,
                seq_pointers_blob,
                assigned_now_millis,
            ),
        ),
{
    let v = create_replay_handle_from_seq_pointers_value(
        table_id,
        seq_pointers_blob,
        assigned_now_millis,
    );
    let fields = fields_in(v);
    let codes: Seq<int> = seq![18690788int, 37550690, 41449331];
    reveal_strlit("table_id");
    reveal_strlit("seq_pointers_blob");
    reveal_strlit("assigned_now_millis");
    assert(fields[0] == ("table_id"@, Flex::UInt(table_id)));
    assert(fields[1] == ("seq_pointers_blob"@, wire::bytes_value(seq_pointers_blob)));
    wire::lemma_bytes_value(seq_pointers_blob);
    assert(fields[2] == ("assigned_now_millis"@, Flex::Int(assigned_now_millis)));
    lemma_distinct(fields, codes);
    lemma_flat_fields("CreateReplayHandleFromSeqPointers"@, fields);
    if flex::same_value(v, w) {
        let e = lemma_variant_back("CreateReplayHandleFromSeqPointers"@, fields, w);
        lemma_variant_names();
        reveal(variant_of);
        wire::lemma_u64_back(e, fields[0].0, table_id);
        wire::lemma_bytes_back(e, fields[1].0, seq_pointers_blob);
        wire::lemma_i64_back(e, fields[2].0, assigned_now_millis);
    }
}

proof fn lemma_update_replay_handle_failed_if_exists(id: u64, failed: bool, w: Flex)
    ensures
        flex::storable(update_replay_handle_failed_if_exists_value(id, failed)),
        flex::same_value(
            update_replay_handle_failed_if_exists_value(id, failed),
            w,
        ) ==> command_of(w) == Some(update_replay_handle_failed_if_exists_value(id, failed)),
{
    let v = update_replay_handle_failed_if_exists_value(id, failed);
    let fields = fields_in(v);
    let codes: Seq<int> = seq![5927524int, 14268004];
    reveal_strlit("id");
    reveal_strlit("failed");
    assert(fields[0] == ("id"@, Flex::UInt(id)));
    assert(fields[1] == ("failed"@, Flex::Bool(failed)));
    lemma_distinct(fields, codes);
    lemma_flat_fields("UpdateReplayHandleFailedIfExists"@, fields);
    if flex::same_value(v, w) {
        let e = lemma_variant_back("UpdateReplayHandleFailedIfExists"@, fields, w);
        lemma_variant_names();
        reveal(variant_of);
        wire::lemma_u64_back(e, fields[0].0, id);
        wire::lemma_bool_back(e, fields[1].0, failed);
    }
}

proof fn lemma_replace_replay_handles(old_ids: Seq<u64>, new_seq_pointer_blob: Seq<u8>, w: Flex)
    ensures
        flex::storable(replace_replay_handles_value(old_ids, new_seq_pointer_blob)),
        flex::same_value(
            replace_replay_handles_value(old_ids, new_seq_pointer_blob),
            w,
        ) ==> command_of(w) == Some(replace_replay_handles_value(old_ids, new_seq_pointer_blob)),
{
    let v = replace_replay_handles_value(old_ids, new_seq_pointer_blob);
    let fields = fields_in(v);
    let codes: Seq<int> = seq![16510963int, 43758818];
    reveal_strlit("old_ids");
    reveal_strlit("new_seq_pointer_blob");
    assert(fields[0] == ("old_ids"@, wire::u64s_value(old_ids)));
    wire::lemma_u64s_value(old_ids);
    assert(fields[1] == ("new_seq_pointer_blob"@, wire::bytes_value(new_seq_pointer_blob)));
    wire::lemma_bytes_value(new_seq_pointer_blob);
    lemma_distinct(fields, codes);
    lemma_flat_fields("ReplaceReplayHandles"@, fields);
    if flex::same_value(v, w) {
        let e = lemma_variant_back("ReplaceReplayHandles"@, fields, w);
        lemma_variant_names();
        reveal(variant_of);
        wire::lemma_u64s_back(e, fields[0].0, old_ids);
        wire::lemma_bytes_back(e, fields[1].0, new_seq_pointer_blob);
    }
}

proof fn lemma_set_current_snapshot(snapshot_id_low: u64, snapshot_id_high: u64, w: Flex)
    ensures
        flex::storable(set_current_snapshot_value(snapshot_id_low, snapshot_id_high)),
        flex::same_value(
            set_current_snapshot_value(snapshot_id_low, snapshot_id_high),
            w,
        ) ==> command_of(w) == Some(set_current_snapshot_value(snapshot_id_low, snapshot_id_high)),
{
    let v = set_current_snapshot_value(snapshot_id_low, snapshot_id_high);
    let fields = fields_in(v);
    let codes: Seq<int> = seq![33356407int, 35450856];
    reveal_strlit("snapshot_id_low");
    reveal_strlit("snapshot_id_high");
    assert(fields[0] == ("snapshot_id_low"@, Flex::UInt(snapshot_id_low)));
    assert(fields[1] == ("snapshot_id_high"@, Flex::UInt(snapshot_id_high)));
    lemma_distinct(fields, codes);
    lemma_flat_fields("SetCurrentSnapshot"@, fields);
    if flex::same_value(v, w) {
        let e = lemma_variant_back("SetCurrentSnapshot"@, fields, w);
        lemma_variant_names();
        reveal(variant_of);
        wire::lemma_u64_back(e, fields[0].0, snapshot_id_low);
        wire::lemma_u64_back(e, fields[1].0, snapshot_id_high);
    }
}

proof fn lemma_acquire_partitioned_lock(payload_version: u16, payload: Seq<u8>, w: Flex)
    ensures
        flex::storable(acquire_partitioned_lock_value(payload_version, payload)),
        flex::same_value(
            acquire_partitioned_lock_value(payload_version, payload),
            w,
        ) ==> command_of(w) == Some(acquire_partitioned_lock_value(payload_version, payload)),
{
    let v = acquire_partitioned_lock_value(payload_version, payload);
    let fields = fields_in(v);
    let codes: Seq<int> = seq![33304558int, 16528996];
    reveal_strlit("payload_version");
    reveal_strlit("payload");
    assert(fields[0] == ("payload_version"@, Flex::UInt(payload_version as u64)));
    assert(fields[1] == ("payload"@, wire::bytes_value(payload)));
    wire::lemma_bytes_value(payload);
    lemma_distinct(fields, codes);
    lemma_flat_fields("AcquirePartitionedLock"@, fields);
    if flex::same_value(v, w) {
        let e = lemma_variant_back("AcquirePartitionedLock"@, fields, w);
        lemma_variant_names();
        reveal(variant_of);
        wire::lemma_u16_back(e, fields[0].0, payload_version);
        wire::lemma_bytes_back(e, fields[1].0, payload);
    }
}

proof fn lemma_release_partitioned_lock(payload_version: u16, payload: Seq<u8>, w: Flex)
    ensures
        flex::storable(release_partitioned_lock_value(payload_version, payload)),
        flex::same_value(
            release_partitioned_lock_value(payload_version, payload),
            w,
        ) ==> command_of(w) == Some(release_partitioned_lock_value(payload_version, payload)),
{
    let v = release_partitioned_lock_value(payload_version, payload);
    let fields = fields_in(v);
    let codes: Seq<int> = seq![33304558int, 16528996];
    reveal_strlit("payload_version");
    reveal_strlit("payload");
    assert(fields[0] == ("payload_version"@, Flex::UInt(payload_version as u64)));
    assert(fields[1] == ("payload"@, wire::bytes_value(payload)));
    wire::lemma_bytes_value(payload);
    lemma_distinct(fields, codes);
    lemma_flat_fields("ReleasePartitionedLock"@, fields);
    if flex::same_value(v, w) {
        let e = lemma_variant_back("ReleasePartitionedLock"@, fields, w);
        lemma_variant_names();
        reveal(variant_of);
        wire::lemma_u16_back(e, fields[0].0, payload_version);
        wire::lemma_bytes_back(e, fields[1].0, payload);
    }
}

proof fn lemma_generic(method: Seq<char>, body: Seq<u8>, w: Flex)
    ensures
        flex::storable(generic_value(method, body)),
        flex::same_value(
            generic_value(method, body),
            w,
        ) ==> command_of(w) == Some(generic_value(method, body)),
{
    let v = generic_value(method, body);
    let fields = fields_in(v);
    let codes: Seq<int> = seq![14382180int, 10007161];
    reveal_strlit("method");
    reveal_strlit("body");
    assert(fields[0] == ("method"@, Flex::Text(method)));
    assert(fields[1] == ("body"@, wire::bytes_value(body)));
    wire::lemma_bytes_value(body);
    lemma_distinct(fields, codes);
    lemma_flat_fields("Generic"@, fields);
    if flex::same_value(v, w) {
        let e = lemma_variant_back("Generic"@, fields, w);
        lemma_variant_names();
        reveal(variant_of);
        wire::lemma_text_back(e, fields[0].0, method);
        wire::lemma_bytes_back(e, fields[1].0, body);
    }
}

pub proof fn lemma_variant_names()
    ensures
        name_code("CreateSchema"@) == 26274273,
        name_code("RenameSchema"@) == 26520033,
        name_code("RenameSchemaById"@) == 34911332,
        name_code("DeleteSchema"@) == 26290657,
        name_code("DeleteSchemaById"@) == 34681956,
        name_code("CreateTable"@) == 24179429,
        name_code("CreateTableStructured"@) == 45150948,
        name_code("DropTable"@) == 19999333,
        name_code("SealTable"@) == 20245093,
        name_code("UpdateLocationDownloadSize"@) == 55932773,
        name_code("TableReady"@) == 22358393,
        name_code("CreatePartition"@) == 32567534,
        name_code("DeletePartition"@) == 32583918,
        name_code("MarkPartitionWarmedUp"@) == 45315312,
        name_code("DeleteMiddleManPartition"@) == 51455726,
        name_code("SwapActivePartitions"@) == 43313267,
        name_code("SwapActivePartitionsStructured"@) == 64289380,
        name_code("CreateMultiPartition"@) == 43054318,
        name_code("CommitMultiPartitionSplit"@) == 53539060,
        name_code("CreateIndex"@) == 24179448,
        name_code("CreatePartitionedIndex"@) == 47250040,
        name_code("DropPartitionedIndex"@) == 43070712,
        name_code("CreateChunk"@) == 24179435,
        name_code("InsertChunks"@) == 26370547,
        name_code("SwapCompactedChunks"@) == 41218547,
        name_code("DeleteChunk"@) == 24195819,
        name_code("DeleteChunksWithoutChecks"@) == 53554163,
        name_code("ChunkUploaded"@) == 28375140,
        name_code("ChunkUpdateLastInserted"@) == 49342052,
        name_code("SwapChunks"@) == 22344819,
        name_code("SwapChunksWithoutCheck"@) == 47510763,
        name_code("ActivateChunks"@) == 30438131,
        name_code("DeactivateChunk"@) == 32583915,
        name_code("DeactivateChunks"@) == 34683507,
        name_code("DeactivateChunksWithoutCheck"@) == 59848171,
        name_code("CreateWal"@) == 19987052,
        name_code("DeleteWal"@) == 20003436,
        name_code("WalUploaded"@) == 24508004,
        name_code("AddJob"@) == 13657442,
        name_code("DeleteJob"@) == 20003426,
        name_code("DeleteAllJobs"@) == 28385523,
        name_code("StartProcessingJob"@) == 39121634,
        name_code("UpdateStatus"@) == 26569203,
        name_code("UpdateHeartBeat"@) == 32862964,
        name_code("CreateOrUpdateSource"@) == 43053669,
        name_code("DeleteSource"@) == 26290661,
        name_code("CreateReplayHandle"@) == 38860389,
        name_code("CreateReplayHandleFromSeqPointers"@) == 70317683,
        name_code("UpdateReplayHandleFailedIfExists"@) == 68515443,
        name_code("ReplaceReplayHandles"@) == 43300467,
        name_code("SetCurrentSnapshot"@) == 39123572,
        name_code("AcquirePartitionedLock"@) == 47215851,
        name_code("ReleasePartitionedLock"@) == 47494379,
        name_code("Batch"@) == 11582056,
        name_code("Generic"@) == 15856355,
{
    reveal_strlit("CreateSchema");
    reveal_strlit("RenameSchema");
    reveal_strlit("RenameSchemaById");
    reveal_strlit("DeleteSchema");
    reveal_strlit("DeleteSchemaById");
    reveal_strlit("CreateTable");
    reveal_strlit("CreateTableStructured");
    reveal_strlit("DropTable");
    reveal_strlit("SealTable");
    reveal_strlit("UpdateLocationDownloadSize");
    reveal_strlit("TableReady");
    reveal_strlit("CreatePartition");
    reveal_strlit("DeletePartition");
    reveal_strlit("MarkPartitionWarmedUp");
    reveal_strlit("DeleteMiddleManPartition");
    reveal_strlit("SwapActivePartitions");
    reveal_strlit("SwapActivePartitionsStructured");
    reveal_strlit("CreateMultiPartition");
    reveal_strlit("CommitMultiPartitionSplit");
    reveal_strlit("CreateIndex");
    reveal_strlit("CreatePartitionedIndex");
    reveal_strlit("DropPartitionedIndex");
    reveal_strlit("CreateChunk");
    reveal_strlit("InsertChunks");
    reveal_strlit("SwapCompactedChunks");
    reveal_strlit("DeleteChunk");
    reveal_strlit("DeleteChunksWithoutChecks");
    reveal_strlit("ChunkUploaded");
    reveal_strlit("ChunkUpdateLastInserted");
    reveal_strlit("SwapChunks");
    reveal_strlit("SwapChunksWithoutCheck");
    reveal_strlit("ActivateChunks");
    reveal_strlit("DeactivateChunk");
    reveal_strlit("DeactivateChunks");
    reveal_strlit("DeactivateChunksWithoutCheck");
    reveal_strlit("CreateWal");
    reveal_strlit("DeleteWal");
    reveal_strlit("WalUploaded");
    reveal_strlit("AddJob");
    reveal_strlit("DeleteJob");
    reveal_strlit("DeleteAllJobs");
    reveal_strlit("StartProcessingJob");
    reveal_strlit("UpdateStatus");
    reveal_strlit("UpdateHeartBeat");
    reveal_strlit("CreateOrUpdateSource");
    reveal_strlit("DeleteSource");
    reveal_strlit("CreateReplayHandle");
    reveal_strlit("CreateReplayHandleFromSeqPointers");
    reveal_strlit("UpdateReplayHandleFailedIfExists");
    reveal_strlit("ReplaceReplayHandles");
    reveal_strlit("SetCurrentSnapshot");
    reveal_strlit("AcquirePartitionedLock");
    reveal_strlit("ReleasePartitionedLock");
    reveal_strlit("Batch");
    reveal_strlit("Generic");
}

/// A command can be stored, and its value is read as that command, whatever
/// order the entries of its records are stored in.
pub proof fn lemma_command_back(c: MetaCommand, w: Flex)
    ensures
        flex::storable(c.value()),
        flex::same_value(c.value(), w) ==> command_of(w) == Some(c.value()),
    decreases c,
{
    reveal(MetaCommand::value);
    match c {
        MetaCommand::CreateSchema { schema_name, if_not_exists } => {
            lemma_create_schema(schema_name@, if_not_exists, w);
        },
        MetaCommand::RenameSchema { old_schema_name, new_schema_name } => {
            lemma_rename_schema(old_schema_name@, new_schema_name@, w);
        },
        MetaCommand::RenameSchemaById { schema_id, new_schema_name } => {
            lemma_rename_schema_by_id(schema_id, new_schema_name@, w);
        },
        MetaCommand::DeleteSchema { schema_name } => {
            lemma_delete_schema(schema_name@, w);
        },
        MetaCommand::DeleteSchemaById { schema_id } => {
            lemma_delete_schema_by_id(schema_id, w);
        },
        MetaCommand::CreateTable { schema_name, table_name, payload_version, payload } => {
            lemma_create_table(schema_name@, table_name@, payload_version, payload@, w);
        },
        MetaCommand::CreateTableStructured {
            schema_name,
            table_name,
            columns_blob,
            locations,
            import_format_blob,
            indexes_blob,
            is_ready,
            build_range_end_millis,
            seal_at_millis,
            select_statement,
            source_columns_blob,
            stream_offset_blob,
            unique_key_column_names,
            aggregates,
            partition_split_threshold,
            trace_obj,
            drop_if_exists,
            extension,
            assigned_now_millis,
        } => {
            lemma_create_table_structured(
                schema_name@,
                table_name@,
                columns_blob@,
                wire::opt_texts_view(locations),
                wire::opt_bytes_view(import_format_blob),
                indexes_blob@,
                is_ready,
                build_range_end_millis,
                seal_at_millis,
                wire::opt_text_view(select_statement),
                wire::opt_bytes_view(source_columns_blob),
                wire::opt_bytes_view(stream_offset_blob),
                wire::opt_texts_view(unique_key_column_names),
                wire::opt_pairs_view(aggregates),
                partition_split_threshold,
                wire::opt_text_view(trace_obj),
                drop_if_exists,
                wire::opt_text_view(extension),
                assigned_now_millis,
                w,
            );
        },
        MetaCommand::DropTable { table_id } => {
            lemma_drop_table(table_id, w);
        },
        MetaCommand::SealTable { table_id } => {
            lemma_seal_table(table_id, w);
        },
        MetaCommand::UpdateLocationDownloadSize { table_id, location, download_size } => {
            lemma_update_location_download_size(table_id, location@, download_size, w);
        },
        MetaCommand::TableReady { table_id, is_ready } => {
            lemma_table_ready(table_id, is_ready, w);
        },
        MetaCommand::CreatePartition { partition_blob } => {
            lemma_create_partition(partition_blob@, w);
        },
        MetaCommand::DeletePartition { partition_id } => {
            lemma_delete_partition(partition_id, w);
        },
        MetaCommand::MarkPartitionWarmedUp { partition_id } => {
            lemma_mark_partition_warmed_up(partition_id, w);
        },
        MetaCommand::DeleteMiddleManPartition { partition_id } => {
            lemma_delete_middle_man_partition(partition_id, w);
        },
        MetaCommand::SwapActivePartitions { payload_version, payload } => {
            lemma_swap_active_partitions(payload_version, payload@, w);
        },
        MetaCommand::SwapActivePartitionsStructured {
            current_active_blob,
            new_active_blob,
            new_active_min_max_blob,
        } => {
            lemma_swap_active_partitions_structured(
                current_active_blob@,
                new_active_blob@,
                new_active_min_max_blob@,
                w,
            );
        },
        MetaCommand::CreateMultiPartition { multi_partition_blob } => {
            lemma_create_multi_partition(multi_partition_blob@, w);
        },
        MetaCommand::CommitMultiPartitionSplit {
            multi_partition_id,
            new_multi_partitions,
            new_multi_partition_rows,
            old_partitions_blob,
            new_partitions_blob,
            new_partition_rows,
            initial_split,
        } => {
            lemma_commit_multi_partition_split(
                multi_partition_id,
                new_multi_partitions@,
                new_multi_partition_rows@,
                old_partitions_blob@,
                new_partitions_blob@,
                new_partition_rows@,
                initial_split,
                w,
            );
        },
        MetaCommand::CreateIndex { schema_name, table_name, index_def_blob } => {
            lemma_create_index(schema_name@, table_name@, index_def_blob@, w);
        },
        MetaCommand::CreatePartitionedIndex { schema, name, columns_blob, if_not_exists } => {
            lemma_create_partitioned_index(schema@, name@, columns_blob@, if_not_exists, w);
        },
        MetaCommand::DropPartitionedIndex { schema, name } => {
            lemma_drop_partitioned_index(schema@, name@, w);
        },
        MetaCommand::CreateChunk { chunk_blob } => {
            lemma_create_chunk(chunk_blob@, w);
        },
        MetaCommand::InsertChunks { chunks_blob } => {
            lemma_insert_chunks(chunks_blob@, w);
        },
        MetaCommand::SwapCompactedChunks {
            partition_id,
            old_chunk_ids,
            new_chunk,
            new_chunk_file_size,
        } => {
            lemma_swap_compacted_chunks(
                partition_id,
                old_chunk_ids@,
                new_chunk,
                new_chunk_file_size,
                w,
            );
        },
        MetaCommand::DeleteChunk { chunk_id } => {
            lemma_delete_chunk(chunk_id, w);
        },
        MetaCommand::DeleteChunksWithoutChecks { chunk_ids } => {
            lemma_delete_chunks_without_checks(chunk_ids@, w);
        },
        MetaCommand::ChunkUploaded { chunk_id } => {
            lemma_chunk_uploaded(chunk_id, w);
        },
        MetaCommand::ChunkUpdateLastInserted { chunk_ids, last_inserted_at_millis } => {
            lemma_chunk_update_last_inserted(chunk_ids@, last_inserted_at_millis, w);
        },
        MetaCommand::SwapChunks {
            deactivate_ids,
            uploaded_ids_and_sizes,
            new_replay_handle_id,
        } => {
            lemma_swap_chunks(deactivate_ids@, uploaded_ids_and_sizes@, new_replay_handle_id, w);
        },
        MetaCommand::SwapChunksWithoutCheck {
            deactivate_ids,
            uploaded_ids_and_sizes,
            new_replay_handle_id,
        } => {
            lemma_swap_chunks_without_check(
                deactivate_ids@,
                uploaded_ids_and_sizes@,
                new_replay_handle_id,
                w,
            );
        },
        MetaCommand::ActivateChunks { table_id, uploaded_chunk_ids, replay_handle_id } => {
            lemma_activate_chunks(table_id, uploaded_chunk_ids@, replay_handle_id, w);
        },
        MetaCommand::DeactivateChunk { chunk_id, assigned_now_millis } => {
            lemma_deactivate_chunk(chunk_id, assigned_now_millis, w);
        },
        MetaCommand::DeactivateChunks { chunk_ids, assigned_now_millis } => {
            lemma_deactivate_chunks(chunk_ids@, assigned_now_millis, w);
        },
        MetaCommand::DeactivateChunksWithoutCheck { deactivate_ids } => {
            lemma_deactivate_chunks_without_check(deactivate_ids@, w);
        },
        MetaCommand::CreateWal { table_id, row_count } => {
            lemma_create_wal(table_id, row_count, w);
        },
        MetaCommand::DeleteWal { wal_id } => {
            lemma_delete_wal(wal_id, w);
        },
        MetaCommand::WalUploaded { wal_id } => {
            lemma_wal_uploaded(wal_id, w);
        },
        MetaCommand::AddJob { job_blob } => {
            lemma_add_job(job_blob@, w);
        },
        MetaCommand::DeleteJob { job_id } => {
            lemma_delete_job(job_id, w);
        },
        MetaCommand::DeleteAllJobs => {
            reveal(command_of);
        },
        MetaCommand::StartProcessingJob { server_name, long_term, assigned_now_millis } => {
            lemma_start_processing_job(server_name@, long_term, assigned_now_millis, w);
        },
        MetaCommand::UpdateStatus { job_id, status_blob, assigned_now_millis } => {
            lemma_update_status(job_id, status_blob@, assigned_now_millis, w);
        },
        MetaCommand::UpdateHeartBeat { job_id, assigned_now_millis } => {
            lemma_update_heart_beat(job_id, assigned_now_millis, w);
        },
        MetaCommand::CreateOrUpdateSource { name, credentials_blob } => {
            lemma_create_or_update_source(name@, credentials_blob@, w);
        },
        MetaCommand::DeleteSource { id } => {
            lemma_delete_source(id, w);
        },
        MetaCommand::CreateReplayHandle {
            table_id,
            location_index,
            seq_pointer_blob,
            assigned_now_millis,
        } => {
            lemma_create_replay_handle(
                table_id,
                location_index,
                seq_pointer_blob@,
                assigned_now_millis,
                w,
            );
        },
        MetaCommand::CreateReplayHandleFromSeqPointers {
            table_id,
            seq_pointers_blob,
            assigned_now_millis,
        } => {
            lemma_create_replay_handle_from_seq_pointers(
                table_id,
                seq_pointers_blob@,
                assigned_now_millis,
                w,
            );
        },
        MetaCommand::UpdateReplayHandleFailedIfExists { id, failed } => {
            lemma_update_replay_handle_failed_if_exists(id, failed, w);
        },
        MetaCommand::ReplaceReplayHandles { old_ids, new_seq_pointer_blob } => {
            lemma_replace_replay_handles(old_ids@, new_seq_pointer_blob@, w);
        },
        MetaCommand::SetCurrentSnapshot { snapshot_id_low, snapshot_id_high } => {
            lemma_set_current_snapshot(snapshot_id_low, snapshot_id_high, w);
        },
        MetaCommand::AcquirePartitionedLock { payload_version, payload } => {
            lemma_acquire_partitioned_lock(payload_version, payload@, w);
        },
        MetaCommand::ReleasePartitionedLock { payload_version, payload } => {
            lemma_release_partitioned_lock(payload_version, payload@, w);
        },
        MetaCommand::Batch { commands } => {
            lemma_batch_back(commands@, c, w);
        },
        MetaCommand::Generic { method, body } => {
            lemma_generic(method@, body@, w);
        },
    }
}

proof fn lemma_batch_back(commands: Seq<MetaCommand>, c: MetaCommand, w: Flex)
    requires
        c.value() == tagged("Batch"@, seq![("commands"@, Flex::Vector(commands_value(commands)))]),
    ensures
        flex::storable(c.value()),
        flex::same_value(c.value(), w) ==> command_of(w) == Some(c.value()),
    decreases commands,
{
    let items = commands_value(commands);
    let fields = seq![("commands"@, Flex::Vector(items))];
    assert(fields[0] == ("commands"@, Flex::Vector(items)));
    assert forall|i: int| 0 <= i < items.len() implies flex::storable(#[trigger] items[i]) by {
        lemma_command_back(commands[i], Flex::Null);
        lemma_commands_value(commands, i);
    }
    assert(flex::storable(fields[0].1));
    lemma_tagged_storable("Batch"@, fields);
    if flex::same_value(c.value(), w) {
        lemma_tagged_same("Batch"@, fields, w);
        let e = w->Record_0[0].1->Record_0;
        assert(w->Record_0 =~= seq![("Batch"@, Flex::Record(e))]);
        let j = choose|j: int|
            0 <= j < e.len() && (#[trigger] e[j]).0 == fields[0].0 && flex::same_value(
                fields[0].1,
                e[j].1,
            );
        wire::lemma_find_distinct(e, j);
        assert(rest_passes("Batch"@, e)) by {
            reveal(is_field);
            assert(e.len() == 1);
        }
        let stored = e[j].1->Vector_0;
        assert forall|k: int| 0 <= k < stored.len() implies command_of(
            #[trigger] stored[k],
        ) == Some(
            items[k],
        ) by {
            lemma_commands_value(commands, k);
            assert(flex::same_value(items[k], stored[k]));
            lemma_command_back(commands[k], stored[k]);
        }
        assert(read_items(stored) =~= items);
        lemma_batch_of(e);
    }
}

} // verus!
