//! The commands that replicas agree on, and their form on the wire.
//!
//! Every write to the metadata store is a [`MetaCommand`]. It is proposed to the
//! Raft group inside a [`MetaCommandEnvelope`], which names the version of the
//! schema, and applied on each replica once it is committed.

#[allow(unused_imports)]
use crate::bulk;
use crate::bulk::MAX_BULK;
#[allow(unused_imports)]
use crate::bulk::ENVELOPE_BULK;
#[allow(unused_imports)]
use crate::codec;
use crate::codec::{read_command, write_command};
#[allow(unused_imports)]
use crate::flex;
use crate::flex::{
    flex_begin_record, flex_end_record, flex_take, flex_write_key, flex_writer, FlexKind,
    FlexReader, RootFault,
};
#[allow(unused_imports)]
use crate::flex::{Flex, FlexFrame};
#[allow(unused_imports)]
use crate::text;
use crate::text::{push_decimal, same_text};
#[allow(unused_imports)]
use crate::wire;
use crate::wire::{find_field, put_u64, read_u16, u16_field, Field};
use flexbuffers::{FlexbufferSerializer, SerializationError};
use vstd::prelude::*;

verus! {

/// Version of the command schema. It changes when variants are added or
/// renamed; a replica refuses a command of another version.
pub const META_COMMAND_VERSION: u16 = 1;

/// One write to the metadata store. Every replica applies the same commands in
/// the same order.
#[derive(Debug, PartialEq)]
pub enum MetaCommand {
    // Schemas.
    /// Create a schema. With `if_not_exists` an existing one of the name is kept.
    CreateSchema { schema_name: String, if_not_exists: bool },
    /// Rename the schema of the old name.
    RenameSchema { old_schema_name: String, new_schema_name: String },
    /// Rename the schema of the id.
    RenameSchemaById { schema_id: u64, new_schema_name: String },
    /// Delete the schema of the name.
    DeleteSchema { schema_name: String },
    /// Delete the schema of the id.
    DeleteSchemaById { schema_id: u64 },
    // Tables.
    /// Create a table from a payload whose format `payload_version` names.
    CreateTable {
        schema_name: String,
        table_name: String,
        payload_version: u16,
        payload: Vec<u8>,
    },
    /// Create a table from its arguments, stamped with the leader's clock.
    CreateTableStructured {
        schema_name: String,
        table_name: String,
        columns_blob: Vec<u8>,
        locations: Option<Vec<String>>,
        import_format_blob: Option<Vec<u8>>,
        indexes_blob: Vec<u8>,
        is_ready: bool,
        build_range_end_millis: Option<i64>,
        seal_at_millis: Option<i64>,
        select_statement: Option<String>,
        source_columns_blob: Option<Vec<u8>>,
        stream_offset_blob: Option<Vec<u8>>,
        unique_key_column_names: Option<Vec<String>>,
        aggregates: Option<Vec<(String, String)>>,
        partition_split_threshold: Option<u64>,
        trace_obj: Option<String>,
        drop_if_exists: bool,
        extension: Option<String>,
        assigned_now_millis: i64,
    },
    /// Drop the table of the id.
    DropTable { table_id: u64 },
    /// Seal the table of the id.
    SealTable { table_id: u64 },
    /// Record how large a location of a table is to download.
    UpdateLocationDownloadSize {
        table_id: u64,
        location: String,
        download_size: u64,
    },
    /// Mark a table ready or not.
    TableReady { table_id: u64, is_ready: bool },
    // Partitions.
    /// Create the partition that the blob holds.
    CreatePartition { partition_blob: Vec<u8> },
    /// Delete the partition of the id.
    DeletePartition { partition_id: u64 },
    /// Mark a partition warmed up.
    MarkPartitionWarmedUp { partition_id: u64 },
    /// Delete a partition that has both a parent and children.
    DeleteMiddleManPartition { partition_id: u64 },
    /// Swap partitions, from a payload whose format `payload_version` names.
    SwapActivePartitions { payload_version: u16, payload: Vec<u8> },
    /// Swap partitions, from the arguments themselves.
    SwapActivePartitionsStructured {
        current_active_blob: Vec<u8>,
        new_active_blob: Vec<u8>,
        new_active_min_max_blob: Vec<u8>,
    },
    /// Create the multi-partition that the blob holds.
    CreateMultiPartition { multi_partition_blob: Vec<u8> },
    /// Finish the split of a multi-partition.
    CommitMultiPartitionSplit {
        multi_partition_id: u64,
        new_multi_partitions: Vec<u64>,
        new_multi_partition_rows: Vec<u64>,
        old_partitions_blob: Vec<u8>,
        new_partitions_blob: Vec<u8>,
        new_partition_rows: Vec<u64>,
        initial_split: bool,
    },
    // Indexes.
    /// Create an index on a table.
    CreateIndex {
        schema_name: String,
        table_name: String,
        index_def_blob: Vec<u8>,
    },
    /// Create a partitioned index.
    CreatePartitionedIndex {
        schema: String,
        name: String,
        columns_blob: Vec<u8>,
        if_not_exists: bool,
    },
    /// Drop a partitioned index.
    DropPartitionedIndex { schema: String, name: String },
    // Chunks.
    /// Insert the chunk that the blob holds, as the leader built it.
    CreateChunk { chunk_blob: Vec<u8> },
    /// Insert the chunks that the blob holds.
    InsertChunks { chunks_blob: Vec<u8> },
    /// Swap the chunks of a partition for their compaction.
    SwapCompactedChunks {
        partition_id: u64,
        old_chunk_ids: Vec<u64>,
        new_chunk: u64,
        new_chunk_file_size: u64,
    },
    /// Delete the chunk of the id.
    DeleteChunk { chunk_id: u64 },
    /// Delete chunks without checks.
    DeleteChunksWithoutChecks { chunk_ids: Vec<u64> },
    /// Mark a chunk uploaded.
    ChunkUploaded { chunk_id: u64 },
    /// Record when rows were last inserted into chunks.
    ChunkUpdateLastInserted { chunk_ids: Vec<u64>, last_inserted_at_millis: Option<i64> },
    /// Deactivate chunks and activate uploaded ones.
    SwapChunks {
        deactivate_ids: Vec<u64>,
        uploaded_ids_and_sizes: Vec<(u64, Option<u64>)>,
        new_replay_handle_id: Option<u64>,
    },
    /// Deactivate chunks and activate uploaded ones, without checks.
    SwapChunksWithoutCheck {
        deactivate_ids: Vec<u64>,
        uploaded_ids_and_sizes: Vec<(u64, Option<u64>)>,
        new_replay_handle_id: Option<u64>,
    },
    /// Activate uploaded chunks of a table.
    ActivateChunks {
        table_id: u64,
        uploaded_chunk_ids: Vec<(u64, Option<u64>)>,
        replay_handle_id: Option<u64>,
    },
    /// Deactivate a chunk, stamped with the leader's clock.
    DeactivateChunk { chunk_id: u64, assigned_now_millis: i64 },
    /// Deactivate chunks, stamped with the leader's clock.
    DeactivateChunks { chunk_ids: Vec<u64>, assigned_now_millis: i64 },
    /// Deactivate chunks without checks.
    DeactivateChunksWithoutCheck { deactivate_ids: Vec<u64> },
    // Write-ahead logs.
    /// Create a write-ahead log of a table.
    CreateWal { table_id: u64, row_count: u64 },
    /// Delete a write-ahead log.
    DeleteWal { wal_id: u64 },
    /// Mark a write-ahead log uploaded.
    WalUploaded { wal_id: u64 },
    // Jobs.
    /// Add the job that the blob holds.
    AddJob { job_blob: Vec<u8> },
    /// Delete the job of the id.
    DeleteJob { job_id: u64 },
    /// Delete every job.
    DeleteAllJobs,
    /// Hand a scheduled job to a server, stamped with the leader's clock.
    StartProcessingJob {
        server_name: String,
        long_term: bool,
        assigned_now_millis: i64,
    },
    /// Set the status of a job, stamped with the leader's clock.
    UpdateStatus {
        job_id: u64,
        status_blob: Vec<u8>,
        assigned_now_millis: i64,
    },
    /// Record a job's heart beat, stamped with the leader's clock.
    UpdateHeartBeat { job_id: u64, assigned_now_millis: i64 },
    // Sources.
    /// Create a source or update its credentials.
    CreateOrUpdateSource { name: String, credentials_blob: Vec<u8> },
    /// Delete the source of the id.
    DeleteSource { id: u64 },
    // Replay handles.
    /// Create a replay handle of one location, stamped with the leader's clock.
    CreateReplayHandle {
        table_id: u64,
        location_index: u64,
        seq_pointer_blob: Vec<u8>,
        assigned_now_millis: i64,
    },
    /// Create a replay handle of all locations, stamped with the leader's clock.
    CreateReplayHandleFromSeqPointers {
        table_id: u64,
        seq_pointers_blob: Vec<u8>,
        assigned_now_millis: i64,
    },
    /// Set whether a replay handle failed.
    UpdateReplayHandleFailedIfExists { id: u64, failed: bool },
    /// Replace replay handles by one.
    ReplaceReplayHandles { old_ids: Vec<u64>, new_seq_pointer_blob: Vec<u8> },
    // Snapshots and locks.
    /// Select a snapshot, its number in two halves.
    SetCurrentSnapshot { snapshot_id_low: u64, snapshot_id_high: u64 },
    /// Take a partitioned lock.
    AcquirePartitionedLock { payload_version: u16, payload: Vec<u8> },
    /// Give a partitioned lock back.
    ReleasePartitionedLock { payload_version: u16, payload: Vec<u8> },
    // Escape hatches.
    /// Several commands, applied in order.
    Batch { commands: Vec<MetaCommand> },
    /// A write without a variant of its own: the method and its arguments.
    Generic { method: String, body: Vec<u8> },
}

/// Why the bytes of an envelope were not understood.
#[derive(Debug, Clone, Copy, PartialEq, Eq, Structural)]
pub enum DeserializeFault {
    /// The document does not hold an envelope, or not one that can be read.
    NotAnEnvelope,
}

/// What can go wrong when a command is encoded or decoded.
#[derive(Debug)]
pub enum MetaCommandCodecError {
    Serialize(SerializationError),
    /// The command is too large to be encoded.
    TooLarge,
    Deserialize(DeserializeFault),
    Reader(RootFault),
    UnsupportedVersion { found: u16, expected: u16 },
    EmptyPayload,
}

/// Calls `to_string` on a serialization error of flexbuffers. What the text says of the
/// error is left open.
#[verifier::external_body]
fn serialization_error_text(e: &SerializationError) -> (r: String) {
    e.to_string()
}

pub open spec fn version_text(found: u16, expected: u16) -> Seq<char> {
    "MetaCommand version mismatch: found="@ + text::decimal(found as nat) + " expected="@
        + text::decimal(expected as nat)
}

/// What an error says; of an error of the writer of the bytes, how it begins.
pub open spec fn codec_text(e: MetaCommandCodecError) -> Seq<char> {
    match e {
        MetaCommandCodecError::Serialize(_) => "MetaCommand serialize: "@,
        MetaCommandCodecError::TooLarge => "MetaCommand serialize: the command is too large"@,
        MetaCommandCodecError::Deserialize(DeserializeFault::NotAnEnvelope) =>
            "MetaCommand deserialize: the document is no command envelope"@,
        MetaCommandCodecError::Reader(fault) => "MetaCommand reader: "@ + flex::fault_text(fault),
        MetaCommandCodecError::UnsupportedVersion { found, expected } => version_text(
            found,
            expected,
        ),
        MetaCommandCodecError::EmptyPayload => "MetaCommand decode: empty payload"@,
    }
}

/// Whether a message is that of an error.
pub open spec fn codec_message(e: MetaCommandCodecError, m: Seq<char>) -> bool {
    if e is Serialize {
        codec_text(e).is_prefix_of(m)
    } else {
        m == codec_text(e)
    }
}

impl MetaCommandCodecError {
    /// The error in words.
    pub fn message(&self) -> (r: String)
        ensures
            codec_message(*self, r@),
    {
        match self {
            MetaCommandCodecError::Serialize(e) => {
                let mut s: String = "MetaCommand serialize: ".to_owned();
                s.push_str(serialization_error_text(e).as_str());
                assert(codec_text(*self) =~= s@.take(codec_text(*self).len() as int));
                s
            },
            MetaCommandCodecError::TooLarge =>
                "MetaCommand serialize: the command is too large".to_owned(),
            MetaCommandCodecError::Deserialize(DeserializeFault::NotAnEnvelope) =>
                "MetaCommand deserialize: the document is no command envelope".to_owned(),
            MetaCommandCodecError::Reader(e) => {
                let mut s: String = "MetaCommand reader: ".to_owned();
                s.push_str(e.message().as_str());
                s
            },
            MetaCommandCodecError::UnsupportedVersion { found, expected } => {
                let mut s: String = "MetaCommand version mismatch: found=".to_owned();
                push_decimal(&mut s, *found as u128);
                s.push_str(" expected=");
                push_decimal(&mut s, *expected as u128);
                s
            },
            MetaCommandCodecError::EmptyPayload => "MetaCommand decode: empty payload".to_owned(),
        }
    }
}

/// A command with the version of the schema that it was written under.
#[derive(Debug, PartialEq)]
pub struct MetaCommandEnvelope {
    pub version: u16,
    pub command: MetaCommand,
}

/// The value of an envelope on the wire.
pub open spec fn envelope_value(version: u16, command: Flex) -> Flex {
    Flex::Record(seq![("version"@, Flex::UInt(version as u64)), ("command"@, command)])
}

/// Whether what a record holds beside the fields of an envelope can be passed over.
pub open spec fn rest_passes(entries: Seq<(Seq<char>, Flex)>) -> bool {
    forall|i: int|
        0 <= i < entries.len() ==> (#[trigger] entries[i]).0 == "version"@ || entries[i].0
            == "command"@ || flex::passable(entries[i].1)
}

/// The version and the command that a value holds, if it is an envelope: a
/// record with both fields, or a vector with the two in this order.
pub open spec fn envelope_of(w: Flex) -> Option<(u16, Flex)> {
    match w {
        Flex::Record(entries) => match (
            wire::u16_entry(entries, "version"@),
            wire::entry(entries, "command"@),
        ) {
            (Some(version), Some(command)) => match codec::command_of(command) {
                Some(v) if rest_passes(entries) => Some((version, v)),
                _ => None,
            },
            _ => None,
        },
        Flex::Vector(items) => if items.len() < 2 {
            None
        } else {
            match (wire::as_u16(items[0]), codec::command_of(items[1])) {
                (Some(version), Some(v)) => Some((version, v)),
                _ => None,
            }
        },
        _ => None,
    }
}

/// What some bytes are decoded as.
pub enum Decoded {
    Empty,
    NoRoot(RootFault),
    NotAnEnvelope,
    OtherVersion(u16),
    Command(Flex),
}

pub open spec fn decoded(b: Seq<u8>) -> Decoded {
    if b.len() == 0 {
        Decoded::Empty
    } else if flex::document_root(b) is None {
        Decoded::NoRoot(flex::root_fault(b))
    } else {
        match envelope_of(flex::document_value(b)) {
            None => Decoded::NotAnEnvelope,
            Some((version, command)) => if version == META_COMMAND_VERSION {
                Decoded::Command(command)
            } else {
                Decoded::OtherVersion(version)
            },
        }
    }
}

/// Whether some bytes are decoded with a result.
pub open spec fn decodes_as(b: Seq<u8>, r: Result<MetaCommand, MetaCommandCodecError>) -> bool {
    match decoded(b) {
        Decoded::Empty => r matches Err(MetaCommandCodecError::EmptyPayload),
        Decoded::NoRoot(fault) => r matches Err(MetaCommandCodecError::Reader(f)) && f == fault,
        Decoded::NotAnEnvelope => r matches Err(
            MetaCommandCodecError::Deserialize(DeserializeFault::NotAnEnvelope),
        ),
        Decoded::OtherVersion(version) => r matches Err(
            MetaCommandCodecError::UnsupportedVersion { found, expected },
        ) && found == version && expected == META_COMMAND_VERSION,
        Decoded::Command(v) => r matches Ok(command) && command.value() == v,
    }
}

/// A record that is read back as one of two fields holds nothing beside them.
proof fn lemma_nothing_else(fields: Seq<(Seq<char>, Flex)>, e: Seq<(Seq<char>, Flex)>)
    requires
        fields.len() == 2,
        fields[0].0 == "version"@,
        fields[1].0 == "command"@,
        flex::same_value(Flex::Record(fields), Flex::Record(e)),
    ensures
        rest_passes(e),
{
    assert forall|j: int| 0 <= j < e.len() implies (#[trigger] e[j]).0 == "version"@ || e[j].0
        == "command"@ by {
        let i = choose|i: int|
            0 <= i < fields.len() && e[j].0 == (#[trigger] fields[i]).0 && flex::same_value(
                fields[i].1,
                e[j].1,
            );
        assert(i == 0 || i == 1);
    }
}

#[verifier::rlimit(40)]
#[verifier::spinoff_prover]
proof fn lemma_envelope_back(version: u16, command: MetaCommand, w: Flex)
    ensures
        flex::storable(envelope_value(version, command.value())),
        flex::same_value(envelope_value(version, command.value()), w) ==> envelope_of(w) == Some(
            (version, command.value()),
        ),
{
    let fields = seq![("version"@, Flex::UInt(version as u64)), ("command"@, command.value())];
    reveal_strlit("version");
    reveal_strlit("command");
    assert(fields[0] == ("version"@, Flex::UInt(version as u64)));
    assert(fields[1] == ("command"@, command.value()));
    assert("version"@[0] != "command"@[0]);
    assert("version"@ != "command"@);
    assert(flex::distinct_keys(fields));
    codec::lemma_command_back(command, Flex::Null);
    assert forall|i: int| 0 <= i < fields.len() implies flex::storable((#[trigger] fields[i]).1) by {}
    if flex::same_value(Flex::Record(fields), w) {
        let e = w->Record_0;
        let i = choose|j: int|
            0 <= j < e.len() && (#[trigger] e[j]).0 == fields[0].0 && flex::same_value(
                fields[0].1,
                e[j].1,
            );
        let j = choose|j: int|
            0 <= j < e.len() && (#[trigger] e[j]).0 == fields[1].0 && flex::same_value(
                fields[1].1,
                e[j].1,
            );
        wire::lemma_find_distinct(e, i);
        wire::lemma_find_distinct(e, j);
        wire::lemma_u16_back(e, "version"@, version);
        codec::lemma_command_back(command, e[j].1);
        assert(rest_passes(e)) by {
            lemma_nothing_else(fields, e);
        }
    }
}

/// What comes of encoding an envelope: bytes that depend on it alone, are never empty, and
/// are decoded as its command again, or as an envelope of another version where the version
/// is not the current one. They are no more than the bulk of the command allows. Only a
/// command that is too large is refused.
pub open spec fn encoded(
    version: u16,
    command: MetaCommand,
    r: Result<Vec<u8>, MetaCommandCodecError>,
) -> bool {
    match r {
        Ok(bytes) => {
            &&& command.bulk() < MAX_BULK
            &&& bytes@ == flex::flex_document(envelope_value(version, command.value()))
            &&& 0 < bytes@.len() <= command.bulk() + ENVELOPE_BULK
            &&& decoded(bytes@) == (if version == META_COMMAND_VERSION {
                Decoded::Command(command.value())
            } else {
                Decoded::OtherVersion(version)
            })
        },
        Err(e) => e is TooLarge && command.bulk() >= MAX_BULK,
    }
}

proof fn lemma_envelope_weight(version: u16, command: MetaCommand)
    ensures
        flex::weight(envelope_value(version, command.value())) <= command.bulk() + ENVELOPE_BULK,
{
    broadcast use flex::lemma_entries_push;

    let fields = seq![("version"@, Flex::UInt(version as u64)), ("command"@, command.value())];
    reveal_strlit("version");
    reveal_strlit("command");
    assert(flex::weight(Flex::UInt(version as u64)) == 9) by {
        reveal(flex::weight);
    }
    assert(fields =~= Seq::empty().push(fields[0]).push(fields[1]));
    flex::lemma_record_weight(fields);
    bulk::lemma_weight_bulk(command);
}

fn write_envelope(version: u16, command: &MetaCommand) -> (r: Result<Vec<u8>, SerializationError>)
    requires
        command.bulk() < MAX_BULK,
    ensures
        r matches Ok(bytes) && encoded(version, *command, Ok(bytes)),
{
    broadcast use {flex::lemma_entries_push, flex::lemma_written_push};

    let ghost fields = seq![
        ("version"@, Flex::UInt(version as u64)),
        ("command"@, command.value()),
    ];
    let ghost empty = Seq::<(Seq<char>, Flex)>::empty();
    proof {
        reveal_strlit("version");
        reveal_strlit("command");
        lemma_envelope_weight(version, *command);
        lemma_envelope_back(version, *command, Flex::Null);
        flex::lemma_record_weight(fields);
        flex::lemma_record_weight(fields.take(1));
        assert(fields =~= empty.push(fields[0]).push(fields[1]));
        assert(fields.take(1) =~= empty.push(fields[0]));
        assert(flex::storable(fields[1].1));
    }
    let mut s: FlexbufferSerializer = flex_writer();
    let ghost outer = flex::flex_frames(s);
    proof {
        reveal(flex::written);
        assert(outer =~= Seq::empty().push(FlexFrame::Top(None)));
    }
    flex_begin_record(&mut s)?;
    assert(outer.push(FlexFrame::Record(empty, None)).drop_last() =~= outer);
    put_u64(&mut s, "version", version as u64)?;
    assert(flex::flex_frames(s) =~= outer.push(FlexFrame::Record(fields.take(1), None)));
    flex_write_key(&mut s, "command")?;
    assert(flex::flex_frames(s) =~= outer.push(
        FlexFrame::Record(fields.take(1), Some("command"@)),
    ));
    assert(flex::with_value(flex::flex_frames(s), command.value()) =~= outer.push(
        FlexFrame::Record(fields, None),
    ));
    write_command(&mut s, command)?;
    assert(flex::flex_frames(s).drop_last() =~= outer);
    flex_end_record(&mut s)?;
    assert(flex::flex_frames(s) =~= Seq::empty().push(
        FlexFrame::Top(Some(envelope_value(version, command.value()))),
    ));
    let bytes: Vec<u8> = flex_take(&mut s);
    proof {
        lemma_envelope_back(version, *command, flex::document_value(bytes@));
    }
    Ok(bytes)
}

fn encode_envelope(version: u16, command: &MetaCommand) -> (r: Result<
    Vec<u8>,
    MetaCommandCodecError,
>)
    ensures
        encoded(version, *command, r),
{
    if command.size() >= MAX_BULK {
        return Err(MetaCommandCodecError::TooLarge);
    }
    match write_envelope(version, command) {
        Ok(bytes) => Ok(bytes),
        Err(e) => Err(MetaCommandCodecError::Serialize(e)),
    }
}

impl MetaCommandEnvelope {
    /// Encodes an envelope as it is, whatever its version.
    pub fn encode(&self) -> (r: Result<Vec<u8>, MetaCommandCodecError>)
        ensures
            encoded(self.version, self.command, r),
    {
        encode_envelope(self.version, &self.command)
    }
}

impl MetaCommand {
    /// Encodes a command inside an envelope of the current version.
    pub fn encode(&self) -> (r: Result<Vec<u8>, MetaCommandCodecError>)
        ensures
            encoded(META_COMMAND_VERSION, *self, r),
    {
        encode_envelope(META_COMMAND_VERSION, self)
    }

    /// Decodes the command of an envelope of the current version.
    pub fn decode(bytes: &[u8]) -> (r: Result<MetaCommand, MetaCommandCodecError>)
        ensures
            decodes_as(bytes@, r),
    {
        if bytes.len() == 0 {
            return Err(MetaCommandCodecError::EmptyPayload);
        }
        let root: FlexReader<'_> = match FlexReader::open(bytes) {
            Ok(root) => root,
            Err(e) => {
                return Err(MetaCommandCodecError::Reader(e));
            },
        };
        match read_envelope(&root) {
            None => Err(MetaCommandCodecError::Deserialize(DeserializeFault::NotAnEnvelope)),
            Some(envelope) => if envelope.version == META_COMMAND_VERSION {
                Ok(envelope.command)
            } else {
                Err(
                    MetaCommandCodecError::UnsupportedVersion {
                        found: envelope.version,
                        expected: META_COMMAND_VERSION,
                    },
                )
            },
        }
    }
}

/// An envelope is understood however a writer lays its records out: any value that holds the
/// same entries, in whatever order, is that envelope.
pub proof fn law_layout_does_not_matter(version: u16, command: MetaCommand, w: Flex)
    requires
        flex::same_value(envelope_value(version, command.value()), w),
    ensures
        envelope_of(w) == Some((version, command.value())),
{
    lemma_envelope_back(version, command, w);
}

/// An envelope is also understood as a vector of its version and its command.
pub proof fn law_envelope_as_a_vector(version: u16, command: MetaCommand, w: Flex)
    requires
        flex::same_value(command.value(), w),
    ensures
        envelope_of(Flex::Vector(seq![Flex::UInt(version as u64), w])) == Some(
            (version, command.value()),
        ),
{
    codec::lemma_command_back(command, w);
}

/// An envelope may hold more than it must: what else stands in the record, under another
/// name, is passed over, as long as it can be read.
pub proof fn law_more_fields_are_passed_over(
    entries: Seq<(Seq<char>, Flex)>,
    name: Seq<char>,
    v: Flex,
)
    requires
        name != "version"@,
        name != "command"@,
        flex::passable(v),
    ensures
        envelope_of(Flex::Record(entries.push((name, v)))) == envelope_of(Flex::Record(entries)),
{
    reveal(wire::u16_entry);
    let more = entries.push((name, v));
    assert(more.drop_last() =~= entries);
    wire::lemma_find_at(entries, "version"@);
    wire::lemma_find_at(entries, "command"@);
    assert(rest_passes(more) == rest_passes(entries)) by {
        if rest_passes(more) {
            assert forall|i: int| 0 <= i < entries.len() implies (#[trigger] entries[i]).0
                == "version"@ || entries[i].0 == "command"@ || flex::passable(entries[i].1) by {
                assert(more[i] == entries[i]);
            }
        }
    }
}

/// An envelope stands on the wire as a record of its version and its command.
pub proof fn law_envelope_on_the_wire(version: u16, command: MetaCommand, bytes: Vec<u8>)
    requires
        encoded(version, command, Ok(bytes)),
    ensures
        bytes@ == flex::flex_document(
            Flex::Record(
                seq![("version"@, Flex::UInt(version as u64)), ("command"@, command.value())],
            ),
        ),
{
}

/// Only a command that holds a great deal is refused: one that holds less than a quarter of
/// four gibibytes, with three kibibytes set aside for each of its commands, is encoded,
/// whatever it is.
pub proof fn law_ordinary_commands_are_encoded(
    version: u16,
    command: MetaCommand,
    r: Result<Vec<u8>, MetaCommandCodecError>,
)
    requires
        encoded(version, command, r),
        4 * command.held() + 3072 * command.commands_in() < 0xffff_f000,
    ensures
        r is Ok,
{
    bulk::law_small_enough(command);
}

/// A replica decodes the commands of its own version and refuses those of any other, naming
/// both versions.
pub proof fn law_other_versions_are_refused(
    version: u16,
    command: MetaCommand,
    bytes: Vec<u8>,
    r: Result<MetaCommand, MetaCommandCodecError>,
)
    requires
        encoded(version, command, Ok(bytes)),
        decodes_as(bytes@, r),
    ensures
        version == 1 ==> (r matches Ok(got) && got.value() == command.value()),
        version != 1 ==> (r matches Err(
            MetaCommandCodecError::UnsupportedVersion { found, expected },
        ) && found == version && expected == 1),
{
}

/// An empty payload holds no command.
pub proof fn law_empty_payload(bytes: Seq<u8>, r: Result<MetaCommand, MetaCommandCodecError>)
    requires
        decodes_as(bytes, r),
    ensures
        r matches Err(MetaCommandCodecError::EmptyPayload) <==> bytes.len() == 0,
{
}

fn passes_rest(r: &FlexReader<'_>) -> (x: bool)
    requires
        r.value() is Record,
    ensures
        x == rest_passes(wire::entries_at(*r)),
{
    let ghost entries = wire::entries_at(*r);
    let n: usize = r.count();
    let mut i: usize = 0;
    while i < n
        invariant
            r.value() == Flex::Record(entries),
            n == entries.len(),
            0 <= i <= n,
            forall|k: int|
                0 <= k < i ==> (#[trigger] entries[k]).0 == "version"@ || entries[k].0
                    == "command"@ || flex::passable(entries[k].1),
        decreases n - i,
    {
        let key: String = r.key(i);
        let known: bool = same_text(key.as_str(), "version") || same_text(key.as_str(), "command");
        if !known && !r.item(i).can_pass() {
            assert(entries[i as int].0 == key@);
            return false;
        }
        i = i + 1;
    }
    true
}

fn read_envelope(r: &FlexReader<'_>) -> (x: Option<MetaCommandEnvelope>)
    ensures
        match x {
            Some(envelope) => envelope_of(r.value()) == Some(
                (envelope.version, envelope.command.value()),
            ),
            None => envelope_of(r.value()) is None,
        },
{
    match r.kind() {
        FlexKind::Record => {
            let version: u16 = u16_field(r, "version")?;
            if !passes_rest(r) {
                return None;
            }
            match find_field(r, "command") {
                Field::At(item) => {
                    let command: MetaCommand = read_command(&item)?;
                    Some(MetaCommandEnvelope { version, command })
                },
                _ => None,
            }
        },
        FlexKind::Vector => {
            if r.count() < 2 {
                return None;
            }
            let version: u16 = read_u16(&r.item(0))?;
            let command: MetaCommand = read_command(&r.item(1))?;
            Some(MetaCommandEnvelope { version, command })
        },
        _ => None,
    }
}

} // verus!
