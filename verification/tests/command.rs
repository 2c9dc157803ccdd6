use raftmeta::command::{
    DeserializeFault, MetaCommand, MetaCommandCodecError, MetaCommandEnvelope,
    META_COMMAND_VERSION,
};
use raftmeta::flex::RootFault;

fn round_trip(cmd: MetaCommand) {
    let bytes = cmd.encode().expect("encode");
    let decoded = MetaCommand::decode(&bytes).expect("decode");
    assert_eq!(cmd, decoded, "round-trip mismatch");
}

#[test]
fn create_schema_round_trip() {
    round_trip(MetaCommand::CreateSchema {
        schema_name: "public".into(),
        if_not_exists: true,
    });
    round_trip(MetaCommand::CreateSchema {
        schema_name: String::new(),
        if_not_exists: false,
    });
}

#[test]
fn rename_schema_round_trip() {
    round_trip(MetaCommand::RenameSchema {
        old_schema_name: "old".into(),
        new_schema_name: "new".into(),
    });
}

#[test]
fn delete_schema_round_trip() {
    round_trip(MetaCommand::DeleteSchema {
        schema_name: "to_drop".into(),
    });
}

#[test]
fn create_table_round_trip() {
    round_trip(MetaCommand::CreateTable {
        schema_name: "public".into(),
        table_name: "orders".into(),
        payload_version: 1,
        payload: vec![1, 2, 3, 4, 5, 6, 7, 8],
    });
    round_trip(MetaCommand::CreateTable {
        schema_name: "public".into(),
        table_name: "empty".into(),
        payload_version: 1,
        payload: vec![],
    });
}

#[test]
fn drop_and_seal_table_round_trip() {
    round_trip(MetaCommand::DropTable { table_id: 42 });
    round_trip(MetaCommand::SealTable { table_id: u64::MAX });
}

#[test]
fn update_location_download_size_round_trip() {
    round_trip(MetaCommand::UpdateLocationDownloadSize {
        table_id: 1,
        location: "s3://bucket/key".into(),
        download_size: 12345,
    });
}

#[test]
fn swap_compacted_chunks_round_trip() {
    round_trip(MetaCommand::SwapCompactedChunks {
        partition_id: 7,
        old_chunk_ids: vec![1, 2, 3, 99],
        new_chunk: 100,
        new_chunk_file_size: 1 << 30,
    });
    round_trip(MetaCommand::SwapCompactedChunks {
        partition_id: 0,
        old_chunk_ids: vec![],
        new_chunk: 0,
        new_chunk_file_size: 0,
    });
}

#[test]
fn create_partition_round_trip() {
    round_trip(MetaCommand::CreatePartition {
        partition_blob: vec![0xAA; 256],
    });
}

#[test]
fn swap_active_partitions_round_trip() {
    round_trip(MetaCommand::SwapActivePartitions {
        payload_version: 1,
        payload: vec![0xBB; 1024],
    });
}

#[test]
fn batch_round_trip_atomicity() {
    round_trip(MetaCommand::Batch {
        commands: vec![
            MetaCommand::CreateSchema {
                schema_name: "s1".into(),
                if_not_exists: false,
            },
            MetaCommand::CreateTable {
                schema_name: "s1".into(),
                table_name: "t1".into(),
                payload_version: 1,
                payload: vec![9, 9, 9],
            },
            MetaCommand::DropTable { table_id: 1 },
        ],
    });
    round_trip(MetaCommand::Batch { commands: vec![] });
}

#[test]
fn nested_batch_round_trip() {
    round_trip(MetaCommand::Batch {
        commands: vec![MetaCommand::Batch {
            commands: vec![MetaCommand::DropTable { table_id: 1 }],
        }],
    });
}

#[test]
fn generic_round_trip() {
    round_trip(MetaCommand::Generic {
        method: "create_partitioned_index".into(),
        body: b"opaque flexbuffer payload here".to_vec(),
    });
}

#[test]
fn empty_payload_decode_errors() {
    let err = MetaCommand::decode(&[]).unwrap_err();
    assert!(matches!(err, MetaCommandCodecError::EmptyPayload));
    assert_eq!(err.message(), "MetaCommand decode: empty payload");
}

#[test]
fn version_mismatch_decode_errors() {
    let envelope = MetaCommandEnvelope {
        version: META_COMMAND_VERSION + 99,
        command: MetaCommand::DropTable { table_id: 1 },
    };
    let bytes = envelope.encode().unwrap();
    let err = MetaCommand::decode(&bytes).unwrap_err();
    assert_eq!(
        err.message(),
        "MetaCommand version mismatch: found=100 expected=1"
    );
    match err {
        MetaCommandCodecError::UnsupportedVersion { found, expected } => {
            assert_eq!(found, META_COMMAND_VERSION + 99);
            assert_eq!(expected, META_COMMAND_VERSION);
        }
        other => panic!("expected UnsupportedVersion, got {:?}", other),
    }
}

#[test]
fn corrupt_bytes_decode_errors() {
    let err = MetaCommand::decode(&[0xFF, 0xFE, 0xFD]).unwrap_err();
    assert!(matches!(
        err,
        MetaCommandCodecError::Reader(_) | MetaCommandCodecError::Deserialize(_)
    ));
}

#[test]
fn encoded_size_is_bounded() {
    let cmd = MetaCommand::CreateTable {
        schema_name: "s".into(),
        table_name: "t".into(),
        payload_version: 1,
        payload: vec![0x42; 1024],
    };
    let bytes = cmd.encode().unwrap();
    assert!(
        bytes.len() < 4096,
        "envelope grew unexpectedly: {} bytes",
        bytes.len()
    );
}

fn full_table() -> MetaCommand {
    MetaCommand::CreateTableStructured {
        schema_name: "public".into(),
        table_name: "orders".into(),
        columns_blob: vec![0, 1, 255],
        locations: Some(vec!["s3://a".into(), String::new(), "ü✓".into()]),
        import_format_blob: Some(vec![]),
        indexes_blob: vec![7; 300],
        is_ready: true,
        build_range_end_millis: Some(-1),
        seal_at_millis: Some(i64::MIN),
        select_statement: Some("SELECT 1".into()),
        source_columns_blob: Some(vec![1]),
        stream_offset_blob: Some(vec![2, 3]),
        unique_key_column_names: Some(vec![]),
        aggregates: Some(vec![("sum".into(), "amount".into()), ("max".into(), "".into())]),
        partition_split_threshold: Some(u64::MAX),
        trace_obj: Some("trace".into()),
        drop_if_exists: true,
        extension: Some("{}".into()),
        assigned_now_millis: i64::MAX,
    }
}

#[test]
fn every_optional_field_survives_the_wire_present() {
    round_trip(full_table());
}

#[test]
fn every_optional_field_survives_the_wire_absent() {
    round_trip(MetaCommand::CreateTableStructured {
        schema_name: String::new(),
        table_name: String::new(),
        columns_blob: vec![],
        locations: None,
        import_format_blob: None,
        indexes_blob: vec![],
        is_ready: false,
        build_range_end_millis: None,
        seal_at_millis: None,
        select_statement: None,
        source_columns_blob: None,
        stream_offset_blob: None,
        unique_key_column_names: None,
        aggregates: None,
        partition_split_threshold: None,
        trace_obj: None,
        drop_if_exists: false,
        extension: None,
        assigned_now_millis: 0,
    });
}

#[test]
fn the_remaining_variants_survive_the_wire() {
    let ids = vec![(1, None), (2, Some(0)), (u64::MAX, Some(u64::MAX))];
    let commands = vec![
        MetaCommand::RenameSchemaById { schema_id: 3, new_schema_name: "n".into() },
        MetaCommand::DeleteSchemaById { schema_id: 256 },
        MetaCommand::TableReady { table_id: 65536, is_ready: true },
        MetaCommand::DeletePartition { partition_id: 1 },
        MetaCommand::MarkPartitionWarmedUp { partition_id: 1 },
        MetaCommand::DeleteMiddleManPartition { partition_id: 1 },
        MetaCommand::SwapActivePartitionsStructured {
            current_active_blob: vec![1],
            new_active_blob: vec![2, 2],
            new_active_min_max_blob: vec![],
        },
        MetaCommand::CreateMultiPartition { multi_partition_blob: vec![4] },
        MetaCommand::CommitMultiPartitionSplit {
            multi_partition_id: 1,
            new_multi_partitions: vec![2, 3],
            new_multi_partition_rows: vec![10, 1 << 40],
            old_partitions_blob: vec![5],
            new_partitions_blob: vec![6],
            new_partition_rows: vec![],
            initial_split: true,
        },
        MetaCommand::CreateIndex {
            schema_name: "s".into(),
            table_name: "t".into(),
            index_def_blob: vec![1],
        },
        MetaCommand::CreatePartitionedIndex {
            schema: "s".into(),
            name: "n".into(),
            columns_blob: vec![1],
            if_not_exists: true,
        },
        MetaCommand::DropPartitionedIndex { schema: "s".into(), name: "n".into() },
        MetaCommand::CreateChunk { chunk_blob: vec![1] },
        MetaCommand::InsertChunks { chunks_blob: vec![2] },
        MetaCommand::DeleteChunk { chunk_id: 9 },
        MetaCommand::DeleteChunksWithoutChecks { chunk_ids: vec![1, 2] },
        MetaCommand::ChunkUploaded { chunk_id: 9 },
        MetaCommand::ChunkUpdateLastInserted {
            chunk_ids: vec![1],
            last_inserted_at_millis: Some(-5),
        },
        MetaCommand::SwapChunks {
            deactivate_ids: vec![1],
            uploaded_ids_and_sizes: ids.clone(),
            new_replay_handle_id: Some(4),
        },
        MetaCommand::SwapChunksWithoutCheck {
            deactivate_ids: vec![],
            uploaded_ids_and_sizes: ids.clone(),
            new_replay_handle_id: None,
        },
        MetaCommand::ActivateChunks {
            table_id: 1,
            uploaded_chunk_ids: ids,
            replay_handle_id: None,
        },
        MetaCommand::DeactivateChunk { chunk_id: 1, assigned_now_millis: -1 },
        MetaCommand::DeactivateChunks { chunk_ids: vec![300], assigned_now_millis: 1 },
        MetaCommand::DeactivateChunksWithoutCheck { deactivate_ids: vec![1] },
        MetaCommand::CreateWal { table_id: 1, row_count: 2 },
        MetaCommand::DeleteWal { wal_id: 1 },
        MetaCommand::WalUploaded { wal_id: 1 },
        MetaCommand::AddJob { job_blob: vec![1] },
        MetaCommand::DeleteJob { job_id: 1 },
        MetaCommand::DeleteAllJobs,
        MetaCommand::StartProcessingJob {
            server_name: "node1".into(),
            long_term: true,
            assigned_now_millis: 1_600_000_000_000,
        },
        MetaCommand::UpdateStatus {
            job_id: 1,
            status_blob: vec![1],
            assigned_now_millis: 1_600_000_012_000,
        },
        MetaCommand::UpdateHeartBeat { job_id: 1, assigned_now_millis: 1_600_000_005_000 },
        MetaCommand::CreateOrUpdateSource { name: "src".into(), credentials_blob: vec![1] },
        MetaCommand::DeleteSource { id: 1 },
        MetaCommand::CreateReplayHandle {
            table_id: 1,
            location_index: 2,
            seq_pointer_blob: vec![3],
            assigned_now_millis: 4,
        },
        MetaCommand::CreateReplayHandleFromSeqPointers {
            table_id: 1,
            seq_pointers_blob: vec![3],
            assigned_now_millis: 4,
        },
        MetaCommand::UpdateReplayHandleFailedIfExists { id: 1, failed: true },
        MetaCommand::ReplaceReplayHandles { old_ids: vec![1], new_seq_pointer_blob: vec![2] },
        MetaCommand::SetCurrentSnapshot { snapshot_id_low: 1, snapshot_id_high: 2 },
        MetaCommand::AcquirePartitionedLock { payload_version: u16::MAX, payload: vec![1] },
        MetaCommand::ReleasePartitionedLock { payload_version: 0, payload: vec![] },
    ];
    for cmd in commands {
        round_trip(cmd);
    }
}

#[test]
fn an_envelope_of_the_current_version_is_what_a_command_is_encoded_as() {
    let bytes = MetaCommand::DropTable { table_id: 7 }.encode().unwrap();
    let envelope = MetaCommandEnvelope {
        version: META_COMMAND_VERSION,
        command: MetaCommand::DropTable { table_id: 7 },
    };
    assert_eq!(envelope.encode().unwrap(), bytes);
}

#[test]
fn encoding_depends_on_the_command_alone() {
    assert_eq!(full_table().encode().unwrap(), full_table().encode().unwrap());
    assert_ne!(
        MetaCommand::DropTable { table_id: 1 }.encode().unwrap(),
        MetaCommand::DropTable { table_id: 2 }.encode().unwrap()
    );
}

#[test]
fn a_document_without_an_envelope_is_refused() {
    let mut builder = flexbuffers::Builder::default();
    builder.build_singleton("not a command");
    let err = MetaCommand::decode(builder.view()).unwrap_err();
    assert!(matches!(
        err,
        MetaCommandCodecError::Deserialize(DeserializeFault::NotAnEnvelope)
    ));
    assert_eq!(
        err.message(),
        "MetaCommand deserialize: the document is no command envelope"
    );
}

#[test]
fn an_unknown_variant_is_refused() {
    let mut builder = flexbuffers::Builder::default();
    let mut envelope = builder.start_map();
    envelope.push("version", 1u16);
    let mut command = envelope.start_map("command");
    let mut fields = command.start_map("NoSuchCommand");
    fields.push("x", 1u64);
    fields.end_map();
    command.end_map();
    envelope.end_map();
    let err = MetaCommand::decode(builder.view()).unwrap_err();
    assert!(matches!(
        err,
        MetaCommandCodecError::Deserialize(DeserializeFault::NotAnEnvelope)
    ));
}

#[test]
fn a_field_of_another_order_and_an_extra_field_are_read() {
    let mut builder = flexbuffers::Builder::default();
    let mut envelope = builder.start_map();
    let mut command = envelope.start_map("command");
    let mut fields = command.start_map("DropTable");
    fields.push("table_id", 9u64);
    fields.push("zzz", 1u64);
    fields.end_map();
    command.end_map();
    envelope.push("version", 1u16);
    envelope.end_map();
    assert_eq!(
        MetaCommand::decode(builder.view()).unwrap(),
        MetaCommand::DropTable { table_id: 9 }
    );
}

#[test]
fn bytes_without_a_root_are_refused_by_the_reader() {
    let err = MetaCommand::decode(&[1, 2]).unwrap_err();
    assert!(matches!(err, MetaCommandCodecError::Reader(RootFault::OutOfBounds)));
    assert_eq!(
        err.message(),
        "MetaCommand reader: Error reading flexbuffer: FlexbufferOutOfBounds"
    );
    let err = MetaCommand::decode(&[1, 4, 3]).unwrap_err();
    assert_eq!(err.message(), "MetaCommand reader: Error reading flexbuffer: InvalidRootWidth");
    let err = MetaCommand::decode(&[1, 0xFC, 1]).unwrap_err();
    assert_eq!(err.message(), "MetaCommand reader: Error reading flexbuffer: InvalidPackedType");
    for bytes in [vec![1u8, 2], vec![1, 4, 3], vec![1, 0xFC, 1], vec![9, 0x24, 1]] {
        let fault = match MetaCommand::decode(&bytes) {
            Err(MetaCommandCodecError::Reader(fault)) => fault,
            other => panic!("unexpected {:?}", other),
        };
        let outside = flexbuffers::Reader::get_root(bytes.as_slice()).unwrap_err();
        assert_eq!(fault.message(), outside.to_string());
    }
}

fn schema_named(name: impl flexbuffers::Pushable) -> Vec<u8> {
    let mut builder = flexbuffers::Builder::default();
    let mut envelope = builder.start_map();
    envelope.push("version", 1u16);
    let mut command = envelope.start_map("command");
    let mut fields = command.start_map("CreateSchema");
    fields.push("if_not_exists", true);
    fields.push("schema_name", name);
    fields.end_map();
    command.end_map();
    envelope.end_map();
    builder.view().to_vec()
}

#[test]
fn text_may_be_stored_as_bytes() {
    let bytes = schema_named(flexbuffers::Blob(&b"public"[..]));
    assert_eq!(
        MetaCommand::decode(&bytes).unwrap(),
        MetaCommand::CreateSchema { schema_name: "public".into(), if_not_exists: true }
    );
    let bytes = schema_named(flexbuffers::Blob(&[0xFFu8, 0xFE][..]));
    assert!(matches!(
        MetaCommand::decode(&bytes),
        Err(MetaCommandCodecError::Deserialize(DeserializeFault::NotAnEnvelope))
    ));
}

#[test]
fn text_that_leads_out_of_the_document_is_empty() {
    let bytes = schema_named("public");
    let length = bytes.windows(7).position(|w| w == b"\x06public").unwrap();
    let mut changed = bytes.clone();
    changed[length] = 0xFF;
    assert_eq!(
        MetaCommand::decode(&changed).unwrap(),
        MetaCommand::CreateSchema { schema_name: String::new(), if_not_exists: true }
    );
}

#[test]
fn a_command_that_is_too_large_is_refused() {
    let cmd = MetaCommand::ReleasePartitionedLock {
        payload_version: 1,
        payload: vec![0; 0x4000_0000],
    };
    let err = cmd.encode().unwrap_err();
    assert!(matches!(err, MetaCommandCodecError::TooLarge));
    assert_eq!(err.message(), "MetaCommand serialize: the command is too large");
}

#[test]
fn every_truncation_of_a_command_is_refused_or_read_without_a_panic() {
    let bytes = full_table().encode().unwrap();
    for n in 0..bytes.len() {
        if let Ok(cmd) = MetaCommand::decode(&bytes[n..]) {
            assert_eq!(cmd, full_table());
        }
        let _ = MetaCommand::decode(&bytes[..n]);
    }
}

#[test]
fn every_flipped_byte_is_survived() {
    let bytes = MetaCommand::Batch {
        commands: vec![
            MetaCommand::CreateSchema { schema_name: "a".into(), if_not_exists: true },
            MetaCommand::SwapChunks {
                deactivate_ids: vec![1, 2],
                uploaded_ids_and_sizes: vec![(1, Some(2)), (3, None)],
                new_replay_handle_id: Some(1),
            },
        ],
    }
    .encode()
    .unwrap();
    for n in 0..bytes.len() {
        for bit in 0..8 {
            let mut changed = bytes.clone();
            changed[n] ^= 1 << bit;
            let _ = MetaCommand::decode(&changed);
        }
    }
}

/// The document of a `DropTable` with a blob beside the command, or among its fields, whose
/// length is then made to lead out of the document.
fn drop_table_with_a_fault(among_the_fields: bool) -> Vec<u8> {
    let mut builder = flexbuffers::Builder::default();
    let mut envelope = builder.start_map();
    envelope.push("version", 1u16);
    let mut command = envelope.start_map("command");
    let mut fields = command.start_map("DropTable");
    fields.push("table_id", 9u64);
    if among_the_fields {
        fields.push("zzz", flexbuffers::Blob(&b"marker"[..]));
    }
    fields.end_map();
    if !among_the_fields {
        command.push("zzz", flexbuffers::Blob(&b"marker"[..]));
    }
    command.end_map();
    envelope.end_map();
    let mut bytes = builder.view().to_vec();
    let length = bytes.windows(7).position(|w| w == b"\x06marker").unwrap();
    bytes[length] = 0xFF;
    bytes
}

#[test]
fn what_is_never_read_may_be_malformed() {
    assert_eq!(
        MetaCommand::decode(&drop_table_with_a_fault(false)).unwrap(),
        MetaCommand::DropTable { table_id: 9 }
    );
}

#[test]
fn what_is_passed_over_must_be_readable() {
    assert!(matches!(
        MetaCommand::decode(&drop_table_with_a_fault(true)),
        Err(MetaCommandCodecError::Deserialize(DeserializeFault::NotAnEnvelope))
    ));
}

#[test]
fn a_document_that_holds_itself_is_refused() {
    // A vector of one item, which leads back to the vector itself.
    let bytes = [1u8, 0, 0x28, 2, 0x28, 1];
    assert!(matches!(
        MetaCommand::decode(&bytes),
        Err(MetaCommandCodecError::Deserialize(DeserializeFault::NotAnEnvelope))
    ));
}

#[test]
fn an_envelope_may_be_a_vector_and_hold_more_than_it_must() {
    let mut builder = flexbuffers::Builder::default();
    let mut envelope = builder.start_vector();
    envelope.push(1u16);
    let mut command = envelope.start_map();
    let mut fields = command.start_map("DropTable");
    fields.push("table_id", 9u64);
    fields.end_map();
    command.end_map();
    envelope.push("more");
    envelope.end_vector();
    assert_eq!(
        MetaCommand::decode(builder.view()).unwrap(),
        MetaCommand::DropTable { table_id: 9 }
    );
}
