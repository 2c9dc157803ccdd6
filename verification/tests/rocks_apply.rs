use raftmeta::command::MetaCommand;
use raftmeta::error::CubeError;
use raftmeta::result::{IdRowKind, MetaCommandResult, MetaCommandResultMismatch, ResultShape};
use raftmeta::rocks_apply::{
    blob_fields, decode_optional_millis, decode_required_millis, dispatch, join_halves,
    not_yet_implemented, ApplyStep, BatchStep, RocksMetaStoreApply, StoreCall, StoreReply,
    EMPTY_BATCH, LOCK_REASON,
};
use std::cell::RefCell;

/// A store that knows schemas and remembers every call.
#[derive(Default)]
struct Schemas {
    rows: RefCell<Vec<(u64, String)>>,
    calls: RefCell<Vec<StoreCall>>,
}

fn encoded(id: u64, name: &str) -> Vec<u8> {
    format!("{}:{}", id, name).into_bytes()
}

impl Schemas {
    fn run(&self, call: StoreCall) -> Result<StoreReply, CubeError> {
        let mut rows = self.rows.borrow_mut();
        let reply = match &call {
            StoreCall::CreateSchema { schema_name, .. } => {
                let id = rows.len() as u64 + 1;
                rows.push((id, schema_name.clone()));
                StoreReply::Row(Ok(encoded(id, schema_name)))
            }
            StoreCall::RenameSchema { old_schema_name, new_schema_name } => {
                let row = rows
                    .iter_mut()
                    .find(|r| r.1 == *old_schema_name)
                    .ok_or(CubeError::internal("no such schema".into()))?;
                row.1 = new_schema_name.clone();
                StoreReply::Row(Ok(encoded(row.0, &row.1)))
            }
            StoreCall::DeleteSchema { schema_name } => {
                rows.retain(|r| r.1 != *schema_name);
                StoreReply::Done
            }
            StoreCall::SetCurrentSnapshot { snapshot_id } => {
                return Err(CubeError::internal(format!("no snapshot {}", snapshot_id)));
            }
            StoreCall::SwapCompactedChunks { .. } => StoreReply::Flag(true),
            other => panic!("unexpected {:?}", other),
        };
        self.calls.borrow_mut().push(call);
        Ok(reply)
    }

    fn names(&self) -> Vec<String> {
        self.rows.borrow().iter().map(|r| r.1.clone()).collect()
    }
}

fn faults(cmd: &MetaCommand) -> Vec<Option<String>> {
    blob_fields(cmd).iter().map(|_| None).collect()
}

fn run_one(store: &Schemas, cmd: MetaCommand) -> Result<MetaCommandResult, CubeError> {
    let faults = faults(&cmd);
    let call = dispatch(cmd, &faults)?;
    let end = call.end();
    end.finish(store.run(call))
}

fn apply(
    apply: &RocksMetaStoreApply<Schemas>,
    cmd: MetaCommand,
) -> Result<MetaCommandResult, CubeError> {
    match apply.apply(cmd) {
        ApplyStep::One(cmd) => run_one(&apply.store, cmd),
        ApplyStep::Batch(mut run) => {
            let before = apply.store.rows.borrow().clone();
            let mut step = run.next();
            loop {
                match step {
                    BatchStep::Apply(cmd) => match run_one(&apply.store, cmd) {
                        Ok(_) => step = run.next(),
                        Err(e) => {
                            step = run.failed(e);
                            break finish_batch(&apply.store, before, step);
                        }
                    },
                    ended => break finish_batch(&apply.store, before, ended),
                }
            }
        }
    }
}

fn finish_batch(
    store: &Schemas,
    before: Vec<(u64, String)>,
    end: BatchStep,
) -> Result<MetaCommandResult, CubeError> {
    match end {
        BatchStep::Done(result) => Ok(result),
        BatchStep::Reject(e) => {
            *store.rows.borrow_mut() = before;
            Err(e)
        }
        BatchStep::Apply(cmd) => panic!("not at its end: {:?}", cmd),
    }
}

fn create(name: &str) -> MetaCommand {
    MetaCommand::CreateSchema { schema_name: name.into(), if_not_exists: false }
}

#[test]
fn create_schema_then_rename_dispatches_correctly() {
    let a = RocksMetaStoreApply::new(Schemas::default());
    let r = apply(&a, create("public")).expect("apply CreateSchema");
    assert_eq!(r.into_id_row(IdRowKind::Schema).expect("row"), encoded(1, "public"));
    assert_eq!(a.store.names(), vec!["public"]);

    let r = apply(
        &a,
        MetaCommand::RenameSchema {
            old_schema_name: "public".into(),
            new_schema_name: "renamed".into(),
        },
    )
    .expect("apply RenameSchema");
    assert_eq!(r.into_id_row(IdRowKind::Schema).expect("row"), encoded(1, "renamed"));
}

#[test]
fn delete_schema_returns_unit_and_clears_store() {
    let a = RocksMetaStoreApply::new(Schemas::default());
    apply(&a, create("to_drop")).unwrap();
    let r = apply(&a, MetaCommand::DeleteSchema { schema_name: "to_drop".into() })
        .expect("apply DeleteSchema");
    r.into_unit().expect("must be Unit");
    assert!(a.store.names().is_empty(), "schema must be gone after DeleteSchema");
}

#[test]
fn deferred_variants_error_loudly() {
    let a = RocksMetaStoreApply::new(Schemas::default());
    let err = apply(
        &a,
        MetaCommand::AcquirePartitionedLock { payload_version: 1, payload: vec![1, 2, 3] },
    )
    .expect_err("AcquirePartitionedLock must still error");
    assert!(
        err.message.contains("AcquirePartitionedLock"),
        "error must name the variant: {}",
        err.message
    );
    assert_eq!(err, not_yet_implemented("AcquirePartitionedLock", LOCK_REASON));

    let err = apply(
        &a,
        MetaCommand::Batch { commands: vec![MetaCommand::Batch { commands: vec![] }] },
    )
    .expect_err("nested Batch must error");
    assert!(
        err.message.contains("nested inside Batch"),
        "error must explain nested-batch rejection: {}",
        err.message
    );

    let err = apply(&a, MetaCommand::Generic { method: "totally_made_up".into(), body: vec![] })
        .expect_err("Generic must error");
    assert!(err.message.contains("totally_made_up"));
}

#[test]
fn batch_applies_each_command_in_order() {
    let a = RocksMetaStoreApply::new(Schemas::default());
    let r = apply(&a, MetaCommand::Batch { commands: vec![create("first"), create("second")] })
        .expect("apply Batch");
    r.into_unit().expect("Batch result is Unit");
    assert_eq!(a.store.names(), vec!["first", "second"]);
}

#[test]
fn snapshot_id_round_trips_through_split_u128() {
    let a = RocksMetaStoreApply::new(Schemas::default());
    let original: u128 = ((0x1234_5678_9ABC_DEF0u128) << 64) | 0xDEAD_BEEF_CAFE_BABEu128;
    let err = apply(
        &a,
        MetaCommand::SetCurrentSnapshot {
            snapshot_id_low: original as u64,
            snapshot_id_high: (original >> 64) as u64,
        },
    )
    .expect_err("snapshot id never existed");
    assert!(err.message.contains(&original.to_string()));
    assert_eq!(join_halves(u64::MAX, u64::MAX), u128::MAX);
    assert_eq!(join_halves(3, 0), 3);
}

#[test]
fn a_batch_that_fails_leaves_nothing_behind() {
    let a = RocksMetaStoreApply::new(Schemas::default());
    apply(&a, create("before")).unwrap();
    let err = apply(
        &a,
        MetaCommand::Batch {
            commands: vec![
                create("taken back"),
                MetaCommand::Batch { commands: vec![create("never")] },
                create("never"),
            ],
        },
    )
    .unwrap_err();
    assert!(err.message.starts_with("MetaCommand::Batch nested inside Batch is rejected"));
    assert_eq!(a.store.names(), vec!["before"]);

    let err = apply(
        &a,
        MetaCommand::Batch {
            commands: vec![
                create("taken back"),
                MetaCommand::RenameSchema {
                    old_schema_name: "none".into(),
                    new_schema_name: "x".into(),
                },
                create("never"),
            ],
        },
    )
    .unwrap_err();
    assert_eq!(err.message, "no such schema");
    assert_eq!(a.store.names(), vec!["before"]);
    assert_eq!(
        a.store.calls.borrow().iter().filter(|c| matches!(c, StoreCall::CreateSchema { .. })).count(),
        3,
        "nothing after the failure is tried"
    );
    let both = MetaCommand::Batch { commands: vec![create("x"), create("y")] };
    assert_eq!(apply(&a, both), Ok(MetaCommandResult::Unit));
    assert_eq!(a.store.names(), vec!["before", "x", "y"]);
}

#[test]
fn a_batch_without_commands_is_refused() {
    let a = RocksMetaStoreApply::new(Schemas::default());
    let err = apply(&a, MetaCommand::Batch { commands: vec![] }).unwrap_err();
    assert_eq!(err.message, EMPTY_BATCH);
    assert_eq!(err.message, "MetaCommand::Batch without commands is rejected");
    assert!(a.store.calls.borrow().is_empty());
}

#[test]
fn the_same_commands_make_the_same_calls_on_every_replica() {
    let commands = || {
        vec![
            create("det"),
            MetaCommand::RenameSchema { old_schema_name: "det".into(), new_schema_name: "t".into() },
            MetaCommand::SwapCompactedChunks {
                partition_id: 1,
                old_chunk_ids: vec![1, 2],
                new_chunk: 3,
                new_chunk_file_size: 100,
            },
        ]
    };
    let (a, b) = (
        RocksMetaStoreApply::new(Schemas::default()),
        RocksMetaStoreApply::new(Schemas::default()),
    );
    for cmd in commands() {
        apply(&a, cmd).unwrap();
    }
    for cmd in commands() {
        apply(&b, cmd).unwrap();
    }
    assert_eq!(*a.store.calls.borrow(), *b.store.calls.borrow());
}

fn heart_beat(ms: i64) -> Result<StoreCall, CubeError> {
    dispatch(MetaCommand::UpdateHeartBeat { job_id: 7, assigned_now_millis: ms }, &vec![])
}

#[test]
fn the_time_is_the_one_that_the_leader_stamped() {
    assert_eq!(
        heart_beat(1_600_000_005_000),
        Ok(StoreCall::UpdateHeartBeatWithNow { job_id: 7, now_millis: 1_600_000_005_000 })
    );
}

#[test]
fn times_at_the_ends_of_the_calendar_are_told_apart() {
    let first: i64 = chrono::DateTime::<chrono::Utc>::MIN_UTC.timestamp_millis();
    let last: i64 = chrono::DateTime::<chrono::Utc>::MAX_UTC.timestamp_millis();
    assert_eq!((first, last), (-8_334_601_228_800_000, 8_210_266_876_799_999));
    assert!(heart_beat(first).is_ok());
    assert!(heart_beat(last).is_ok());
    assert!(heart_beat(0).is_ok());
    for ms in [first - 1, last + 1, i64::MIN, i64::MAX] {
        assert_eq!(
            heart_beat(ms).unwrap_err().message,
            format!(
                "MetaCommand apply: assigned_now_millis = {} ms-since-epoch is out of \
                 representable DateTime<Utc> range",
                ms
            )
        );
    }
    assert_eq!(decode_required_millis(-5, "f"), Ok(-5));
    assert_eq!(decode_optional_millis(None, "f"), Ok(None));
    assert_eq!(decode_optional_millis(Some(3), "f"), Ok(Some(3)));
    assert!(decode_optional_millis(Some(i64::MIN), "f").is_err());
}

fn table(build: Option<i64>, seal: Option<i64>, now: i64) -> MetaCommand {
    MetaCommand::CreateTableStructured {
        schema_name: "det".into(),
        table_name: "t".into(),
        columns_blob: flexbuffers::singleton(1u8),
        locations: None,
        import_format_blob: Some(flexbuffers::singleton(2u8)),
        indexes_blob: flexbuffers::singleton(3u8),
        is_ready: true,
        build_range_end_millis: build,
        seal_at_millis: seal,
        select_statement: None,
        source_columns_blob: None,
        stream_offset_blob: Some(flexbuffers::singleton(4u8)),
        unique_key_column_names: None,
        aggregates: None,
        partition_split_threshold: None,
        trace_obj: None,
        drop_if_exists: false,
        extension: None,
        assigned_now_millis: now,
    }
}

#[test]
fn the_first_bad_time_of_a_table_is_reported() {
    let bad = i64::MAX;
    let field = |r: Result<StoreCall, CubeError>| {
        r.unwrap_err().message.split(' ').nth(2).unwrap().to_string()
    };
    let ok = vec![None, None, None, None];
    assert_eq!(field(dispatch(table(Some(bad), Some(bad), bad), &ok)), "build_range_end_millis");
    assert_eq!(field(dispatch(table(Some(0), Some(bad), bad), &ok)), "seal_at_millis");
    assert_eq!(field(dispatch(table(Some(0), None, bad), &ok)), "assigned_now_millis");
    match dispatch(table(Some(1), Some(2), 3), &ok).unwrap() {
        StoreCall::CreateTableWithNow {
            build_range_end_millis, seal_at_millis, now_millis, ..
        } => {
            assert_eq!((build_range_end_millis, seal_at_millis, now_millis), (Some(1), Some(2), 3))
        }
        other => panic!("unexpected {:?}", other),
    }
}

#[test]
fn blobs_are_decoded_in_order_and_before_the_times() {
    let cmd = table(None, None, i64::MAX);
    let names: Vec<&str> = blob_fields(&cmd).iter().map(|f| f.name).collect();
    assert_eq!(
        names,
        vec!["columns_blob", "import_format_blob", "indexes_blob", "stream_offset_blob"]
    );
    let faults = vec![None, None, Some("bad index".to_string()), Some("later".to_string())];
    assert_eq!(
        dispatch(cmd, &faults).unwrap_err().message,
        "MetaCommand apply: indexes_blob decode failed: bad index"
    );
}

#[test]
fn a_blob_without_a_root_is_refused() {
    let err = dispatch(MetaCommand::AddJob { job_blob: vec![] }, &vec![None]).unwrap_err();
    assert_eq!(
        err.message,
        "MetaCommand apply: job_blob decode failed: \
         Error reading flexbuffer: FlexbufferOutOfBounds"
    );
    let err = dispatch(MetaCommand::AddJob { job_blob: vec![1, 4, 3] }, &vec![None]).unwrap_err();
    assert_eq!(
        err.message,
        "MetaCommand apply: job_blob decode failed: Error reading flexbuffer: InvalidRootWidth"
    );
}

#[test]
fn a_chunk_is_inserted_as_the_leader_built_it() {
    let blob = flexbuffers::singleton("chunk");
    assert_eq!(
        dispatch(MetaCommand::CreateChunk { chunk_blob: blob.clone() }, &vec![None]),
        Ok(StoreCall::InsertChunkPreBuilt { chunk_blob: blob })
    );
}

#[test]
fn counts_become_sizes() {
    assert_eq!(
        dispatch(MetaCommand::CreateWal { table_id: 1, row_count: 9 }, &vec![]),
        Ok(StoreCall::CreateWal { table_id: 1, row_count: 9 })
    );
    let blob = flexbuffers::singleton(1u8);
    assert_eq!(
        dispatch(
            MetaCommand::CreateReplayHandle {
                table_id: 1,
                location_index: 2,
                seq_pointer_blob: blob.clone(),
                assigned_now_millis: 3,
            },
            &vec![None]
        ),
        Ok(StoreCall::CreateReplayHandleWithNow {
            table_id: 1,
            location_index: 2,
            seq_pointer_blob: blob,
            now_millis: 3,
        })
    );
}

#[test]
fn opaque_forms_are_not_dispatched() {
    let err = dispatch(
        MetaCommand::CreateTable {
            schema_name: "s".into(),
            table_name: "t".into(),
            payload_version: 1,
            payload: vec![],
        },
        &vec![],
    )
    .unwrap_err();
    assert!(err.message.starts_with("MetaCommand::CreateTable dispatch not yet implemented ("));
    let err = dispatch(
        MetaCommand::SwapActivePartitions { payload_version: 1, payload: vec![] },
        &vec![],
    )
    .unwrap_err();
    assert!(err.message.contains("SwapActivePartitions"));
}

#[test]
fn results_are_wrapped_by_the_form_of_the_call() {
    let job = StoreCall::AddJob { job_blob: vec![] }.end();
    assert_eq!(
        job.finish(Ok(StoreReply::OptionalRow(Ok(None)))),
        Ok(MetaCommandResult::OptionalIdRow { kind: IdRowKind::Job, payload: None })
    );
    assert_eq!(
        job.finish(Ok(StoreReply::OptionalRow(Err("full".into())))).unwrap_err().message,
        "encode AddJob result: full"
    );
    assert!(job.accepts(&StoreReply::OptionalRow(Ok(None))));
    assert!(!job.accepts(&StoreReply::Row(Ok(vec![]))) && !job.accepts(&StoreReply::Done));
    let chunks = StoreCall::InsertChunks { chunks_blob: vec![] }.end();
    assert_eq!(
        chunks.finish(Ok(StoreReply::Rows(Ok(vec![1])))),
        Ok(MetaCommandResult::IdRowList { kind: IdRowKind::Chunk, payload: vec![1] })
    );
    assert_eq!(
        chunks.finish(Ok(StoreReply::Rows(Err("full".into())))).unwrap_err().message,
        "encode IdRowList<Chunk> for apply result: full"
    );
    let index = StoreCall::CreatePartitionedIndex {
        schema: "s".into(),
        name: "n".into(),
        columns_blob: vec![],
        if_not_exists: true,
    }
    .end();
    assert_eq!(index.shape, ResultShape::IdRow(IdRowKind::MultiIndex));
    assert_eq!(
        index.finish(Ok(StoreReply::Row(Err("full".into())))).unwrap_err().message,
        "encode IdRow<MultiIndex> for apply result: full"
    );
    assert_eq!(
        index.finish(Err(CubeError::internal("store".into()))).unwrap_err().message,
        "store"
    );
}

#[test]
fn a_result_of_another_form_is_named_in_the_mismatch() {
    let found = MetaCommandResult::Bool(true).into_id_row(IdRowKind::Schema).unwrap_err();
    assert_eq!(
        found,
        MetaCommandResultMismatch {
            expected: ResultShape::IdRow(IdRowKind::Schema),
            found: ResultShape::Bool,
        }
    );
    assert_eq!(found.message(), "expected IdRow<Schema>, found Bool");
    let row = |kind| MetaCommandResult::IdRow { kind, payload: vec![1] };
    assert_eq!(row(IdRowKind::Wal).into_id_row(IdRowKind::Wal), Ok(vec![1]));
    assert!(row(IdRowKind::Wal).into_id_row(IdRowKind::Job).is_err());
    assert!(row(IdRowKind::Wal).into_id_row_list(IdRowKind::Wal).is_err());
    assert!(row(IdRowKind::Wal).into_optional_id_row(IdRowKind::Wal).is_err());
    assert!(row(IdRowKind::Wal).into_unit().is_err());
    assert_eq!(MetaCommandResult::Bool(false).into_bool(), Ok(false));
    assert!(MetaCommandResult::Unit.into_bool().is_err());
}

#[test]
fn replicas_make_the_same_call() {
    let proposed = vec![
        MetaCommand::StartProcessingJob {
            server_name: "worker-1".into(),
            long_term: true,
            assigned_now_millis: 1_700_000_000_123,
        },
        MetaCommand::SwapChunks {
            deactivate_ids: vec![1, 2, 300],
            uploaded_ids_and_sizes: vec![(7, Some(9)), (8, None)],
            new_replay_handle_id: None,
        },
        MetaCommand::DeactivateChunk { chunk_id: 4, assigned_now_millis: i64::MAX },
    ];
    for cmd in proposed {
        let bytes = cmd.encode().unwrap();
        let replica = || {
            let cmd = MetaCommand::decode(&bytes).unwrap();
            let faults = faults(&cmd);
            dispatch(cmd, &faults)
        };
        let proposer = {
            let faults = faults(&cmd);
            dispatch(cmd, &faults)
        };
        assert_eq!(replica(), proposer);
        assert_eq!(replica(), replica());
    }
}
