use raftmeta::command::MetaCommand;
use raftmeta::error::CubeError;
use raftmeta::raft_meta_store::RaftMetaStore;
use raftmeta::result::{IdRowKind, MetaCommandResult, ResultShape};
use raftmeta::rocks_apply::{dispatch, StoreCall};

#[test]
fn parse_leader_hint_extracts_decimal_id() {
    let err = CubeError::internal(
        "this node is a follower; leader raft-leader-id=2 (raft propose: ProposalDropped)".into(),
    );
    assert_eq!(RaftMetaStore::parse_leader_hint(&err), Some(2));
}

#[test]
fn parse_leader_hint_handles_id_at_eol() {
    let err = CubeError::internal("see raft-leader-id=42".into());
    assert_eq!(RaftMetaStore::parse_leader_hint(&err), Some(42));
}

#[test]
fn parse_leader_hint_returns_none_when_marker_missing() {
    let err = CubeError::internal("no leader currently elected".into());
    assert_eq!(RaftMetaStore::parse_leader_hint(&err), None);
}

#[test]
fn parse_leader_hint_returns_none_for_garbage_value() {
    let err = CubeError::internal("raft-leader-id=abc".into());
    assert_eq!(RaftMetaStore::parse_leader_hint(&err), None);
}

#[test]
fn leader_hints_at_the_edges() {
    let hint = |s: &str| RaftMetaStore::parse_leader_hint(&CubeError::internal(s.into()));
    assert_eq!(hint("raft-leader-id=18446744073709551615"), Some(u64::MAX));
    assert_eq!(hint("raft-leader-id=18446744073709551616"), None);
    assert_eq!(hint("raft-leader-id=99999999999999999999999"), None);
    assert_eq!(hint("raft-leader-id=007x"), Some(7));
    assert_eq!(hint("raft-leader-id="), None);
    assert_eq!(hint("raft-leader-id=x raft-leader-id=5"), None);
    assert_eq!(hint("ünï raft-leader-raft-leader-id=5"), Some(5));
    assert_eq!(hint(""), None);
    assert_eq!(hint("raft-leader-id"), None);
    assert_eq!(hint("raft-leader-id=-3"), None);
    assert_eq!(hint("raft-leader-id=٣"), None);
}

#[test]
fn a_replica_knows_itself_and_its_leader() {
    let m = RaftMetaStore { node_id: 2, leader_id: 0 };
    assert_eq!((m.ha_leader_id(), m.ha_is_leader_self(), m.ha_node_id()), (None, false, 2));
    let m = RaftMetaStore { node_id: 2, leader_id: 2 };
    assert_eq!((m.ha_leader_id(), m.ha_is_leader_self()), (Some(2), true));
    let m = RaftMetaStore { node_id: 2, leader_id: 3 };
    assert_eq!((m.ha_leader_id(), m.ha_is_leader_self()), (Some(3), false));
    let m = RaftMetaStore { node_id: 0, leader_id: 0 };
    assert!(!m.ha_is_leader_self());
}

#[test]
fn writes_become_commands() {
    let w = RaftMetaStore::create_schema("public".into(), true);
    assert_eq!(w.method, "create_schema");
    assert_eq!(w.expected, ResultShape::IdRow(IdRowKind::Schema));
    assert_eq!(
        w.command,
        MetaCommand::CreateSchema { schema_name: "public".into(), if_not_exists: true }
    );
    let w = RaftMetaStore::swap_compacted_chunks(1, vec![2], 3, 4);
    assert_eq!(w.expected, ResultShape::Bool);
    let w = RaftMetaStore::delete_all_jobs();
    assert_eq!(w.command, MetaCommand::DeleteAllJobs);
    assert_eq!(w.expected, ResultShape::IdRowList(IdRowKind::Job));
    let w = RaftMetaStore::create_wal(1, 5);
    assert_eq!(w.command, MetaCommand::CreateWal { table_id: 1, row_count: 5 });
    let w = RaftMetaStore::table_ready(8, false);
    assert_eq!(w.command, MetaCommand::TableReady { table_id: 8, is_ready: false });
}

#[test]
fn a_field_that_cannot_be_encoded_fails_the_write() {
    let err = RaftMetaStore::create_table_at(
        "s".into(),
        "t".into(),
        Ok(vec![]),
        None,
        Some(Err("too deep".into())),
        Err("later".into()),
        true,
        None,
        None,
        None,
        None,
        None,
        None,
        None,
        None,
        None,
        false,
        None,
        1,
    )
    .unwrap_err();
    assert_eq!(err.message, "RaftMetaStore::create_table — encode import_format: too deep");
    let err = RaftMetaStore::add_job(Err("bad".into())).unwrap_err();
    assert_eq!(err.message, "RaftMetaStore::add_job — encode job: bad");
}

#[test]
fn the_leader_stamps_its_clock() {
    let before = chrono::Utc::now().timestamp_millis();
    let w = RaftMetaStore::update_heart_beat(7);
    let after = chrono::Utc::now().timestamp_millis();
    match w.command {
        MetaCommand::UpdateHeartBeat { job_id, assigned_now_millis } => {
            assert_eq!(job_id, 7);
            assert!(before <= assigned_now_millis && assigned_now_millis <= after);
        }
        other => panic!("unexpected {:?}", other),
    }
    assert_eq!(
        RaftMetaStore::update_heart_beat_at(7, 12).command,
        MetaCommand::UpdateHeartBeat { job_id: 7, assigned_now_millis: 12 }
    );
    let w = RaftMetaStore::deactivate_chunks(vec![1, 2]);
    assert!(dispatch(w.command, &vec![]).is_ok());
}

#[test]
fn a_snapshot_number_reaches_the_store() {
    let id: u128 = (0x1234_5678_9ABC_DEF0u128 << 64) | 0xDEAD_BEEF_CAFE_BABEu128;
    for id in [id, 0, 1, u64::MAX as u128, u64::MAX as u128 + 1, u128::MAX] {
        let w = RaftMetaStore::set_current_snapshot(id);
        assert_eq!(w.expected, ResultShape::Unit);
        assert_eq!(
            dispatch(w.command, &vec![]),
            Ok(StoreCall::SetCurrentSnapshot { snapshot_id: id })
        );
    }
}

#[test]
fn results_are_taken_apart_for_the_caller() {
    let ok = MetaCommandResult::IdRow { kind: IdRowKind::Schema, payload: vec![9] };
    assert_eq!(
        RaftMetaStore::finish_id_row("create_schema", IdRowKind::Schema, Ok(ok)),
        Ok(vec![9])
    );
    assert_eq!(RaftMetaStore::finish_unit("delete_wal", Ok(MetaCommandResult::Unit)), Ok(()));
    assert_eq!(
        RaftMetaStore::finish_bool("swap_compacted_chunks", Ok(MetaCommandResult::Bool(true))),
        Ok(true)
    );
    let none = MetaCommandResult::OptionalIdRow { kind: IdRowKind::Job, payload: None };
    assert_eq!(
        RaftMetaStore::finish_optional_id_row("add_job", IdRowKind::Job, Ok(none)),
        Ok(None)
    );
    let rows = MetaCommandResult::IdRowList { kind: IdRowKind::Job, payload: vec![] };
    assert_eq!(
        RaftMetaStore::finish_id_row_list("delete_all_jobs", IdRowKind::Job, Ok(rows)),
        Ok(vec![])
    );
    assert_eq!(
        RaftMetaStore::finish_id_row(
            "create_schema",
            IdRowKind::Schema,
            Ok(MetaCommandResult::Bool(true))
        )
        .unwrap_err()
        .message,
        "RaftMetaStore::create_schema — apply produced a wrong result shape: \
         expected IdRow<Schema>, found Bool"
    );
    assert_eq!(
        RaftMetaStore::finish_unit("delete_wal", Err(CubeError::internal("gone".into())))
            .unwrap_err()
            .message,
        "gone"
    );
}
