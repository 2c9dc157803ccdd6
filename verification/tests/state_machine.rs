use raftmeta::applier::Applier;
use raftmeta::command::{MetaCommand, MetaCommandEnvelope};
use raftmeta::error::CubeError;
use raftmeta::proto::{Entry, EntryType};
use raftmeta::raft_meta_store::RaftMetaStore;
use raftmeta::result::{IdRowKind, MetaCommandResult};
use raftmeta::state_machine::{
    after_step, answer, apply_committed, entry_action, highest_index, next_work, node_actions,
    node_config, on_proposal, propose_outcome, ready_steps, refusal, AfterStep, Apply, EntryAction,
    NodeAction, NodeEvent, Pending, ReadyParts, ReadyStep, NOT_RUNNING, REPLY_DROPPED,
    TICK_MILLIS,
};
use std::cell::RefCell;
use std::collections::BTreeMap;
use std::rc::Rc;

const ELECTING: RaftMetaStore = RaftMetaStore { node_id: 1, leader_id: 0 };

/// Remembers every command, in order.
#[derive(Default)]
struct RecordingApply {
    seen: Rc<RefCell<Vec<MetaCommand>>>,
}

impl Apply for RecordingApply {
    fn apply(&self, cmd: MetaCommand) -> Result<MetaCommandResult, CubeError> {
        self.seen.borrow_mut().push(cmd);
        Ok(MetaCommandResult::Unit)
    }
}

/// A group of one: what is proposed is committed at once.
struct Alone<A> {
    apply: Applier<A>,
    pending: Pending<usize>,
    last_index: u64,
    proposals: usize,
}

impl<A: Apply> Alone<A> {
    fn new(apply: A) -> Self {
        Alone { apply: Applier::new(apply), pending: Pending::new(), last_index: 0, proposals: 0 }
    }

    fn propose(&mut self, command: MetaCommand) -> Result<MetaCommandResult, CubeError> {
        let bytes = on_proposal(&command)?;
        self.proposals += 1;
        let me = self.proposals;
        assert!(self.pending.proposed(self.last_index, &ELECTING, Ok(()), me).is_none());
        self.last_index += 1;
        let entry = normal(self.last_index, bytes);
        let (highest, answers) = apply_committed(&[entry], &mut self.apply, &mut self.pending);
        assert_eq!(highest, Some(self.last_index));
        let mut reply = None;
        for answer in answers {
            assert_eq!(answer.reply, Some(me));
            reply = Some(answer.result);
        }
        propose_outcome(true, reply)
    }
}

fn normal(index: u64, data: Vec<u8>) -> Entry {
    Entry { index, term: 1, data, ..Entry::default() }
}

#[test]
fn single_node_propose_apply_round_trip() {
    let apply = RecordingApply::default();
    let seen = apply.seen.clone();
    let mut node = Alone::new(apply);
    let cmd = || MetaCommand::CreateSchema { schema_name: "public".into(), if_not_exists: true };
    let outcome = node.propose(cmd()).expect("propose failed");
    assert_eq!(outcome, MetaCommandResult::Unit);
    let recorded = seen.borrow();
    assert_eq!(recorded.len(), 1, "exactly one apply expected");
    assert_eq!(recorded[0], cmd(), "applied command must equal proposed");
}

struct TypedReturnApply;

impl Apply for TypedReturnApply {
    fn apply(&self, cmd: MetaCommand) -> Result<MetaCommandResult, CubeError> {
        match cmd {
            MetaCommand::CreateSchema { schema_name, .. } => Ok(MetaCommandResult::IdRow {
                kind: IdRowKind::Schema,
                payload: schema_name.into_bytes(),
            }),
            MetaCommand::SwapCompactedChunks { .. } => Ok(MetaCommandResult::Bool(true)),
            MetaCommand::DropTable { .. } => Ok(MetaCommandResult::Unit),
            _ => Ok(MetaCommandResult::Unit),
        }
    }
}

#[test]
fn typed_results_propagate_back_to_caller() {
    let mut node = Alone::new(TypedReturnApply);
    let r = node.propose(MetaCommand::DropTable { table_id: 1 }).expect("propose drop_table");
    r.into_unit().expect("must be Unit");

    let r = node
        .propose(MetaCommand::SwapCompactedChunks {
            partition_id: 1,
            old_chunk_ids: vec![1, 2],
            new_chunk: 3,
            new_chunk_file_size: 100,
        })
        .expect("propose swap_compacted_chunks");
    assert!(r.into_bool().expect("must be Bool"));

    let r = node
        .propose(MetaCommand::CreateSchema { schema_name: "public".into(), if_not_exists: true })
        .expect("propose create_schema");
    assert_eq!(r.into_id_row(IdRowKind::Schema).expect("row"), b"public");
}

#[test]
fn variant_mismatch_is_caller_error_not_panic() {
    let mut node = Alone::new(TypedReturnApply);
    let r = node
        .propose(MetaCommand::SwapCompactedChunks {
            partition_id: 1,
            old_chunk_ids: vec![],
            new_chunk: 1,
            new_chunk_file_size: 0,
        })
        .expect("propose");
    let mismatch = r.into_id_row(IdRowKind::Schema);
    assert!(mismatch.is_err(), "must error on variant mismatch");
}

#[test]
fn many_proposals_serialized_in_order() {
    let apply = RecordingApply::default();
    let seen = apply.seen.clone();
    let mut node = Alone::new(apply);
    for i in 0..50 {
        node.propose(MetaCommand::DropTable { table_id: i }).unwrap();
    }
    let recorded = seen.borrow();
    assert_eq!(recorded.len(), 50);
    for (i, cmd) in recorded.iter().enumerate() {
        match cmd {
            MetaCommand::DropTable { table_id } => assert_eq!(*table_id, i as u64),
            other => panic!("unexpected {:?} at {}", other, i),
        }
    }
}

#[test]
fn batch_command_applies_atomically() {
    let apply = RecordingApply::default();
    let seen = apply.seen.clone();
    let mut node = Alone::new(apply);
    let batch = || MetaCommand::Batch {
        commands: vec![
            MetaCommand::CreateSchema { schema_name: "s1".into(), if_not_exists: false },
            MetaCommand::CreateTableStructured {
                schema_name: "s1".into(),
                table_name: "t1".into(),
                columns_blob: vec![1, 2, 3],
                locations: None,
                import_format_blob: None,
                indexes_blob: vec![],
                is_ready: true,
                build_range_end_millis: None,
                seal_at_millis: None,
                select_statement: None,
                source_columns_blob: None,
                stream_offset_blob: None,
                unique_key_column_names: None,
                aggregates: None,
                partition_split_threshold: None,
                trace_obj: None,
                drop_if_exists: false,
                extension: None,
                assigned_now_millis: 0,
            },
        ],
    };
    node.propose(batch()).unwrap();
    let recorded = seen.borrow();
    assert_eq!(recorded.len(), 1);
    assert_eq!(recorded[0], batch());
}

#[derive(Default)]
struct MapApply {
    schemas: Rc<RefCell<BTreeMap<String, bool>>>,
}

impl Apply for MapApply {
    fn apply(&self, cmd: MetaCommand) -> Result<MetaCommandResult, CubeError> {
        if let MetaCommand::CreateSchema { schema_name, if_not_exists } = cmd {
            self.schemas.borrow_mut().insert(schema_name, if_not_exists);
        }
        Ok(MetaCommandResult::Unit)
    }
}

#[test]
fn deterministic_replay_produces_identical_state() {
    fn run() -> Vec<(String, bool)> {
        let apply = MapApply::default();
        let schemas = apply.schemas.clone();
        let mut node = Alone::new(apply);
        for s in &["a", "b", "c", "d"] {
            node.propose(MetaCommand::CreateSchema {
                schema_name: (*s).into(),
                if_not_exists: false,
            })
            .unwrap();
        }
        let out = schemas.borrow().iter().map(|(k, v)| (k.clone(), *v)).collect();
        out
    }
    let a = run();
    let b = run();
    assert_eq!(
        a, b,
        "two independent runs of the same proposals must produce identical state"
    );
    assert_eq!(a.len(), 4);
}

#[test]
fn committed_entries_answer_their_proposers() {
    let apply = RecordingApply::default();
    let seen = apply.seen.clone();
    let mut applier = Applier::new(apply);
    let mut pending = Pending::new();
    pending.proposed(4, &ELECTING, Ok(()), "five");
    pending.proposed(6, &ELECTING, Ok(()), "seven");
    pending.proposed(8, &ELECTING, Ok(()), "nine");
    let drop_table = |i| on_proposal(&MetaCommand::DropTable { table_id: i }).unwrap();
    let entries = vec![
        normal(4, vec![]),
        normal(5, drop_table(5)),
        Entry { entry_type: EntryType::ConfChange, ..normal(6, vec![1]) },
        normal(7, vec![1, 2]),
        normal(8, drop_table(8)),
    ];
    let (highest, answers) = apply_committed(&entries, &mut applier, &mut pending);
    assert_eq!(highest, Some(8));
    assert_eq!(
        *seen.borrow(),
        vec![MetaCommand::DropTable { table_id: 5 }, MetaCommand::DropTable { table_id: 8 }]
    );
    assert_eq!(answers.len(), 3);
    assert_eq!(answers[0].reply, Some("five"));
    assert_eq!(answers[0].result, Ok(MetaCommandResult::Unit));
    assert_eq!(answers[1].reply, Some("seven"));
    assert_eq!(
        answers[1].result.as_ref().unwrap_err().message,
        "decode at index 7: MetaCommand reader: Error reading flexbuffer: FlexbufferOutOfBounds"
    );
    assert_eq!(answers[2].reply, None);
    assert_eq!(answers[2].result, Ok(MetaCommandResult::Unit));
    assert_eq!(pending.resolve(9), Some("nine"));
    assert_eq!(pending.resolve(9), None);
    assert_eq!(pending.resolve(5), None);
    assert_eq!(apply_committed(&[], &mut applier, &mut pending).0, None);
}

/// Says how many commands it has applied.
#[derive(Default)]
struct CountingApply {
    applied: RefCell<u8>,
}

impl Apply for CountingApply {
    fn apply(&self, cmd: MetaCommand) -> Result<MetaCommandResult, CubeError> {
        *self.applied.borrow_mut() += 1;
        if cmd == MetaCommand::DeleteAllJobs {
            return Err(CubeError::internal("no jobs".to_string()));
        }
        Ok(MetaCommandResult::IdRow {
            kind: IdRowKind::Job,
            payload: vec![*self.applied.borrow()],
        })
    }
}

#[test]
fn each_proposer_is_told_what_applying_its_own_command_gave() {
    let mut applier = Applier::new(CountingApply::default());
    let mut pending = Pending::new();
    let mut entries = Vec::new();
    for i in 0..4 {
        let cmd = if i == 2 {
            MetaCommand::DeleteAllJobs
        } else {
            MetaCommand::DropTable { table_id: i }
        };
        assert!(pending.proposed(10 + i, &ELECTING, Ok(()), i).is_none());
        entries.push(normal(11 + i, on_proposal(&cmd).unwrap()));
    }
    let (highest, answers) = apply_committed(&entries, &mut applier, &mut pending);
    assert_eq!(highest, Some(14));
    assert_eq!(answers.len(), 4);
    for (i, a) in answers.into_iter().enumerate() {
        assert_eq!(a.reply, Some(i as u64));
        if i == 2 {
            assert_eq!(a.result.unwrap_err().message, "no jobs");
        } else {
            assert_eq!(
                a.result.unwrap().into_id_row(IdRowKind::Job).unwrap(),
                vec![i as u8 + 1]
            );
        }
    }
}

#[test]
fn a_result_goes_to_who_waits_for_the_index() {
    let mut pending = Pending::new();
    pending.proposed(2, &ELECTING, Ok(()), "three");
    let first = answer(&mut pending, &normal(3, vec![]), Ok(MetaCommandResult::Bool(true)));
    assert_eq!(first.reply, Some("three"));
    assert_eq!(first.result, Ok(MetaCommandResult::Bool(true)));
    let again = answer(&mut pending, &normal(3, vec![]), Ok(MetaCommandResult::Unit));
    assert_eq!(again.reply, None);
    assert_eq!(again.result, Ok(MetaCommandResult::Unit));
}

#[test]
fn an_entry_of_another_version_is_answered_with_the_versions() {
    let data = MetaCommandEnvelope {
        version: 3,
        command: MetaCommand::DropTable { table_id: 1 },
    }
    .encode()
    .unwrap();
    match entry_action(&normal(12, data)) {
        EntryAction::Fail(e) => assert_eq!(
            e.message,
            "decode at index 12: MetaCommand version mismatch: found=3 expected=1"
        ),
        other => panic!("unexpected {:?}", other),
    }
}

#[test]
fn work_is_found_behind_entries_that_ask_for_nothing() {
    let data = on_proposal(&MetaCommand::DeleteAllJobs).unwrap();
    let entries = vec![normal(1, vec![]), normal(2, data), normal(3, vec![])];
    assert!(matches!(
        next_work(&entries, 0),
        Some((1, EntryAction::Apply(MetaCommand::DeleteAllJobs)))
    ));
    assert!(next_work(&entries, 2).is_none());
    assert!(next_work(&entries, 3).is_none());
    assert_eq!(highest_index(&entries), Some(3));
    assert_eq!(highest_index(&[]), None);
}

#[test]
fn a_refused_proposal_is_answered_at_once() {
    let mut pending = Pending::new();
    let (reply, error) = pending
        .proposed(4, &ELECTING, Err("ProposalDropped".to_string()), "me")
        .expect("handed back");
    assert_eq!(reply, "me");
    assert_eq!(error.message, "raft propose failed: ProposalDropped");
    assert_eq!(RaftMetaStore::parse_leader_hint(&error), None);
    assert_eq!(pending.resolve(5), None);
}

#[test]
fn a_refused_proposal_is_told_the_leader() {
    let group = RaftMetaStore { node_id: 1, leader_id: 32 };
    let error = refusal(&group, "ProposalDropped");
    assert_eq!(error.message, "raft propose failed: ProposalDropped; raft-leader-id=32");
    assert_eq!(RaftMetaStore::parse_leader_hint(&error), Some(32));
    let (_, answered) = Pending::new()
        .proposed(4, &group, Err("ProposalDropped".to_string()), "me")
        .expect("handed back");
    assert_eq!(answered, error);
}

#[test]
fn a_proposer_learns_that_the_loop_is_gone() {
    assert_eq!(propose_outcome(false, None).unwrap_err().message, NOT_RUNNING);
    assert_eq!(propose_outcome(true, None).unwrap_err().message, REPLY_DROPPED);
    assert_eq!(NOT_RUNNING, "raft task is not running");
    assert_eq!(REPLY_DROPPED, "raft task dropped the response channel");
    assert_eq!(
        propose_outcome(true, Some(Ok(MetaCommandResult::Bool(true)))),
        Ok(MetaCommandResult::Bool(true))
    );
}

#[test]
fn everything_is_durable_before_a_message_leaves() {
    assert_eq!(
        ready_steps(Some(ReadyParts { snapshot: true, entries: true, hard_state: true })),
        vec![
            ReadyStep::SaveSnapshot,
            ReadyStep::AppendEntries,
            ReadyStep::SaveHardState,
            ReadyStep::SendMessages,
            ReadyStep::SendPersistedMessages,
            ReadyStep::ApplyCommitted,
            ReadyStep::SaveApplied,
            ReadyStep::Advance,
            ReadyStep::ApplyLight,
            ReadyStep::SaveApplied,
            ReadyStep::AdvanceApply,
            ReadyStep::SendLightMessages,
        ]
    );
    let nothing = ReadyParts { snapshot: false, entries: false, hard_state: false };
    assert_eq!(ready_steps(Some(nothing))[0], ReadyStep::SendMessages);
    assert!(ready_steps(None).is_empty());
}

#[test]
fn a_node_stops_where_what_must_be_durable_is_not() {
    for step in [ReadyStep::SaveSnapshot, ReadyStep::AppendEntries, ReadyStep::SaveHardState] {
        assert_eq!(after_step(step, false), AfterStep::Stop);
        assert_eq!(after_step(step, true), AfterStep::GoOn);
    }
    for step in [ReadyStep::SaveApplied, ReadyStep::ApplyCommitted, ReadyStep::SendMessages] {
        assert_eq!(after_step(step, false), AfterStep::GoOn);
        assert_eq!(after_step(step, true), AfterStep::GoOn);
    }
}

#[test]
fn only_a_node_alone_starts_an_election_at_once() {
    assert_eq!(
        node_actions(NodeEvent::StartedAlone),
        vec![NodeAction::Campaign, NodeAction::DriveReady]
    );
    assert_eq!(node_actions(NodeEvent::StartedInGroup), vec![NodeAction::DriveReady]);
    assert_eq!(node_actions(NodeEvent::Ticked), vec![NodeAction::Tick, NodeAction::DriveReady]);
    assert_eq!(node_actions(NodeEvent::Received), vec![NodeAction::Step, NodeAction::DriveReady]);
    assert_eq!(node_actions(NodeEvent::ProposalTaken), vec![NodeAction::DriveReady]);
    assert!(node_actions(NodeEvent::ProposalRefused).is_empty());
    assert_eq!(node_actions(NodeEvent::Closed), vec![NodeAction::Stop]);
}

#[test]
fn a_node_has_its_settings() {
    let c = node_config(3, 17);
    assert_eq!((c.id, c.applied), (3, 17));
    assert_eq!((c.election_tick, c.heartbeat_tick), (10, 3));
    assert_eq!((c.max_size_per_msg, c.max_inflight_msgs), (1024 * 1024, 256));
    assert!(!c.check_quorum && !c.pre_vote);
    assert_eq!(TICK_MILLIS, 50);
}
