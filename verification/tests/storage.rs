use raftmeta::proto::{ConfState, Entry, EntryType, HardState, Snapshot, SnapshotMetadata};
use raftmeta::raft_meta_store::{compact_target, SnapshotRun, REMOTE_SNAPSHOT_NAME};
use raftmeta::storage::{
    applied_index_row, conf_state_row, decode_index_key, hard_state_row, index_key,
    snapshot_meta_row, EntriesScan, Family, FileStep, RaftStorage, RaftStorageError,
    StorageReadError, WriteOp, SNAPSHOT_DATA_FILE, SNAPSHOT_TEMP_FILE,
};
use std::collections::BTreeMap;

/// A disk in memory, and a storage that was opened on it.
#[derive(Default)]
struct Disk {
    entries: BTreeMap<Vec<u8>, Vec<u8>>,
    meta: BTreeMap<Vec<u8>, Vec<u8>>,
    files: BTreeMap<String, Vec<u8>>,
}

impl Disk {
    fn write(&mut self, op: WriteOp) {
        match op {
            WriteOp::Put { family, key, value } => {
                self.family(family).insert(key, value);
            }
            WriteOp::Delete { family, key } => {
                self.family(family).remove(&key);
            }
            WriteOp::DeleteRange { family, from, to } => {
                self.family(family).retain(|k, _| *k < from || *k >= to);
            }
        }
    }

    fn family(&mut self, family: Family) -> &mut BTreeMap<Vec<u8>, Vec<u8>> {
        match family {
            Family::Entries => &mut self.entries,
            Family::Meta => &mut self.meta,
        }
    }

    fn row(&self, key: Vec<u8>) -> Option<Vec<u8>> {
        self.meta.get(&key).cloned()
    }

    fn entry_row(&self, index: u64) -> Option<&[u8]> {
        self.entries.get(index_key(index).as_slice()).map(|v| v.as_slice())
    }

    fn first_key(&self) -> Option<&[u8]> {
        self.entries.keys().next().map(|k| k.as_slice())
    }

    fn last_key(&self) -> Option<&[u8]> {
        self.entries.keys().next_back().map(|k| k.as_slice())
    }
}

struct Store {
    disk: Disk,
    storage: RaftStorage,
}

impl Store {
    fn open(mut disk: Disk, voters: Vec<u64>) -> Store {
        let plan = RaftStorage::open(
            disk.row(hard_state_row()),
            disk.row(conf_state_row()),
            disk.entries.is_empty(),
            voters,
        );
        for op in plan.writes {
            disk.write(op);
        }
        Store { disk, storage: plan.storage.unwrap() }
    }

    fn fresh() -> Store {
        Store::open(Disk::default(), vec![1])
    }

    fn reopen(self) -> Store {
        Store::open(self.disk, vec![1])
    }

    fn append(&mut self, entries: &[Entry]) {
        for op in self.storage.append(entries, self.disk.last_key()).unwrap() {
            self.disk.write(op);
        }
    }

    fn first_index(&self) -> u64 {
        self.storage.first_index(self.disk.first_key()).unwrap()
    }

    fn last_index(&self) -> u64 {
        self.storage.last_index(self.disk.last_key()).unwrap()
    }

    fn term(&self, index: u64) -> Result<u64, StorageReadError> {
        self.storage.term(self.disk.entry_row(index))
    }

    fn entries(&self, low: u64, high: u64, max: Option<u64>) -> Result<Vec<Entry>, StorageReadError> {
        let mut scan = EntriesScan::new(low, high, max);
        while let Some(key) = scan.next_key() {
            scan.feed(self.disk.entries.get(key.as_slice()).map(|v| v.as_slice()))?;
        }
        Ok(scan.finish())
    }

    fn set_hard_state(&mut self, hs: HardState) {
        let op = self.storage.set_hard_state(&hs).unwrap();
        self.disk.write(op);
        self.storage.hard_state_saved(hs);
    }

    fn applied_index(&self) -> Option<u64> {
        self.storage.applied_index(self.disk.row(applied_index_row()).as_deref())
    }

    fn set_applied_index(&mut self, idx: u64) {
        let op = self.storage.set_applied_index(idx);
        self.disk.write(op);
    }

    fn compact(&mut self, to: u64) {
        let op = self.storage.compact(to);
        self.disk.write(op);
    }

    fn make_steps(&mut self, steps: Vec<FileStep>) {
        for step in steps {
            match step {
                FileStep::WriteFile { name, data } => {
                    self.disk.files.insert(name, data);
                }
                FileStep::Rename { from, to } => {
                    let data = self.disk.files.remove(&from).unwrap();
                    self.disk.files.insert(to, data);
                }
            }
        }
    }

    fn save_snapshot(&mut self, snap: &Snapshot) {
        let plan = self.storage.save_snapshot(snap);
        self.make_steps(plan.files);
        self.disk.write(plan.metadata.unwrap());
    }

    fn read_snapshot(&self) -> Option<Snapshot> {
        self.storage
            .read_snapshot(
                self.disk.row(snapshot_meta_row()).as_deref(),
                self.disk.files.get(SNAPSHOT_DATA_FILE).cloned(),
            )
            .unwrap()
    }

    fn snapshot(&self, request_index: u64) -> Result<Snapshot, StorageReadError> {
        self.storage.snapshot(
            request_index,
            self.disk.row(snapshot_meta_row()).as_deref(),
            self.disk.files.get(SNAPSHOT_DATA_FILE).cloned(),
        )
    }

    fn snapshot_index(&self) -> u64 {
        self.storage.snapshot_index(self.disk.row(snapshot_meta_row()).as_deref()).unwrap()
    }
}

fn make_entry(index: u64, term: u64, data: &[u8]) -> Entry {
    Entry { index, term, data: data.to_vec(), ..Entry::default() }
}

fn make_snapshot(index: u64, term: u64, voters: Vec<u64>, data: &[u8]) -> Snapshot {
    Snapshot {
        data: data.to_vec(),
        metadata: SnapshotMetadata { conf_state: ConfState::with_voters(voters), index, term },
    }
}

#[test]
fn fresh_storage_initial_state_has_default_hardstate_and_voters() {
    let s = Store::fresh();
    let (hard_state, conf_state) = s.storage.initial_state();
    assert_eq!(hard_state.term, 0);
    assert_eq!(hard_state.vote, 0);
    assert_eq!(hard_state.commit, 0);
    assert_eq!(conf_state.voters, vec![1]);
    assert_eq!(s.first_index(), 1);
    assert_eq!(s.last_index(), 0);
}

#[test]
fn append_and_read_back_entries() {
    let mut s = Store::fresh();
    let entries = vec![make_entry(1, 1, b"a"), make_entry(2, 1, b"bb"), make_entry(3, 1, b"ccc")];
    s.append(&entries);
    assert_eq!(s.last_index(), 3);
    assert_eq!(s.first_index(), 1);

    let read = s.entries(1, 4, None).unwrap();
    assert_eq!(read.len(), 3);
    for (a, b) in entries.iter().zip(read.iter()) {
        assert_eq!(a.index, b.index);
        assert_eq!(a.term, b.term);
        assert_eq!(a.data, b.data);
    }
}

#[test]
fn append_overwrites_conflicting_suffix() {
    let mut s = Store::fresh();
    s.append(&[make_entry(1, 1, b"old1"), make_entry(2, 1, b"old2"), make_entry(3, 1, b"old3")]);
    s.append(&[make_entry(2, 2, b"new2"), make_entry(3, 2, b"new3"), make_entry(4, 2, b"new4")]);
    assert_eq!(s.last_index(), 4);
    let read = s.entries(1, 5, None).unwrap();
    assert_eq!(read.len(), 4);
    assert_eq!(read[0].data, b"old1");
    assert_eq!(read[0].term, 1);
    assert_eq!(read[1].data, b"new2");
    assert_eq!(read[1].term, 2);
    assert_eq!(read[3].data, b"new4");
}

#[test]
fn term_returns_entry_term() {
    let mut s = Store::fresh();
    s.append(&[make_entry(1, 7, b"x"), make_entry(2, 7, b"y")]);
    assert_eq!(s.term(1).unwrap(), 7);
    assert_eq!(s.term(2).unwrap(), 7);
    assert!(matches!(s.term(99), Err(StorageReadError::Unavailable)));
}

#[test]
fn entries_respects_max_size_after_first() {
    let mut s = Store::fresh();
    s.append(&[
        make_entry(1, 1, &vec![0u8; 100]),
        make_entry(2, 1, &vec![0u8; 100]),
        make_entry(3, 1, &vec![0u8; 100]),
    ]);
    let r = s.entries(1, 4, Some(50u64)).unwrap();
    assert_eq!(r.len(), 1, "first entry forced, second over cap");
    assert_eq!(r[0].index, 1);
}

#[test]
fn hard_state_persists_across_open() {
    let mut s = Store::fresh();
    s.set_hard_state(HardState { term: 42, vote: 7, commit: 100 });
    assert_eq!(s.storage.initial_state().0.term, 42);
    let s2 = s.reopen();
    let (hard_state, _) = s2.storage.initial_state();
    assert_eq!(hard_state.term, 42);
    assert_eq!(hard_state.vote, 7);
    assert_eq!(hard_state.commit, 100);
}

#[test]
fn entries_persist_across_open() {
    let mut s = Store::fresh();
    s.append(&[
        make_entry(1, 1, b"survive"),
        make_entry(2, 1, b"this"),
        make_entry(3, 1, b"restart"),
    ]);
    let s2 = s.reopen();
    assert_eq!(s2.last_index(), 3);
    let read = s2.entries(1, 4, None).unwrap();
    assert_eq!(read.len(), 3);
    assert_eq!(read[0].data, b"survive");
    assert_eq!(read[1].data, b"this");
    assert_eq!(read[2].data, b"restart");
}

#[test]
fn applied_index_round_trip() {
    let mut s = Store::fresh();
    assert_eq!(s.applied_index(), None);
    s.set_applied_index(42);
    assert_eq!(s.applied_index(), Some(42));
    let s2 = s.reopen();
    assert_eq!(s2.applied_index(), Some(42));
}

#[test]
fn compact_drops_old_entries() {
    let mut s = Store::fresh();
    s.append(&[
        make_entry(1, 1, b"1"),
        make_entry(2, 1, b"2"),
        make_entry(3, 1, b"3"),
        make_entry(4, 1, b"4"),
    ]);
    s.compact(3);
    assert_eq!(s.last_index(), 4);
    assert_eq!(s.first_index(), 3);
    assert!(matches!(s.term(1), Err(StorageReadError::Unavailable)));
    assert_eq!(s.term(3).unwrap(), 1);
}

#[test]
fn save_snapshot_then_read_back_round_trips_metadata_and_data() {
    let mut s = Store::fresh();
    s.save_snapshot(&make_snapshot(7, 3, vec![1, 2, 3], b"state-machine-bytes"));

    let read = s.read_snapshot().expect("snapshot present");
    assert_eq!(read.metadata.index, 7);
    assert_eq!(read.metadata.term, 3);
    assert_eq!(read.metadata.conf_state.voters, vec![1, 2, 3]);
    assert_eq!(read.data, b"state-machine-bytes");
}

#[test]
fn read_snapshot_returns_none_when_never_saved() {
    let s = Store::fresh();
    assert!(s.read_snapshot().is_none());
    assert!(matches!(
        s.snapshot(0),
        Err(StorageReadError::SnapshotTemporarilyUnavailable)
    ));
}

#[test]
fn snapshot_index_reflects_latest_save() {
    let mut s = Store::fresh();
    assert_eq!(s.snapshot_index(), 0);

    s.save_snapshot(&make_snapshot(5, 1, vec![1], b"first"));
    assert_eq!(s.snapshot_index(), 5);

    s.save_snapshot(&make_snapshot(20, 4, vec![1, 2], b"second"));
    assert_eq!(s.snapshot_index(), 20);

    let read = s.read_snapshot().unwrap();
    assert_eq!(read.data, b"second");
    assert_eq!(read.metadata.conf_state.voters, vec![1, 2]);
}

#[test]
fn snapshot_persists_across_open() {
    let mut s = Store::fresh();
    s.save_snapshot(&make_snapshot(11, 2, vec![1, 2, 3], b"durable"));
    let s2 = s.reopen();
    let read = s2.read_snapshot().unwrap();
    assert_eq!(read.metadata.index, 11);
    assert_eq!(read.data, b"durable");
}

#[test]
fn storage_snapshot_returns_persisted_when_index_satisfied() {
    let mut s = Store::fresh();
    s.save_snapshot(&make_snapshot(50, 3, vec![1], b"xyz"));

    let snap = s.snapshot(20).unwrap();
    assert_eq!(snap.metadata.index, 50);
    assert_eq!(snap.data, b"xyz");

    assert!(matches!(
        s.snapshot(100),
        Err(StorageReadError::SnapshotTemporarilyUnavailable)
    ));
}

#[test]
fn save_snapshot_uses_atomic_rename() {
    let mut s = Store::fresh();
    s.save_snapshot(&make_snapshot(3, 1, vec![1], b"xx"));
    assert_eq!(SNAPSHOT_TEMP_FILE, format!("{}.tmp", SNAPSHOT_DATA_FILE));
    assert!(
        !s.disk.files.contains_key(SNAPSHOT_TEMP_FILE),
        "tmp sidecar must be cleaned up after save_snapshot"
    );
}

#[test]
fn index_keys_are_ordered_as_their_indices() {
    let indices = [0, 1, 255, 256, 65535, 65536, 1 << 32, u64::MAX - 1, u64::MAX];
    for pair in indices.windows(2) {
        assert!(index_key(pair[0]) < index_key(pair[1]));
    }
    assert_eq!(index_key(258), [0, 0, 0, 0, 0, 0, 1, 2]);
    assert_eq!(decode_index_key(&index_key(u64::MAX)).unwrap(), u64::MAX);
    assert_eq!(
        decode_index_key(&[1, 2, 3]).unwrap_err().message(),
        "inconsistent raft storage: index key wrong length: 3"
    );
}

#[test]
fn entries_keep_every_field() {
    let mut s = Store::fresh();
    let e = Entry {
        entry_type: EntryType::ConfChangeV2,
        term: 3,
        index: 1,
        data: vec![0, 255],
        context: vec![1, 2, 3],
        sync_log: true,
    };
    s.append(&[e]);
    let e = s.entries(1, 2, None).unwrap().remove(0);
    assert_eq!(e.entry_type, EntryType::ConfChangeV2);
    assert_eq!((e.term, e.index, e.sync_log), (3, 1, true));
    assert_eq!((e.data, e.context), (vec![0, 255], vec![1, 2, 3]));
}

#[test]
fn ordinary_entries_and_members_are_short_enough_to_be_written() {
    assert!(make_entry(1, 1, &[0; 1000]).fits());
    assert!(ConfState::with_voters(vec![1, 2, 3]).fits());
}

#[test]
fn the_conf_state_on_disk_wins_over_the_bootstrap_voters() {
    let s = Store::open(Disk::default(), vec![1, 2, 3]);
    let s2 = Store::open(s.disk, vec![9]);
    assert_eq!(s2.storage.initial_state().1.voters, vec![1, 2, 3]);
}

#[test]
fn a_new_conf_state_persists_across_open() {
    let mut s = Store::fresh();
    let cs = ConfState {
        voters: vec![1, 2],
        learners: vec![3],
        voters_outgoing: vec![4],
        learners_next: vec![5],
        auto_leave: true,
    };
    let op = s.storage.set_conf_state(&cs).unwrap();
    s.disk.write(op);
    s.storage.conf_state_saved(cs);
    let s2 = s.reopen();
    let cs = s2.storage.initial_state().1;
    assert_eq!(cs.voters, vec![1, 2]);
    assert_eq!(cs.learners, vec![3]);
    assert_eq!(cs.voters_outgoing, vec![4]);
    assert_eq!(cs.learners_next, vec![5]);
    assert!(cs.auto_leave);
}

#[test]
fn malformed_rows_are_reported() {
    let mut disk = Disk::default();
    disk.meta.insert(hard_state_row(), vec![0xFF]);
    let plan = RaftStorage::open(
        disk.row(hard_state_row()),
        disk.row(conf_state_row()),
        disk.entries.is_empty(),
        vec![1],
    );
    let err = plan.storage.unwrap_err();
    assert!(matches!(err, RaftStorageError::Protobuf(_)));
    assert!(err.message().starts_with("protobuf: ") && err.message().len() > 10);
    assert!(plan.writes.is_empty());

    let mut s = Store::fresh();
    s.append(&[make_entry(1, 1, b"x")]);
    s.disk.entries.insert(index_key(2).to_vec(), vec![0xFF]);
    assert!(matches!(s.term(2), Err(StorageReadError::Other(_))));
    assert!(s.entries(1, 3, None).is_err());
    assert!(matches!(s.entries(4, 5, None), Err(StorageReadError::Unavailable)));

    s.disk.entries.insert(vec![255; 9], vec![]);
    assert!(s.storage.last_index(s.disk.last_key()).is_err());
    assert!(s.storage.append(&[make_entry(1, 1, b"x")], s.disk.last_key()).is_err());
    assert!(s.storage.append(&[], s.disk.last_key()).unwrap().is_empty());
}

#[test]
fn an_applied_index_of_another_length_counts_as_none() {
    let s = Store::fresh();
    assert_eq!(s.storage.applied_index(Some(&[1, 2, 3])), None);
    assert_eq!(s.storage.applied_index_or_zero(Some(&[1, 2, 3])), 0);
    assert_eq!(s.storage.applied_index_or_zero(Some(&[0, 0, 0, 0, 0, 0, 1, 0])), 256);
}

#[test]
fn a_snapshot_covers_the_log_up_to_the_applied_index() {
    let mut s = Store::open(Disk::default(), vec![1, 2]);
    for i in 1..11u64 {
        s.append(&[make_entry(i, 4, b"x")]);
    }
    s.set_applied_index(10);
    let run = SnapshotRun::begin(
        &s.storage,
        s.disk.row(applied_index_row()).as_deref(),
        s.disk.entry_row(10),
        2,
    );
    let plan = run.save(&s.storage, b"packed".to_vec());
    s.make_steps(plan.files);
    s.disk.write(plan.metadata.unwrap());
    let snap = s.read_snapshot().unwrap();
    assert_eq!((snap.metadata.index, snap.metadata.term), (10, 4));
    assert_eq!(snap.metadata.conf_state.voters, vec![1, 2]);
    assert_eq!(snap.data, b"packed");
    assert_eq!(run.upload(true), Some(REMOTE_SNAPSHOT_NAME));
    assert_eq!(run.upload(false), None);
    assert_eq!(REMOTE_SNAPSHOT_NAME, "latest.bin");
    let op = run.compact(&s.storage).unwrap();
    s.disk.write(op);
    assert_eq!((s.first_index(), s.last_index()), (8, 10));
}

#[test]
fn a_snapshot_of_an_empty_group_stands_at_zero() {
    let s = Store::fresh();
    let run = SnapshotRun::begin(&s.storage, None, None, 0);
    assert_eq!((run.metadata.index, run.metadata.term), (0, 0));
    assert!(run.compact(&s.storage).is_none());
}

#[test]
fn compaction_leaves_what_is_asked_for() {
    assert_eq!(compact_target(10, 2), Some(8));
    assert_eq!(compact_target(10, 0), Some(10));
    assert_eq!(compact_target(10, 9), None);
    assert_eq!(compact_target(10, 10), None);
    assert_eq!(compact_target(10, u64::MAX), None);
    assert_eq!(compact_target(2, 0), Some(2));
    assert_eq!(compact_target(1, 0), None);
    assert_eq!(compact_target(0, 0), None);
}

#[test]
fn the_last_key_is_that_of_the_last_entry_appended() {
    let mut s = Store::fresh();
    s.append(&[make_entry(1, 1, b"a"), make_entry(2, 1, b"b"), make_entry(3, 1, b"c")]);
    assert_eq!(s.disk.last_key(), Some(&index_key(3)[..]));
    s.append(&[make_entry(2, 2, b"d")]);
    assert_eq!(s.disk.last_key(), Some(&index_key(2)[..]));
}

#[test]
fn the_bootstrap_voters_do_not_matter_once_a_conf_state_is_stored() {
    let s = Store::open(Disk::default(), vec![1, 2]);
    let plan = RaftStorage::open(
        s.disk.row(hard_state_row()),
        s.disk.row(conf_state_row()),
        s.disk.entries.is_empty(),
        vec![7; 0x0100_0001],
    );
    assert!(plan.writes.is_empty());
    assert_eq!(plan.storage.unwrap().initial_state().1.voters, vec![1, 2]);
}
