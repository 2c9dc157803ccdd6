use raftmeta::error::CubeError;
use raftmeta::snapshot_builder::{
    apply_snapshot_to_dir, build_state_machine_snapshot_bytes, staging_name, BuildEvent,
    BuildStep, CheckpointFault, Target, STAGING_PREFIX,
};
use raftmeta::snapshot_payload::{pack_dir, PackedFile};

fn file(relpath: &str, data: &[u8]) -> PackedFile {
    PackedFile { relpath: relpath.into(), data: data.to_vec() }
}

fn checkpoint() -> Vec<PackedFile> {
    vec![
        file("OPTIONS-000007", b"options"),
        file("CURRENT", b"MANIFEST-000005\n"),
        file("MANIFEST-000005", b"manifest"),
        file("000008.sst", b"alpha beta"),
    ]
}

fn next(event: BuildEvent) -> BuildStep {
    build_state_machine_snapshot_bytes("/raft-log/snapshot-staging-7", "/raft-log", event)
}

/// Goes on until the staging directory is to be removed, reading files where they are asked
/// for. Gives what was packed, and the paths in the order in which they were read.
fn pack(
    mut step: BuildStep,
    read: impl Fn(&str) -> Result<Vec<u8>, String>,
) -> (Result<Vec<u8>, CubeError>, Vec<String>) {
    let mut paths = Vec::new();
    loop {
        step = match step {
            BuildStep::ReadFile(run) => {
                let path = run.next_path().to_string();
                let data = read(&path);
                paths.push(path);
                next(BuildEvent::FileRead { run, data })
            }
            BuildStep::Cleanup(packed) => return (packed, paths),
            _ => panic!("unexpected step"),
        }
    }
}

fn listed(files: &[PackedFile]) -> BuildStep {
    next(BuildEvent::Listed(Ok(files.iter().map(|f| f.relpath.clone()).collect())))
}

fn read_from(files: Vec<PackedFile>) -> impl Fn(&str) -> Result<Vec<u8>, String> {
    move |path| {
        files
            .iter()
            .find(|f| f.relpath == path)
            .map(|f| f.data.clone())
            .ok_or_else(|| "gone".to_string())
    }
}

fn built() -> Vec<u8> {
    assert!(matches!(next(BuildEvent::Started), BuildStep::CreateParent));
    assert!(matches!(next(BuildEvent::ParentCreated(Ok(()))), BuildStep::Checkpoint));
    assert!(matches!(next(BuildEvent::Checkpointed(Ok(()))), BuildStep::List));
    let (packed, _) = pack(listed(&checkpoint()), read_from(checkpoint()));
    match next(BuildEvent::Cleaned { packed, removed: true }) {
        BuildStep::Done(bytes) => bytes,
        _ => panic!("unexpected step"),
    }
}

#[test]
fn build_snapshot_bytes_round_trips_through_unpack() {
    let bytes = built();
    assert!(!bytes.is_empty(), "snapshot data must not be empty");
    let install = apply_snapshot_to_dir(&bytes, "/restored", Target::Absent)
        .expect("apply snapshot to dir");
    assert!(install.create);
    assert_eq!(install.end, Ok(()));
    let names: Vec<&str> = install.files.iter().map(|f| f.relpath.as_str()).collect();
    assert!(names.iter().any(|n| *n == "CURRENT"), "restored dir missing CURRENT");
    assert!(names.iter().any(|n| n.starts_with("MANIFEST-")), "restored dir missing MANIFEST-*");
    for f in checkpoint() {
        assert!(install.files.contains(&f));
    }
    assert_eq!(install.files.len(), 4);
}

#[test]
fn apply_snapshot_to_dir_rejects_non_empty_target() {
    let bytes = built();
    let err = apply_snapshot_to_dir(&bytes, "/target", Target::Occupied).unwrap_err();
    assert!(
        err.message.contains("not empty"),
        "expected non-empty rejection, got: {}",
        err.message
    );
    assert_eq!(err.message, "apply_snapshot_to_dir: target \"/target\" is not empty");
}

#[test]
fn build_snapshot_cleans_up_staging_dir_on_success() {
    assert!(pack(listed(&checkpoint()), read_from(checkpoint())).0.is_ok());
    match next(BuildEvent::Cleaned { packed: Ok(vec![1]), removed: false }) {
        BuildStep::Done(bytes) => assert_eq!(bytes, vec![1]),
        _ => panic!("unexpected step"),
    }
}

#[test]
fn a_staging_directory_is_named_by_its_time() {
    assert_eq!(staging_name(0), "snapshot-staging-0");
    assert_eq!(staging_name(1_600_000_000_000_000_001), "snapshot-staging-1600000000000000001");
    assert_eq!(staging_name(u128::MAX), format!("{}{}", STAGING_PREFIX, u128::MAX));
}

#[test]
fn a_failed_step_ends_the_build() {
    let text = |event| match next(event) {
        BuildStep::Fail(e) => e.message,
        _ => panic!("unexpected step"),
    };
    assert_eq!(
        text(BuildEvent::ParentCreated(Err("denied".into()))),
        "build_snapshot: create staging parent \"/raft-log\": denied"
    );
    assert_eq!(
        text(BuildEvent::Checkpointed(Err(CheckpointFault::New("a".into())))),
        "Checkpoint::new: a"
    );
    assert_eq!(
        text(BuildEvent::Checkpointed(Err(CheckpointFault::Create("b".into())))),
        "create_checkpoint: b"
    );
    assert_eq!(
        text(BuildEvent::Checkpointed(Err(CheckpointFault::Join("c".into())))),
        "spawn_blocking join: c"
    );
}

#[test]
fn the_staging_directory_is_removed_before_a_failed_build_ends() {
    let text = |step, files: Vec<PackedFile>| {
        let (packed, _) = pack(step, read_from(files));
        let kept = packed.as_ref().unwrap_err().message.clone();
        match next(BuildEvent::Cleaned { packed, removed: true }) {
            BuildStep::Fail(e) => assert_eq!(e.message, kept),
            _ => panic!("unexpected step"),
        }
        kept
    };
    assert_eq!(
        text(next(BuildEvent::Listed(Err("io".into()))), vec![]),
        "pack_dir(\"/raft-log/snapshot-staging-7\"): io"
    );
    assert_eq!(
        text(listed(&checkpoint()), vec![]),
        "pack_dir(\"/raft-log/snapshot-staging-7\"): gone"
    );
    let long = "x".repeat(1025);
    assert_eq!(
        text(listed(&[file(&long, b"")]), vec![]),
        "pack_dir(\"/raft-log/snapshot-staging-7\"): relpath length 1025 exceeds cap"
    );
    let (packed, _) = pack(listed(&[file("a/b", b"")]), |_| Ok(vec![0; 0x4000_0001]));
    assert_eq!(
        packed.unwrap_err().message,
        "pack_dir(\"/raft-log/snapshot-staging-7\"): file too large: 1073741825 bytes \
         (\"/raft-log/snapshot-staging-7/a/b\")"
    );
}

#[test]
fn files_are_read_one_by_one_in_the_order_of_their_paths() {
    let (packed, paths) = pack(listed(&checkpoint()), read_from(checkpoint()));
    assert_eq!(paths, vec!["000008.sst", "CURRENT", "MANIFEST-000005", "OPTIONS-000007"]);
    assert_eq!(packed.unwrap(), pack_dir(checkpoint()).unwrap());
    let (packed, paths) = pack(listed(&[]), read_from(vec![]));
    assert_eq!(packed.unwrap(), vec![0, 0, 0, 0]);
    assert!(paths.is_empty());
}

#[test]
fn nothing_is_read_behind_a_file_that_cannot_be_packed() {
    let long = "m".repeat(1025);
    let files = || vec![file("z", b"last"), file(&long, b"never"), file("a", b"first")];
    let (packed, paths) = pack(listed(&files()), read_from(files()));
    assert!(packed.is_err());
    assert_eq!(paths, vec!["a"]);
}

#[test]
fn a_target_that_cannot_be_listed_is_refused() {
    let err = apply_snapshot_to_dir(&[], "/t", Target::Unreadable("not a directory".into()))
        .unwrap_err();
    assert_eq!(err.message, "read_dir \"/t\": not a directory");
}

#[test]
fn a_malformed_snapshot_leaves_the_files_before_the_fault() {
    let mut bytes = built();
    bytes.push(0);
    let install = apply_snapshot_to_dir(&bytes, "/t", Target::Empty).unwrap();
    assert!(!install.create);
    assert_eq!(install.files.len(), 4);
    assert_eq!(
        install.end.unwrap_err().message,
        "unpack_dir into \"/t\": trailing bytes after declared file count"
    );
}
