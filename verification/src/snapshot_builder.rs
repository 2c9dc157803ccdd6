//! Snapshots of the state machine: from a checkpoint of the store to bytes, and from
//! bytes to a directory that the store can be opened on.
//!
//! A checkpoint is made in a staging directory of its own, which must not exist yet. Its
//! files are packed one after the other, and then the staging directory is removed, whether
//! or not they could be packed. Installing goes the other way, into a directory that must be
//! empty or absent: files that are already there would silently mix with those of the
//! snapshot.

#[allow(unused_imports)]
use crate::bytes;
use crate::error::CubeError;
#[allow(unused_imports)]
use crate::snapshot_payload;
use crate::snapshot_payload::{
    begin_pack, quoted_path, unpack_dir, PackError, PackRun, PackStep, PackedFile, Unpacked,
};
#[allow(unused_imports)]
use crate::snapshot_payload::{FileView, UnpackEnd};
#[allow(unused_imports)]
use crate::text;
use crate::text::push_decimal;
use vstd::prelude::*;

verus! {

/// How the name of a staging directory begins.
pub const STAGING_PREFIX: &'static str = "snapshot-staging-";

/// The name of the staging directory of a snapshot that is begun so many nanoseconds
/// after the epoch.
pub open spec fn staging(nanos: u128) -> Seq<char> {
    STAGING_PREFIX@ + text::decimal(nanos as nat)
}

/// The name of the staging directory of a snapshot that is begun so many nanoseconds
/// after the epoch.
pub fn staging_name(nanos: u128) -> (r: String)
    ensures
        r@ == staging(nanos),
{
    let mut s: String = STAGING_PREFIX.to_owned();
    push_decimal(&mut s, nanos);
    s
}

/// Snapshots that are begun at different times are staged in different directories.
pub proof fn law_staging_names_differ(a: u128, b: u128)
    requires
        staging(a) == staging(b),
    ensures
        a == b,
{
    let n = STAGING_PREFIX@.len() as int;
    assert(staging(a).skip(n) =~= text::decimal(a as nat));
    assert(staging(b).skip(n) =~= text::decimal(b as nat));
    text::law_decimals_differ(a as nat, b as nat);
}

// ---------------------------------------------------------------------------
// Building
// ---------------------------------------------------------------------------

/// What can go wrong with a checkpoint, and why.
#[derive(Debug, PartialEq, Eq)]
pub enum CheckpointFault {
    /// The store cannot be checkpointed.
    New(String),
    /// The checkpoint could not be written.
    Create(String),
    /// The thread that wrote it ended early.
    Join(String),
}

/// What happened to a snapshot that is being built.
pub enum BuildEvent {
    Started,
    /// The directory that holds the staging directory was created, or was there.
    ParentCreated(Result<(), String>),
    /// The checkpoint was made.
    Checkpointed(Result<(), CheckpointFault>),
    /// The files of the checkpoint were listed: their paths, relative to the staging
    /// directory.
    Listed(Result<Vec<String>, String>),
    /// The next file was read.
    FileRead { run: PackRun, data: Result<Vec<u8>, String> },
    /// The staging directory was removed, or could not be; what packing gave stands by.
    Cleaned { packed: Result<Vec<u8>, CubeError>, removed: bool },
}

/// What to do next about a snapshot that is being built.
pub enum BuildStep {
    /// Create the directory that holds the staging directory.
    CreateParent,
    /// Make a checkpoint at the staging directory, which does not exist yet.
    Checkpoint,
    /// List the files of the checkpoint.
    List,
    /// Read the next file of the checkpoint.
    ReadFile(PackRun),
    /// Remove the staging directory, now that packing is over, and keep what it gave. A
    /// failure is only reported: what is left over is harmless.
    Cleanup(Result<Vec<u8>, CubeError>),
    /// The snapshot is built.
    Done(Vec<u8>),
    /// It could not be built.
    Fail(CubeError),
}

pub open spec fn checkpoint_text(fault: CheckpointFault) -> Seq<char> {
    match fault {
        CheckpointFault::New(reason) => "Checkpoint::new: "@ + reason@,
        CheckpointFault::Create(reason) => "create_checkpoint: "@ + reason@,
        CheckpointFault::Join(reason) => "spawn_blocking join: "@ + reason@,
    }
}

pub open spec fn parent_text(parent: Seq<char>, reason: Seq<char>) -> Seq<char> {
    "build_snapshot: create staging parent "@ + snapshot_payload::path_debug(parent) + ": "@ + reason
}

pub open spec fn pack_text(staging: Seq<char>, reason: Seq<char>) -> Seq<char> {
    "pack_dir("@ + snapshot_payload::path_debug(staging) + "): "@ + reason
}

/// Whether packing files gave a result: the archive of the files in the order of their
/// paths, or what is wrong with them.
pub open spec fn packs(files: Seq<FileView>, r: Result<Seq<u8>, PackError>) -> bool {
    exists|sorted: Seq<FileView>|
        {
            &&& #[trigger] sorted.to_multiset() == files.to_multiset()
            &&& snapshot_payload::in_path_order(sorted)
            &&& match r {
                Ok(out) => {
                    &&& out == snapshot_payload::archive(sorted)
                    &&& files.len() <= u32::MAX
                    &&& snapshot_payload::pack_fault(sorted) is None
                },
                Err(PackError::TooManyFiles) => files.len() > u32::MAX,
                Err(e) => files.len() <= u32::MAX && (snapshot_payload::pack_fault(sorted)
                    matches Some(fault) && snapshot_payload::says(e, fault)),
            }
        }
}

/// Whether a step follows from how packing goes on.
pub open spec fn follows_packing(staging: Seq<char>, p: PackStep, step: BuildStep) -> bool {
    match p {
        PackStep::Read(run) => step == BuildStep::ReadFile(run),
        PackStep::Done(out) => step == BuildStep::Cleanup(Ok(out)),
        PackStep::Fail(fault) => step matches BuildStep::Cleanup(Err(e)) && e.message@ == pack_text(
            staging,
            snapshot_payload::pack_message(staging, fault),
        ),
    }
}

/// Whether a step follows from an event.
pub open spec fn build_follows(
    staging: Seq<char>,
    parent: Seq<char>,
    event: BuildEvent,
    step: BuildStep,
) -> bool {
    match event {
        BuildEvent::Started => step == BuildStep::CreateParent,
        BuildEvent::ParentCreated(Ok(_)) => step == BuildStep::Checkpoint,
        BuildEvent::ParentCreated(Err(reason)) => step matches BuildStep::Fail(e) && e.message@
            == parent_text(parent, reason@),
        BuildEvent::Checkpointed(Ok(_)) => step == BuildStep::List,
        BuildEvent::Checkpointed(Err(fault)) => step matches BuildStep::Fail(e) && e.message@
            == checkpoint_text(fault),
        BuildEvent::Listed(Err(reason)) => step matches BuildStep::Cleanup(Err(e)) && e.message@
            == pack_text(staging, reason@),
        BuildEvent::Listed(Ok(paths)) => exists|p: PackStep| #[trigger]
            snapshot_payload::begins(paths@, p) && follows_packing(staging, p, step),
        BuildEvent::FileRead { run: _, data: Err(reason) } => step matches BuildStep::Cleanup(
            Err(e),
        ) && e.message@ == pack_text(staging, reason@),
        BuildEvent::FileRead { run, data: Ok(data) } => exists|p: PackStep| #[trigger]
            snapshot_payload::adds(run, data@, p) && follows_packing(staging, p, step),
        BuildEvent::Cleaned { packed, removed } => match packed {
            Ok(bytes) => step == BuildStep::Done(bytes),
            Err(e) => step == BuildStep::Fail(e),
        },
    }
}

fn pack_error(staging: &str, reason: &str) -> (e: CubeError)
    ensures
        e.message@ == pack_text(staging@, reason@),
{
    let mut s: String = "pack_dir(".to_owned();
    s.push_str(quoted_path(staging).as_str());
    s.push_str("): ");
    s.push_str(reason);
    CubeError::internal(s)
}

fn parent_error(parent: &str, reason: &str) -> (e: CubeError)
    ensures
        e.message@ == parent_text(parent@, reason@),
{
    let mut s: String = "build_snapshot: create staging parent ".to_owned();
    s.push_str(quoted_path(parent).as_str());
    s.push_str(": ");
    s.push_str(reason);
    CubeError::internal(s)
}

fn checkpoint_error(fault: &CheckpointFault) -> (e: CubeError)
    ensures
        e.message@ == checkpoint_text(*fault),
{
    let (start, reason): (&str, &String) = match fault {
        CheckpointFault::New(reason) => ("Checkpoint::new: ", reason),
        CheckpointFault::Create(reason) => ("create_checkpoint: ", reason),
        CheckpointFault::Join(reason) => ("spawn_blocking join: ", reason),
    };
    let mut s: String = start.to_owned();
    s.push_str(reason.as_str());
    CubeError::internal(s)
}

fn after_packing(staging: &str, p: PackStep) -> (step: BuildStep)
    ensures
        follows_packing(staging@, p, step),
{
    match p {
        PackStep::Read(run) => BuildStep::ReadFile(run),
        PackStep::Done(out) => BuildStep::Cleanup(Ok(out)),
        PackStep::Fail(fault) => {
            let reason: String = fault.message(staging);
            BuildStep::Cleanup(Err(pack_error(staging, reason.as_str())))
        },
    }
}

/// Says what to do next about a snapshot that is being built.
pub fn build_state_machine_snapshot_bytes(staging: &str, parent: &str, event: BuildEvent) -> (step:
    BuildStep)
    ensures
        build_follows(staging@, parent@, event, step),
{
    match event {
        BuildEvent::Started => BuildStep::CreateParent,
        BuildEvent::ParentCreated(Ok(_)) => BuildStep::Checkpoint,
        BuildEvent::ParentCreated(Err(reason)) => BuildStep::Fail(
            parent_error(parent, reason.as_str()),
        ),
        BuildEvent::Checkpointed(Ok(_)) => BuildStep::List,
        BuildEvent::Checkpointed(Err(fault)) => BuildStep::Fail(checkpoint_error(&fault)),
        BuildEvent::Listed(Err(reason)) => BuildStep::Cleanup(
            Err(pack_error(staging, reason.as_str())),
        ),
        BuildEvent::Listed(Ok(paths)) => {
            let p: PackStep = begin_pack(paths);
            assert(snapshot_payload::begins(paths@, p));
            after_packing(staging, p)
        },
        BuildEvent::FileRead { run: _, data: Err(reason) } => BuildStep::Cleanup(
            Err(pack_error(staging, reason.as_str())),
        ),
        BuildEvent::FileRead { run, data: Ok(data) } => {
            let p: PackStep = run.add_data(data.as_slice());
            assert(snapshot_payload::adds(run, data@, p));
            after_packing(staging, p)
        },
        BuildEvent::Cleaned { packed, removed: _ } => match packed {
            Ok(bytes) => BuildStep::Done(bytes),
            Err(e) => BuildStep::Fail(e),
        },
    }
}

/// Once a checkpoint was made, the staging directory is removed before the snapshot is done
/// or has failed: what follows listing or reading its files is to read the next one or to
/// remove the directory, and what packing gave is what the snapshot comes to then.
pub proof fn law_staging_is_removed(
    staging: Seq<char>,
    parent: Seq<char>,
    event: BuildEvent,
    step: BuildStep,
)
    requires
        build_follows(staging, parent, event, step),
    ensures
        event is Listed || event is FileRead ==> step is ReadFile || step is Cleanup,
        step is Done || step is Fail ==> event is ParentCreated || event is Checkpointed
            || event is Cleaned,
        event matches BuildEvent::Checkpointed(Ok(_)) ==> step is List,
        event matches BuildEvent::Cleaned { packed: Ok(bytes), removed } ==> step
            == BuildStep::Done(bytes),
        event matches BuildEvent::Cleaned { packed: Err(e), removed } ==> step == BuildStep::Fail(
            e,
        ),
{
}

/// A snapshot is built in one order: the parent directory, the checkpoint, the list of files,
/// then file after file. A step that fails fails the snapshot, with the reason that it gave:
/// at once before there is a checkpoint, and behind the removal of the staging directory
/// after that.
pub proof fn law_failures_fail_the_snapshot(
    staging: Seq<char>,
    parent: Seq<char>,
    event: BuildEvent,
    step: BuildStep,
)
    requires
        build_follows(staging, parent, event, step),
    ensures
        event is Started <==> step is CreateParent,
        (event matches BuildEvent::ParentCreated(r) && r is Ok) <==> step is Checkpoint,
        (event matches BuildEvent::Checkpointed(r) && r is Ok) <==> step is List,
        event matches BuildEvent::ParentCreated(Err(reason)) ==> (step matches BuildStep::Fail(e)
            && reason@.is_suffix_of(e.message@)),
        event matches BuildEvent::Checkpointed(Err(fault)) ==> (step matches BuildStep::Fail(e)
            && match fault {
            CheckpointFault::New(reason)
            | CheckpointFault::Create(reason)
            | CheckpointFault::Join(reason) => reason@.is_suffix_of(e.message@),
        }),
        event matches BuildEvent::Listed(Err(reason)) ==> (step matches BuildStep::Cleanup(Err(e))
            && reason@.is_suffix_of(e.message@)),
        event matches BuildEvent::FileRead { run, data: Err(reason) } ==> (
        step matches BuildStep::Cleanup(Err(e)) && reason@.is_suffix_of(e.message@)),
        event matches BuildEvent::Listed(Ok(paths)) ==> (step matches BuildStep::Cleanup(Ok(out))
            ==> paths@.len() == 0),
{
    match (event, step) {
        (BuildEvent::ParentCreated(Err(reason)), BuildStep::Fail(e))
        | (BuildEvent::Listed(Err(reason)), BuildStep::Cleanup(Err(e)))
        | (BuildEvent::FileRead { run: _, data: Err(reason) }, BuildStep::Cleanup(Err(e))) => {
            lemma_ends_with(e.message@, reason@);
        },
        (BuildEvent::Checkpointed(Err(fault)), BuildStep::Fail(e)) => match fault {
            CheckpointFault::New(reason)
            | CheckpointFault::Create(reason)
            | CheckpointFault::Join(reason) => lemma_ends_with(e.message@, reason@),
        },
        (BuildEvent::Listed(Ok(paths)), BuildStep::Cleanup(Ok(_))) => {
            let p = choose|p: PackStep| #[trigger]
                snapshot_payload::begins(paths@, p) && follows_packing(staging, p, step);
            snapshot_payload::law_packing_begins(paths@, p);
        },
        _ => {},
    }
}

proof fn lemma_ends_with(message: Seq<char>, reason: Seq<char>)
    requires
        exists|start: Seq<char>| message == #[trigger] (start + reason),
    ensures
        reason.is_suffix_of(message),
{
    assert(reason =~= message.subrange(message.len() - reason.len(), message.len() as int));
}

/// The bytes that are kept once the last file was read are the archive of all the files that
/// were read.
pub proof fn law_all_files_are_packed(
    staging: Seq<char>,
    parent: Seq<char>,
    run: PackRun,
    data: Vec<u8>,
    out: Vec<u8>,
)
    requires
        build_follows(
            staging,
            parent,
            BuildEvent::FileRead { run, data: Ok(data) },
            BuildStep::Cleanup(Ok(out)),
        ),
    ensures
        ({
            let files = run.added().push(snapshot_payload::next_file(run, data@));
            &&& packs(files, Ok(out@))
            &&& files.len() == run.list().len()
            &&& snapshot_payload::read_of(run.list(), files)
        }),
{
    let files = run.added().push(snapshot_payload::next_file(run, data@));
    assert(files.to_multiset() == files.to_multiset());
    assert(snapshot_payload::pack_fault(files) is None);
}

/// A checkpoint whose files can be packed is packed: as long as no path, file or archive is
/// too long, the next file is read, and behind the last one the archive is kept.
pub proof fn law_ordinary_checkpoints_are_packed(
    staging: Seq<char>,
    parent: Seq<char>,
    run: PackRun,
    data: Vec<u8>,
    step: BuildStep,
)
    requires
        build_follows(staging, parent, BuildEvent::FileRead { run, data: Ok(data) }, step),
        run.added().len() < run.list().len(),
        snapshot_payload::pack_fault(run.added()) is None,
        ({
            let files = run.added().push(snapshot_payload::next_file(run, data@));
            &&& files.last().path.len() <= 1024
            &&& files.last().data.len() <= 0x4000_0000
            &&& snapshot_payload::archive(files).len() <= 0x2_0000_0000
            &&& files.len() < run.list().len() ==> run.list()[files.len() as int].path.len() <= 1024
        }),
    ensures
        ({
            let files = run.added().push(snapshot_payload::next_file(run, data@));
            if files.len() < run.list().len() {
                step matches BuildStep::ReadFile(next) && next.list() == run.list() && next.added()
                    == files
            } else {
                step matches BuildStep::Cleanup(Ok(out)) && out@ == snapshot_payload::archive(files)
            }
        }),
{
    let files = run.added().push(snapshot_payload::next_file(run, data@));
    let p = choose|p: PackStep| #[trigger]
        snapshot_payload::adds(run, data@, p) && follows_packing(staging, p, step);
    snapshot_payload::law_packing_succeeds(run.added());
    snapshot_payload::law_packing_succeeds(files);
    assert forall|i: int| 0 <= i < files.len() implies (#[trigger] files[i]).path.len() <= 1024
        && files[i].data.len() <= 0x4000_0000 by {
        if i < run.added().len() {
            assert(files[i] == run.added()[i]);
        } else {
            assert(files[i] == files.last());
        }
    }
    snapshot_payload::law_files_are_read_and_packed(run, data@, p);
}

/// A checkpoint is read from its first file on, once it was listed, unless there are too many
/// files or a path is too long.
pub proof fn law_listed_files_are_read(
    staging: Seq<char>,
    parent: Seq<char>,
    paths: Vec<String>,
    step: BuildStep,
)
    requires
        build_follows(staging, parent, BuildEvent::Listed(Ok(paths)), step),
        paths@.len() <= u32::MAX,
        forall|i: int|
            0 <= i < paths@.len() ==> snapshot_payload::path_bytes((#[trigger] paths@[i])@).len()
                <= 1024,
    ensures
        paths@.len() > 0 ==> (step matches BuildStep::ReadFile(run) && run.list().len()
            == paths@.len() && run.added().len() == 0),
        paths@.len() == 0 ==> (step matches BuildStep::Cleanup(Ok(out)) && out@
            == snapshot_payload::archive(Seq::empty())),
{
    let p = choose|p: PackStep| #[trigger]
        snapshot_payload::begins(paths@, p) && follows_packing(staging, p, step);
    snapshot_payload::law_packing_begins(paths@, p);
}

// ---------------------------------------------------------------------------
// Installing
// ---------------------------------------------------------------------------

/// What stands where a snapshot is to be installed.
#[derive(Debug, PartialEq, Eq)]
pub enum Target {
    /// Nothing.
    Absent,
    /// An empty directory.
    Empty,
    /// A directory with something in it.
    Occupied,
    /// Something that cannot be listed, and why.
    Unreadable(String),
}

/// How to install a snapshot.
#[derive(Debug)]
pub struct Install {
    /// Whether the directory is to be created first.
    pub create: bool,
    /// The files to write, in order.
    pub files: Vec<PackedFile>,
    /// Whether the snapshot was whole. A malformed one leaves the files before the
    /// fault.
    pub end: Result<(), CubeError>,
}

pub open spec fn occupied_text(target: Seq<char>) -> Seq<char> {
    "apply_snapshot_to_dir: target "@ + snapshot_payload::path_debug(target) + " is not empty"@
}

pub open spec fn unreadable_text(target: Seq<char>, reason: Seq<char>) -> Seq<char> {
    "read_dir "@ + snapshot_payload::path_debug(target) + ": "@ + reason
}

pub open spec fn unpack_text(target: Seq<char>, reason: Seq<char>) -> Seq<char> {
    "unpack_dir into "@ + snapshot_payload::path_debug(target) + ": "@ + reason
}

/// Whether the end of an installation is that of its archive.
pub open spec fn install_end(target: Seq<char>, end: UnpackEnd, r: Result<(), CubeError>) -> bool {
    match r {
        Ok(_) => end is Done,
        Err(e) => exists|fault: snapshot_payload::UnpackError|
            snapshot_payload::ends_as(Err(fault), end) && e.message@ == unpack_text(
                target,
                #[trigger] snapshot_payload::unpack_message(fault),
            ),
    }
}

/// Whether a snapshot is installed like this where something stands.
pub open spec fn installs(
    data: Seq<u8>,
    target: Seq<char>,
    state: Target,
    r: Result<Install, CubeError>,
) -> bool {
    match state {
        Target::Occupied => r matches Err(e) && e.message@ == occupied_text(target),
        Target::Unreadable(reason) => r matches Err(e) && e.message@ == unreadable_text(
            target,
            reason@,
        ),
        _ => match r {
            Ok(install) => {
                &&& install.create == (state is Absent)
                &&& snapshot_payload::files_view(install.files@) == snapshot_payload::unpacked(
                    data,
                ).0
                &&& install_end(target, snapshot_payload::unpacked(data).1, install.end)
            },
            Err(_) => false,
        },
    }
}

/// A snapshot is installed exactly where nothing would mix with it: into an empty directory,
/// or into one that is created because there is none. What is written there then are the
/// files that the snapshot was built of, in the order of their paths, and it succeeds.
pub proof fn law_install(
    files: Seq<FileView>,
    data: Seq<u8>,
    target: Seq<char>,
    state: Target,
    r: Result<Install, CubeError>,
)
    requires
        installs(data, target, state, r),
        packs(files, Ok(data)),
        forall|i: int|
            0 <= i < files.len() ==> (#[trigger] files[i]).path.len() > 0
                && snapshot_payload::safe_path(files[i].path) && vstd::utf8::valid_utf8(
                files[i].path,
            ),
    ensures
        r is Ok <==> state is Absent || state is Empty,
        r matches Ok(install) ==> {
            &&& install.create <==> state is Absent
            &&& install.end is Ok
            &&& snapshot_payload::files_view(install.files@).to_multiset() == files.to_multiset()
            &&& snapshot_payload::in_path_order(snapshot_payload::files_view(install.files@))
        },
{
    law_snapshot_round_trip(files, data);
    if let Ok(install) = r {
        law_install_end(target, snapshot_payload::unpacked(data).1, install.end);
    }
}

/// An installation succeeds exactly if the archive is whole.
pub proof fn law_install_end(target: Seq<char>, end: UnpackEnd, r: Result<(), CubeError>)
    requires
        install_end(target, end, r),
    ensures
        r is Ok <==> end is Done,
{
    if let Err(e) = r {
        let fault = choose|fault: snapshot_payload::UnpackError|
            snapshot_payload::ends_as(Err(fault), end) && e.message@ == unpack_text(
                target,
                #[trigger] snapshot_payload::unpack_message(fault),
            );
        snapshot_payload::law_errors_tell_the_end(Err(fault), end);
    }
}

/// Says how to install a snapshot into a directory. A directory with something in it is
/// refused, and nothing is written to it.
pub fn apply_snapshot_to_dir(snapshot_data: &[u8], target: &str, state: Target) -> (r: Result<
    Install,
    CubeError,
>)
    ensures
        installs(snapshot_data@, target@, state, r),
{
    let create: bool = match state {
        Target::Absent => true,
        Target::Empty => false,
        Target::Occupied => {
            let mut s: String = "apply_snapshot_to_dir: target ".to_owned();
            s.push_str(quoted_path(target).as_str());
            s.push_str(" is not empty");
            return Err(CubeError::internal(s));
        },
        Target::Unreadable(reason) => {
            let mut s: String = "read_dir ".to_owned();
            s.push_str(quoted_path(target).as_str());
            s.push_str(": ");
            s.push_str(reason.as_str());
            return Err(CubeError::internal(s));
        },
    };
    let unpacked: Unpacked = unpack_dir(snapshot_data);
    let end: Result<(), CubeError> = match unpacked.end {
        Ok(_) => Ok(()),
        Err(fault) => {
            let reason: String = fault.message();
            let mut s: String = "unpack_dir into ".to_owned();
            s.push_str(quoted_path(target).as_str());
            s.push_str(": ");
            s.push_str(reason.as_str());
            assert(s@ == unpack_text(target@, snapshot_payload::unpack_message(fault)));
            Err(CubeError::internal(s))
        },
    };
    Ok(Install { create, files: unpacked.files, end })
}

proof fn lemma_no_fault(files: Seq<FileView>, i: int)
    requires
        snapshot_payload::pack_fault(files) is None,
        0 <= i < files.len(),
    ensures
        files[i].path.len() <= snapshot_payload::MAX_RELPATH_LEN,
        files[i].data.len() <= snapshot_payload::MAX_FILE_DATA_LEN,
    decreases files.len(),
{
    if i < files.len() - 1 {
        lemma_no_fault(files.drop_last(), i);
    }
}

proof fn lemma_archive_len(files: Seq<FileView>)
    requires
        snapshot_payload::pack_fault(files) is None,
    ensures
        snapshot_payload::archive(files).len() <= snapshot_payload::MAX_TOTAL_LEN,
{
    bytes::lemma_be_bytes_len(files.len(), 4);
}

/// Installing a snapshot gives the files of the checkpoint that it was built from, each
/// with its path and its data: packing whatever files a directory can hold and unpacking
/// the archive loses nothing and adds nothing.
pub proof fn law_snapshot_round_trip(files: Seq<FileView>, out: Seq<u8>)
    requires
        packs(files, Ok(out)),
        forall|i: int|
            0 <= i < files.len() ==> (#[trigger] files[i]).path.len() > 0
                && snapshot_payload::safe_path(files[i].path) && vstd::utf8::valid_utf8(
                files[i].path,
            ),
    ensures
        snapshot_payload::unpacked(out).1 is Done,
        snapshot_payload::unpacked(out).0.to_multiset() == files.to_multiset(),
        snapshot_payload::in_path_order(snapshot_payload::unpacked(out).0),
{
    let sorted = choose|sorted: Seq<FileView>|
        {
            &&& #[trigger] sorted.to_multiset() == files.to_multiset()
            &&& snapshot_payload::in_path_order(sorted)
            &&& out == snapshot_payload::archive(sorted)
            &&& files.len() <= u32::MAX
            &&& snapshot_payload::pack_fault(sorted) is None
        };
    broadcast use vstd::multiset::group_multiset_axioms, vstd::seq_lib::group_to_multiset_ensures;

    assert(sorted.len() == sorted.to_multiset().len());
    assert(files.len() == files.to_multiset().len());
    assert forall|i: int| 0 <= i < sorted.len() implies snapshot_payload::unpackable(
        #[trigger] sorted[i],
    ) by {
        lemma_no_fault(sorted, i);
        assert(sorted.contains(sorted[i]));
        assert(files.to_multiset().count(sorted[i]) > 0);
        assert(files.contains(sorted[i]));
        let j = choose|j: int| 0 <= j < files.len() && files[j] == sorted[i];
        assert(files[j].path.len() > 0);
    }
    lemma_archive_len(sorted);
    snapshot_payload::law_unpack_archive(sorted);
}

} // verus!
