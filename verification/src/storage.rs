//! The replica's log and state on disk.
//!
//! The disk is an ordered key-value store with two families and a directory.
//! The family of entries holds each entry under its index, eight bytes high
//! byte first, so that the order of keys is the order of the log. The family of
//! meta values holds the hard state, the conf state, the applied index and the
//! metadata of the latest snapshot under fixed keys. The data of that snapshot
//! is a file of its own.
//!
//! Nothing here touches the disk. Each function takes what was read and says
//! what to write; every write is to be durable before the next step.

#[allow(unused_imports)]
use crate::bytes;
use crate::bytes::{read_u64_be, u64_be};
#[allow(unused_imports)]
use crate::proto;
use crate::proto::{
    parse_conf_state, parse_entry, parse_hard_state, parse_metadata, protobuf_error_text,
    write_conf_state, write_entry, write_hard_state, write_metadata, ConfState, Entry, HardState,
    Snapshot, SnapshotMetadata,
};
#[allow(unused_imports)]
use crate::proto::{ConfStateView, EntryView, SnapshotMetadataView, SnapshotView};
#[allow(unused_imports)]
use crate::text;
use crate::text::push_decimal;
use protobuf::ProtobufError;
use vstd::prelude::*;

verus! {

// ---------------------------------------------------------------------------
// The disk
// ---------------------------------------------------------------------------

/// The families of the store.
#[derive(Debug, Clone, Copy, PartialEq, Eq, Structural)]
pub enum Family {
    Entries,
    Meta,
}

/// A write to the store.
#[derive(Debug, PartialEq, Eq)]
pub enum WriteOp {
    Put { family: Family, key: Vec<u8>, value: Vec<u8> },
    Delete { family: Family, key: Vec<u8> },
    /// Deletes the keys from `from` up to but not including `to`.
    DeleteRange { family: Family, from: Vec<u8>, to: Vec<u8> },
}

#[verifier::ext_equal]
pub enum WriteOpView {
    Put { family: Family, key: Seq<u8>, value: Seq<u8> },
    Delete { family: Family, key: Seq<u8> },
    DeleteRange { family: Family, from: Seq<u8>, to: Seq<u8> },
}

impl View for WriteOp {
    type V = WriteOpView;

    open spec fn view(&self) -> WriteOpView {
        match self {
            WriteOp::Put { family, key, value } => WriteOpView::Put {
                family: *family,
                key: key@,
                value: value@,
            },
            WriteOp::Delete { family, key } => WriteOpView::Delete { family: *family, key: key@ },
            WriteOp::DeleteRange { family, from, to } => WriteOpView::DeleteRange {
                family: *family,
                from: from@,
                to: to@,
            },
        }
    }
}

/// The views of several writes.
pub open spec fn ops_view(ops: Seq<WriteOp>) -> Seq<WriteOpView> {
    Seq::new(ops.len(), |i: int| ops[i]@)
}

/// What is on disk: the two families, and the files by name.
#[verifier::ext_equal]
pub struct Disk {
    pub entries: Map<Seq<u8>, Seq<u8>>,
    pub meta: Map<Seq<u8>, Seq<u8>>,
    pub files: Map<Seq<char>, Seq<u8>>,
}

pub open spec fn write_family(
    rows: Map<Seq<u8>, Seq<u8>>,
    family: Family,
    op: WriteOpView,
) -> Map<Seq<u8>, Seq<u8>> {
    match op {
        WriteOpView::Put { family: f, key, value } => if f == family {
            rows.insert(key, value)
        } else {
            rows
        },
        WriteOpView::Delete { family: f, key } => if f == family {
            rows.remove(key)
        } else {
            rows
        },
        WriteOpView::DeleteRange { family: f, from, to } => if f == family {
            rows.restrict(
                Set::new(|k: Seq<u8>| bytes::lex_less(k, from) || !bytes::lex_less(k, to)),
            )
        } else {
            rows
        },
    }
}

/// The disk after one write.
pub open spec fn write_one(d: Disk, op: WriteOpView) -> Disk {
    Disk {
        entries: write_family(d.entries, Family::Entries, op),
        meta: write_family(d.meta, Family::Meta, op),
        files: d.files,
    }
}

/// The disk after several writes, in order.
pub open spec fn write_all(d: Disk, ops: Seq<WriteOpView>) -> Disk
    decreases ops.len(),
{
    if ops.len() == 0 {
        d
    } else {
        write_one(write_all(d, ops.drop_last()), ops.last())
    }
}

/// The key of a log index.
pub open spec fn key_of(index: u64) -> Seq<u8> {
    bytes::be_bytes(index as nat, 8)
}

/// The log: which entry is stored under which index.
pub open spec fn log_of(d: Disk) -> Map<u64, EntryView> {
    Map::new(
        |i: u64| d.entries.dom().contains(key_of(i)) && proto::entry_parsed(d.entries[key_of(i)]) is Some,
        |i: u64| proto::entry_parsed(d.entries[key_of(i)])->0,
    )
}

/// Every key of the log is a log index.
pub open spec fn keys_are_indices(d: Disk) -> bool {
    forall|k: Seq<u8>| #[trigger] d.entries.dom().contains(k) ==> k.len() == 8
}

/// `key` is the last key of the log, if it has any.
pub open spec fn is_last_key(d: Disk, key: Option<Seq<u8>>) -> bool {
    match key {
        Some(k) => d.entries.dom().contains(k) && forall|other: Seq<u8>| #[trigger]
            d.entries.dom().contains(other) ==> !bytes::lex_less(k, other),
        None => forall|other: Seq<u8>| !#[trigger] d.entries.dom().contains(other),
    }
}

/// `key` is the first key of the log, if it has any.
pub open spec fn is_first_key(d: Disk, key: Option<Seq<u8>>) -> bool {
    match key {
        Some(k) => d.entries.dom().contains(k) && forall|other: Seq<u8>| #[trigger]
            d.entries.dom().contains(other) ==> !bytes::lex_less(other, k),
        None => forall|other: Seq<u8>| !#[trigger] d.entries.dom().contains(other),
    }
}

pub open spec fn hard_state_key() -> Seq<u8> {
    seq![104u8, 97, 114, 100, 95, 115, 116, 97, 116, 101]
}

pub open spec fn conf_state_key() -> Seq<u8> {
    seq![99u8, 111, 110, 102, 95, 115, 116, 97, 116, 101]
}

pub open spec fn applied_index_key() -> Seq<u8> {
    seq![97u8, 112, 112, 108, 105, 101, 100, 95, 105, 110, 100, 101, 120]
}

pub open spec fn snapshot_meta_key() -> Seq<u8> {
    seq![115u8, 110, 97, 112, 115, 104, 111, 116, 95, 109, 101, 116, 97]
}

/// The key `hard_state`.
pub fn hard_state_row() -> (key: Vec<u8>)
    ensures
        key@ == hard_state_key(),
{
    let key: Vec<u8> = vec![104u8, 97, 114, 100, 95, 115, 116, 97, 116, 101];
    assert(key@ =~= hard_state_key());
    key
}

/// The key `conf_state`.
pub fn conf_state_row() -> (key: Vec<u8>)
    ensures
        key@ == conf_state_key(),
{
    let key: Vec<u8> = vec![99u8, 111, 110, 102, 95, 115, 116, 97, 116, 101];
    assert(key@ =~= conf_state_key());
    key
}

/// The key `applied_index`.
pub fn applied_index_row() -> (key: Vec<u8>)
    ensures
        key@ == applied_index_key(),
{
    let key: Vec<u8> = vec![97u8, 112, 112, 108, 105, 101, 100, 95, 105, 110, 100, 101, 120];
    assert(key@ =~= applied_index_key());
    key
}

/// The key `snapshot_meta`.
pub fn snapshot_meta_row() -> (key: Vec<u8>)
    ensures
        key@ == snapshot_meta_key(),
{
    let key: Vec<u8> = vec![115u8, 110, 97, 112, 115, 104, 111, 116, 95, 109, 101, 116, 97];
    assert(key@ =~= snapshot_meta_key());
    key
}

// ---------------------------------------------------------------------------
// Errors and keys
// ---------------------------------------------------------------------------

/// What can go wrong with what is on disk.
#[derive(Debug)]
pub enum RaftStorageError {
    Protobuf(ProtobufError),
    Inconsistent(String),
}

impl RaftStorageError {
    /// The error in words. What protobuf says of its own error follows the beginning that
    /// is stated here.
    pub fn message(&self) -> (r: String)
        ensures
            match self {
                RaftStorageError::Protobuf(_) => "protobuf: "@.is_prefix_of(r@),
                RaftStorageError::Inconsistent(msg) => r@ == "inconsistent raft storage: "@ + msg@,
            },
    {
        match self {
            RaftStorageError::Protobuf(e) => {
                let mut s: String = "protobuf: ".to_owned();
                s.push_str(protobuf_error_text(e).as_str());
                assert("protobuf: "@ =~= s@.take("protobuf: "@.len() as int));
                s
            },
            RaftStorageError::Inconsistent(msg) => {
                let mut s: String = "inconsistent raft storage: ".to_owned();
                s.push_str(msg.as_str());
                s
            },
        }
    }
}

/// The text for a key that is no log index.
pub open spec fn wrong_key_text(len: nat) -> Seq<char> {
    "index key wrong length: "@ + text::decimal(len)
}

/// The key of a log index.
pub fn index_key(idx: u64) -> (key: [u8; 8])
    ensures
        key@ == key_of(idx),
{
    u64_be(idx)
}

/// The log index that a key stands for.
pub fn decode_index_key(b: &[u8]) -> (r: Result<u64, RaftStorageError>)
    ensures
        match r {
            Ok(idx) => b@.len() == 8 && key_of(idx) == b@,
            Err(RaftStorageError::Inconsistent(msg)) => b@.len() != 8 && msg@ == wrong_key_text(
                b@.len(),
            ),
            Err(_) => false,
        },
{
    if b.len() != 8 {
        let mut msg: String = String::new();
        msg.push_str("index key wrong length: ");
        push_decimal(&mut msg, b.len() as u128);
        assert(msg@ =~= wrong_key_text(b@.len()));
        return Err(RaftStorageError::Inconsistent(msg));
    }
    let idx: u64 = read_u64_be(b, 0);
    proof {
        assert(b@.subrange(0, 8) =~= b@);
        bytes::law_be_bytes_of_value(b@);
    }
    Ok(idx)
}

fn key_vec(idx: u64) -> (key: Vec<u8>)
    ensures
        key@ == key_of(idx),
{
    let b: [u8; 8] = u64_be(idx);
    let mut key: Vec<u8> = Vec::new();
    let mut i: usize = 0;
    while i < 8
        invariant
            0 <= i <= 8,
            key@ == b@.take(i as int),
        decreases 8 - i,
    {
        key.push(b[i]);
        assert(b@.take(i + 1) =~= b@.take(i as int).push(b@[i as int]));
        i = i + 1;
    }
    assert(b@.take(8) =~= b@);
    key
}

/// Two log indices have different keys, ordered as the indices are.
pub proof fn law_index_keys(a: u64, b: u64)
    ensures
        key_of(a) == key_of(b) <==> a == b,
        bytes::lex_less(key_of(a), key_of(b)) <==> a < b,
        key_of(a).len() == 8,
{
    bytes::lemma_powers();
    bytes::lemma_be_bytes_len(a as nat, 8);
    bytes::lemma_be_bytes_len(b as nat, 8);
    bytes::law_be_value_of_bytes(a as nat, 8);
    bytes::law_be_value_of_bytes(b as nat, 8);
    bytes::law_be_order(key_of(a), key_of(b));
}

// ---------------------------------------------------------------------------
// The log
// ---------------------------------------------------------------------------

/// The state of a replica that is kept in memory beside the disk.
#[derive(Debug, PartialEq, Eq)]
pub struct RaftStorage {
    pub hard_state: HardState,
    pub conf_state: ConfState,
}

/// The last index of a log whose last key is given; 0 for an empty log.
pub open spec fn index_of_key(key: Option<Seq<u8>>) -> int {
    match key {
        Some(k) => bytes::be_value(k) as int,
        None => 0,
    }
}

/// The writes that delete the indices from `first` to `last`, both included.
pub open spec fn delete_ops(first: int, last: int) -> Seq<WriteOpView> {
    Seq::new(
        if first <= last {
            (last - first + 1) as nat
        } else {
            0
        },
        |i: int| WriteOpView::Delete { family: Family::Entries, key: key_of((first + i) as u64) },
    )
}

/// The writes that store entries.
pub open spec fn put_ops(entries: Seq<EntryView>) -> Seq<WriteOpView> {
    Seq::new(
        entries.len(),
        |i: int|
            WriteOpView::Put {
                family: Family::Entries,
                key: key_of(entries[i].index),
                value: proto::entry_written(entries[i]),
            },
    )
}

/// The writes that append entries to a log that ends at `last`: what the new
/// entries overlap goes first, then the entries themselves.
pub open spec fn append_ops(entries: Seq<EntryView>, last: int) -> Seq<WriteOpView> {
    if entries.len() == 0 {
        Seq::empty()
    } else {
        delete_ops(entries[0].index as int, last) + put_ops(entries)
    }
}

/// Every entry has a byte form, from which it can be read back.
pub open spec fn entries_stored(entries: Seq<EntryView>) -> bool {
    forall|i: int|
        0 <= i < entries.len() ==> proto::entry_parsed(proto::entry_written(#[trigger] entries[i]))
            == Some(entries[i])
}

/// The error for a key that is no log index.
pub open spec fn key_fault(key: Option<Seq<u8>>, e: RaftStorageError) -> bool {
    match (key, e) {
        (Some(k), RaftStorageError::Inconsistent(msg)) => k.len() != 8 && msg@ == wrong_key_text(
            k.len(),
        ),
        _ => false,
    }
}

pub open spec fn key_is_index(key: Option<Seq<u8>>) -> bool {
    key matches Some(k) ==> k.len() == 8
}

pub open spec fn opt_bytes(b: Option<&[u8]>) -> Option<Seq<u8>> {
    match b {
        Some(s) => Some(s@),
        None => None,
    }
}

fn key_index(key: Option<&[u8]>) -> (r: Result<u64, RaftStorageError>)
    ensures
        match r {
            Ok(idx) => key_is_index(opt_bytes(key)) && idx == index_of_key(opt_bytes(key)),
            Err(e) => key_fault(opt_bytes(key), e),
        },
{
    match key {
        None => Ok(0),
        Some(k) => match decode_index_key(k) {
            Ok(idx) => {
                proof {
                    bytes::lemma_powers();
                    bytes::law_be_value_of_bytes(idx as nat, 8);
                }
                Ok(idx)
            },
            Err(e) => Err(e),
        },
    }
}

impl RaftStorage {
    /// Says how to append entries to a log whose last key is given.
    ///
    /// What the first new index overlaps is deleted, as when a follower gives
    /// up a conflicting tail. The writes are one batch.
    pub fn append(&self, entries: &[Entry], last_key: Option<&[u8]>) -> (r: Result<
        Vec<WriteOp>,
        RaftStorageError,
    >)
        requires
            forall|i: int| 0 <= i < entries@.len() ==> proto::entry_fits((#[trigger] entries@[i])@),
        ensures
            match r {
                Ok(ops) => {
                    &&& ops_view(ops@) == append_ops(
                        proto::entries_view(entries@),
                        index_of_key(opt_bytes(last_key)),
                    )
                    &&& entries@.len() > 0 ==> key_is_index(opt_bytes(last_key))
                    &&& entries_stored(proto::entries_view(entries@))
                },
                Err(e) => entries@.len() > 0 && key_fault(opt_bytes(last_key), e),
            },
    {
        let ghost view = proto::entries_view(entries@);
        let mut ops: Vec<WriteOp> = Vec::new();
        if entries.len() == 0 {
            assert(ops_view(ops@) =~= append_ops(view, index_of_key(opt_bytes(last_key))));
            return Ok(ops);
        }
        let first_new: u64 = entries[0].index;
        let last_existing: u64 = key_index(last_key)?;
        let ghost deletes = delete_ops(first_new as int, last_existing as int);
        if first_new <= last_existing {
            let mut stale: u64 = first_new;
            let mut more: bool = true;
            while more
                invariant
                    deletes == delete_ops(first_new as int, last_existing as int),
                    first_new <= stale <= last_existing,
                    ops@.len() == stale - first_new + (if more {
                        0int
                    } else {
                        1
                    }),
                    !more ==> stale == last_existing,
                    ops_view(ops@) == deletes.take(ops@.len() as int),
                decreases last_existing - stale + (if more {
                    1int
                } else {
                    0
                }),
            {
                let ghost n = ops@.len() as int;
                ops.push(WriteOp::Delete { family: Family::Entries, key: key_vec(stale) });
                assert(ops_view(ops@) =~= deletes.take(n).push(deletes[n]));
                assert(deletes.take(n + 1) =~= deletes.take(n).push(deletes[n]));
                if stale < last_existing {
                    stale = stale + 1;
                } else {
                    more = false;
                }
            }
            assert(deletes.take(deletes.len() as int) =~= deletes);
        } else {
            assert(ops_view(ops@) =~= deletes);
        }
        let ghost puts = put_ops(view);
        let mut i: usize = 0;
        assert(ops_view(ops@) =~= deletes + puts.take(0));
        while i < entries.len()
            invariant
                forall|k: int|
                    0 <= k < entries@.len() ==> proto::entry_fits((#[trigger] entries@[k])@),
                key_is_index(opt_bytes(last_key)),
                view == proto::entries_view(entries@),
                puts == put_ops(view),
                0 <= i <= entries@.len(),
                ops_view(ops@) == deletes + puts.take(i as int),
                forall|k: int|
                    0 <= k < i ==> proto::entry_parsed(proto::entry_written(#[trigger] view[k]))
                        == Some(view[k]),
            decreases entries@.len() - i,
        {
            let ghost before = ops@;
            match write_entry(&entries[i]) {
                Err(e) => {
                    return Err(RaftStorageError::Protobuf(e));
                },
                Ok(value) => {
                    ops.push(
                        WriteOp::Put {
                            family: Family::Entries,
                            key: key_vec(entries[i].index),
                            value,
                        },
                    );
                },
            }
            assert(view[i as int] == entries@[i as int]@);
            assert(puts.take(i + 1) =~= puts.take(i as int).push(puts[i as int]));
            assert(ops_view(ops@) =~= ops_view(before).push(puts[i as int]));
            assert(ops_view(ops@) =~= deletes + puts.take(i + 1));
            i = i + 1;
        }
        assert(puts.take(puts.len() as int) =~= puts);
        Ok(ops)
    }
}

proof fn lemma_write_all_append(d: Disk, a: Seq<WriteOpView>, b: Seq<WriteOpView>)
    ensures
        write_all(d, a + b) == write_all(write_all(d, a), b),
    decreases b.len(),
{
    if b.len() == 0 {
        assert(a + b =~= a);
    } else {
        lemma_write_all_append(d, a, b.drop_last());
        assert((a + b).drop_last() =~= a + b.drop_last());
    }
}

proof fn lemma_deletes(d: Disk, first: int, last: int)
    requires
        0 <= first,
        last <= u64::MAX,
    ensures
        write_all(d, delete_ops(first, last)).meta == d.meta,
        write_all(d, delete_ops(first, last)).files == d.files,
        forall|i: u64|
            #![trigger key_of(i)]
            {
                let rows = write_all(d, delete_ops(first, last)).entries;
                &&& rows.dom().contains(key_of(i)) <==> d.entries.dom().contains(key_of(i)) && !(first
                    <= i <= last)
                &&& rows.dom().contains(key_of(i)) ==> rows[key_of(i)] == d.entries[key_of(i)]
            },
        forall|k: Seq<u8>| #[trigger]
            write_all(d, delete_ops(first, last)).entries.dom().contains(k) ==> d.entries.dom().contains(k),
    decreases last - first + 1,
{
    let ops = delete_ops(first, last);
    if first <= last {
        lemma_deletes(d, first, last - 1);
        assert(ops.drop_last() =~= delete_ops(first, last - 1));
        assert forall|i: u64|
            #![trigger key_of(i)]
            {
                let rows = write_all(d, ops).entries;
                &&& rows.dom().contains(key_of(i)) <==> d.entries.dom().contains(key_of(i)) && !(first
                    <= i <= last)
                &&& rows.dom().contains(key_of(i)) ==> rows[key_of(i)] == d.entries[key_of(i)]
            } by {
            law_index_keys(i, last as u64);
        }
    }
}

proof fn lemma_puts(d: Disk, entries: Seq<EntryView>)
    requires
        forall|i: int, j: int|
            0 <= i < j < entries.len() ==> (#[trigger] entries[i]).index != (
            #[trigger] entries[j]).index,
    ensures
        write_all(d, put_ops(entries)).meta == d.meta,
        write_all(d, put_ops(entries)).files == d.files,
        forall|i: int|
            0 <= i < entries.len() ==> {
                let rows = write_all(d, put_ops(entries)).entries;
                &&& rows.dom().contains(key_of((#[trigger] entries[i]).index))
                &&& rows[key_of(entries[i].index)] == proto::entry_written(entries[i])
            },
        forall|k: u64|
            #![trigger key_of(k)]
            (forall|i: int| 0 <= i < entries.len() ==> (#[trigger] entries[i]).index != k) ==> {
                let rows = write_all(d, put_ops(entries)).entries;
                &&& rows.dom().contains(key_of(k)) <==> d.entries.dom().contains(key_of(k))
                &&& rows.dom().contains(key_of(k)) ==> rows[key_of(k)] == d.entries[key_of(k)]
            },
        forall|k: Seq<u8>| #[trigger]
            write_all(d, put_ops(entries)).entries.dom().contains(k) ==> d.entries.dom().contains(k)
                || k.len() == 8,
    decreases entries.len(),
{
    let ops = put_ops(entries);
    if entries.len() > 0 {
        let front = entries.drop_last();
        let last = entries.last();
        assert forall|i: int, j: int| 0 <= i < j < front.len() implies (#[trigger] front[i]).index
            != (#[trigger] front[j]).index by {
            assert(front[i] == entries[i] && front[j] == entries[j]);
        }
        lemma_puts(d, front);
        assert(ops.drop_last() =~= put_ops(front));
        let mid = write_all(d, put_ops(front));
        law_index_keys(last.index, last.index);
        assert forall|i: int| 0 <= i < entries.len() implies {
            let rows = write_all(d, ops).entries;
            &&& rows.dom().contains(key_of((#[trigger] entries[i]).index))
            &&& rows[key_of(entries[i].index)] == proto::entry_written(entries[i])
        } by {
            if i < front.len() {
                assert(front[i] == entries[i]);
                assert(entries[entries.len() - 1] == last);
                law_index_keys(entries[i].index, last.index);
            }
        }
        assert forall|k: u64|
            #![trigger key_of(k)]
            (forall|i: int| 0 <= i < entries.len() ==> (#[trigger] entries[i]).index != k) implies {
            let rows = write_all(d, ops).entries;
            &&& rows.dom().contains(key_of(k)) <==> d.entries.dom().contains(key_of(k))
            &&& rows.dom().contains(key_of(k)) ==> rows[key_of(k)] == d.entries[key_of(k)]
        } by {
            assert(entries[entries.len() - 1].index != k);
            law_index_keys(k, last.index);
            assert forall|i: int| 0 <= i < front.len() implies (#[trigger] front[i]).index != k by {
                assert(front[i] == entries[i]);
            }
        }
    }
}

/// The entries are consecutive.
pub open spec fn consecutive(entries: Seq<EntryView>) -> bool {
    forall|i: int| 0 <= i < entries.len() ==> (#[trigger] entries[i]).index == entries[0].index + i
}

/// Appending consecutive entries keeps the log before the first of them, stores
/// them, and leaves nothing after the last of them, whose key is the last then.
/// Nothing else on the disk changes.
pub proof fn law_append(d: Disk, entries: Seq<EntryView>, last_key: Option<Seq<u8>>)
    requires
        keys_are_indices(d),
        is_last_key(d, last_key),
        entries.len() > 0,
        consecutive(entries),
        entries_stored(entries),
    ensures
        ({
            let after = write_all(d, append_ops(entries, index_of_key(last_key)));
            let first = entries[0].index as int;
            &&& keys_are_indices(after)
            &&& after.meta == d.meta
            &&& after.files == d.files
            &&& forall|i: u64| i < first ==> (#[trigger] log_of(after).dom().contains(i) <==> log_of(d).dom().contains(i))
            &&& forall|i: u64|
                i < first && log_of(d).dom().contains(i) ==> #[trigger] log_of(after)[i] == log_of(d)[i]
            &&& forall|i: int|
                0 <= i < entries.len() ==> log_of(after).dom().contains((#[trigger] entries[i]).index)
                    && log_of(after)[entries[i].index] == entries[i]
            &&& forall|i: u64|
                i >= first + entries.len() ==> !#[trigger] log_of(after).dom().contains(i)
            &&& is_last_key(after, Some(key_of(entries.last().index)))
        }),
{
    let last = index_of_key(last_key);
    let first = entries[0].index as int;
    if let Some(k) = last_key {
        bytes::lemma_powers();
        bytes::lemma_be_value_bound(k);
        bytes::law_be_bytes_of_value(k);
        assert(k == key_of(last as u64));
    }
    let mid = write_all(d, delete_ops(first, last));
    let after = write_all(d, append_ops(entries, last));
    lemma_write_all_append(d, delete_ops(first, last), put_ops(entries));
    lemma_deletes(d, first, last);
    lemma_puts(mid, entries);
    assert forall|i: u64| i > last implies !(#[trigger] d.entries.dom().contains(key_of(i))) by {
        if let Some(k) = last_key {
            law_index_keys(last as u64, i);
        }
    }
    assert forall|i: u64| i < first implies (#[trigger] log_of(after).dom().contains(i)
        <==> log_of(d).dom().contains(i)) && (log_of(d).dom().contains(i) ==> log_of(after)[i]
        == log_of(d)[i]) by {
        assert(forall|k: int| 0 <= k < entries.len() ==> (#[trigger] entries[k]).index != i);
        let key = key_of(i);
    }
    assert forall|i: u64| i >= first + entries.len() implies !#[trigger] after.entries.dom().contains(
        key_of(i),
    ) by {
        assert(forall|k: int| 0 <= k < entries.len() ==> (#[trigger] entries[k]).index != i);
        if i > last {
            assert(!d.entries.dom().contains(key_of(i)));
        }
    }
    assert forall|i: u64| i >= first + entries.len() implies !#[trigger] log_of(
        after,
    ).dom().contains(i) by {
        assert(!after.entries.dom().contains(key_of(i)));
    }
    let end = entries[entries.len() - 1].index;
    assert(after.entries.dom().contains(key_of(end)));
    assert forall|other: Seq<u8>| #[trigger] after.entries.dom().contains(other) implies !bytes::lex_less(
        key_of(end),
        other,
    ) by {
        bytes::lemma_powers();
        bytes::lemma_be_value_bound(other);
        bytes::law_be_bytes_of_value(other);
        let i = bytes::be_value(other) as u64;
        assert(other == key_of(i));
        law_index_keys(end, i);
        if i > end {
            assert(!after.entries.dom().contains(key_of(i)));
        }
    }
}

/// Compacting deletes the indices below `compact_to` and keeps the others.
pub proof fn law_compact(d: Disk, compact_to: u64)
    requires
        keys_are_indices(d),
    ensures
        ({
            let after = write_one(d, compact_op(compact_to));
            &&& keys_are_indices(after)
            &&& after.meta == d.meta
            &&& after.files == d.files
            &&& forall|i: u64| #[trigger] log_of(after).dom().contains(i) <==> log_of(
                d,
            ).dom().contains(i) && i >= compact_to
            &&& forall|i: u64|
                log_of(after).dom().contains(i) ==> #[trigger] log_of(after)[i] == log_of(d)[i]
        }),
{
    let after = write_one(d, compact_op(compact_to));
    assert forall|i: u64| d.entries.dom().contains(#[trigger] key_of(i)) implies (
    after.entries.dom().contains(key_of(i)) <==> i >= compact_to) by {
        law_index_keys(i, 0);
        law_index_keys(i, compact_to);
    }
    assert forall|i: u64| #[trigger] log_of(after).dom().contains(i) <==> log_of(d).dom().contains(i)
        && i >= compact_to by {
        let key = key_of(i);
    }
    assert forall|i: u64| log_of(after).dom().contains(i) implies #[trigger] log_of(after)[i]
        == log_of(d)[i] by {
        let key = key_of(i);
    }
}

/// The write that deletes the indices below `compact_to`.
pub open spec fn compact_op(compact_to: u64) -> WriteOpView {
    WriteOpView::DeleteRange {
        family: Family::Entries,
        from: key_of(0),
        to: key_of(compact_to),
    }
}

impl RaftStorage {
    /// Says how to drop the entries below `compact_to`, which a snapshot covers.
    pub fn compact(&self, compact_to: u64) -> (op: WriteOp)
        ensures
            op@ == compact_op(compact_to),
    {
        WriteOp::DeleteRange {
            family: Family::Entries,
            from: key_vec(0),
            to: key_vec(compact_to),
        }
    }
}

// ---------------------------------------------------------------------------
// State beside the log
// ---------------------------------------------------------------------------

pub open spec fn put_meta(key: Seq<u8>, value: Seq<u8>) -> WriteOpView {
    WriteOpView::Put { family: Family::Meta, key, value }
}

pub open spec fn opt_vec(b: Option<Vec<u8>>) -> Option<Seq<u8>> {
    match b {
        Some(v) => Some(v@),
        None => None,
    }
}

/// The hard state that a row holds: `None` where the row cannot be parsed, the
/// initial one where there is no row.
pub open spec fn hard_state_at(row: Option<Seq<u8>>) -> Option<HardState> {
    match row {
        Some(b) => proto::hard_state_parsed(b),
        None => Some(HardState { term: 0, vote: 0, commit: 0 }),
    }
}

/// The conf state that a row holds: `None` where the row cannot be parsed, that
/// of the given voters where there is no row.
pub open spec fn conf_state_at(row: Option<Seq<u8>>, voters: Seq<u64>) -> Option<ConfStateView> {
    match row {
        Some(b) => proto::conf_state_parsed(b),
        None => Some(proto::voters_only(voters)),
    }
}

/// The write that stores the initial hard state where there is no row.
pub open spec fn hard_state_seed(row: Option<Seq<u8>>) -> Seq<WriteOpView> {
    if row is Some {
        Seq::empty()
    } else {
        let hs = HardState { term: 0, vote: 0, commit: 0 };
        seq![put_meta(hard_state_key(), proto::hard_state_written(hs))]
    }
}

/// The write that stores the first conf state where there is no row.
pub open spec fn conf_state_seed(row: Option<Seq<u8>>, voters: Seq<u64>) -> Seq<WriteOpView> {
    if row is Some {
        Seq::empty()
    } else {
        seq![put_meta(conf_state_key(), proto::conf_state_written(proto::voters_only(voters)))]
    }
}

/// The write that stores the zeroth entry in an empty log.
pub open spec fn log_seed(log_is_empty: bool) -> Seq<WriteOpView> {
    if !log_is_empty {
        Seq::empty()
    } else {
        seq![
            WriteOpView::Put {
                family: Family::Entries,
                key: key_of(0),
                value: proto::entry_written(proto::zero_entry()),
            },
        ]
    }
}

/// What opening a disk comes to: the writes to make, and the state, unless
/// something on the disk could not be parsed. The writes up to that point are
/// made all the same.
pub open spec fn opened(
    hard_row: Option<Seq<u8>>,
    conf_row: Option<Seq<u8>>,
    log_is_empty: bool,
    voters: Seq<u64>,
) -> (Seq<WriteOpView>, Option<(HardState, ConfStateView)>) {
    let first = hard_state_seed(hard_row);
    let second = conf_state_seed(conf_row, voters);
    match (hard_state_at(hard_row), conf_state_at(conf_row, voters)) {
        (None, _) => (Seq::empty(), None),
        (Some(_), None) => (first, None),
        (Some(hs), Some(cs)) => (first + second + log_seed(log_is_empty), Some((hs, cs))),
    }
}

/// What opening a disk stores on first use can be read back.
pub open spec fn seeds_read_back(
    hard_row: Option<Seq<u8>>,
    conf_row: Option<Seq<u8>>,
    log_is_empty: bool,
    voters: Seq<u64>,
) -> bool {
    &&& hard_row is None ==> {
        let hs = HardState { term: 0, vote: 0, commit: 0 };
        proto::hard_state_parsed(proto::hard_state_written(hs)) == Some(hs)
    }
    &&& conf_row is None ==> {
        let cs = proto::voters_only(voters);
        proto::conf_state_parsed(proto::conf_state_written(cs)) == Some(cs)
    }
    &&& log_is_empty ==> proto::entry_parsed(proto::entry_written(proto::zero_entry())) == Some(
        proto::zero_entry(),
    )
}

/// The rows beside the log have different keys, each of which is a name in ASCII.
pub proof fn law_meta_keys()
    ensures
        hard_state_key().map_values(|b: u8| b as char) == "hard_state"@,
        conf_state_key().map_values(|b: u8| b as char) == "conf_state"@,
        applied_index_key().map_values(|b: u8| b as char) == "applied_index"@,
        snapshot_meta_key().map_values(|b: u8| b as char) == "snapshot_meta"@,
{
    reveal_strlit("hard_state");
    reveal_strlit("conf_state");
    reveal_strlit("applied_index");
    reveal_strlit("snapshot_meta");
    assert(hard_state_key().map_values(|b: u8| b as char) =~= "hard_state"@);
    assert(conf_state_key().map_values(|b: u8| b as char) =~= "conf_state"@);
    assert(applied_index_key().map_values(|b: u8| b as char) =~= "applied_index"@);
    assert(snapshot_meta_key().map_values(|b: u8| b as char) =~= "snapshot_meta"@);
}

/// A disk that is used for the first time opens to a state in which nothing was voted on or
/// committed and the given voters, and nobody else, are the members. A row that is there is
/// taken as it is, whatever voters are given, and opening fails exactly if one cannot be
/// parsed.
pub proof fn law_open(
    hard_row: Option<Seq<u8>>,
    conf_row: Option<Seq<u8>>,
    log_is_empty: bool,
    voters: Seq<u64>,
)
    ensures
        ({
            let state = opened(hard_row, conf_row, log_is_empty, voters).1;
            &&& state is None <==> (hard_row matches Some(b) && proto::hard_state_parsed(b) is None)
                || (conf_row matches Some(b) && proto::conf_state_parsed(b) is None)
            &&& state matches Some((hs, cs)) ==> {
                &&& hard_row is None ==> hs.term == 0 && hs.vote == 0 && hs.commit == 0
                &&& hard_row matches Some(b) ==> proto::hard_state_parsed(b) == Some(hs)
                &&& conf_row matches Some(b) ==> proto::conf_state_parsed(b) == Some(cs)
                &&& conf_row is None ==> {
                    &&& cs.voters == voters
                    &&& cs.learners.len() == 0
                    &&& cs.voters_outgoing.len() == 0
                    &&& cs.learners_next.len() == 0
                    &&& !cs.auto_leave
                }
            }
        }),
{
}

/// A hard state and a conf state that were stored are those that the disk opens to next.
pub proof fn law_state_survives(d: Disk, hs: HardState, cs: ConfStateView, voters: Seq<u64>)
    requires
        proto::hard_state_parsed(proto::hard_state_written(hs)) == Some(hs),
        proto::conf_state_parsed(proto::conf_state_written(cs)) == Some(cs),
    ensures
        ({
            let one = write_one(d, put_meta(hard_state_key(), proto::hard_state_written(hs)));
            let two = write_one(one, put_meta(conf_state_key(), proto::conf_state_written(cs)));
            &&& opened(
                meta_row(two, hard_state_key()),
                meta_row(two, conf_state_key()),
                two.entries.dom() =~= Set::empty(),
                voters,
            ).1 == Some((hs, cs))
            &&& two.entries == d.entries
            &&& two.files == d.files
        }),
{
    assert(hard_state_key()[0] != conf_state_key()[0]);
    assert(hard_state_key() != conf_state_key());
}

/// A disk that was opened once opens again to the same state, whatever voters
/// are given, and without a write. Its log holds an entry. A log that was there stays as
/// it is, and so do the applied index and the latest snapshot.
pub proof fn law_reopen(d: Disk, voters: Seq<u64>, later_voters: Seq<u64>)
    requires
        ({
            let hard_row = meta_row(d, hard_state_key());
            let conf_row = meta_row(d, conf_state_key());
            let empty = d.entries.dom() =~= Set::empty();
            &&& opened(hard_row, conf_row, empty, voters).1 is Some
            &&& seeds_read_back(hard_row, conf_row, empty, voters)
        }),
    ensures
        ({
            let empty = d.entries.dom() =~= Set::empty();
            let (writes, state) = opened(
                meta_row(d, hard_state_key()),
                meta_row(d, conf_state_key()),
                empty,
                voters,
            );
            let after = write_all(d, writes);
            &&& opened(
                meta_row(after, hard_state_key()),
                meta_row(after, conf_state_key()),
                after.entries.dom() =~= Set::empty(),
                later_voters,
            ) == (Seq::<WriteOpView>::empty(), state)
            &&& !(after.entries.dom() =~= Set::empty())
            &&& empty ==> log_of(after).dom().contains(0) && log_of(after)[0] == proto::zero_entry()
            &&& !empty ==> after.entries == d.entries
            &&& after.files == d.files
            &&& meta_row(after, applied_index_key()) == meta_row(d, applied_index_key())
            &&& meta_row(after, snapshot_meta_key()) == meta_row(d, snapshot_meta_key())
        }),
{
    let hard_row = meta_row(d, hard_state_key());
    let conf_row = meta_row(d, conf_state_key());
    let empty = d.entries.dom() =~= Set::empty();
    let first = hard_state_seed(hard_row);
    let second = conf_state_seed(conf_row, voters);
    let third = log_seed(empty);
    let a = write_all(d, first);
    let b = write_all(a, second);
    let c = write_all(b, third);
    lemma_write_all_append(d, first, second);
    lemma_write_all_append(d, first + second, third);
    lemma_write_few(d, first);
    lemma_write_few(a, second);
    lemma_write_few(b, third);
    assert(hard_state_key()[0] != conf_state_key()[0]);
    assert(hard_state_key() != conf_state_key());
    assert(applied_index_key()[0] != conf_state_key()[0]);
    assert(applied_index_key()[0] != hard_state_key()[0]);
    assert(snapshot_meta_key()[0] != conf_state_key()[0]);
    assert(snapshot_meta_key()[0] != hard_state_key()[0]);
    if empty {
        assert(c.entries.dom().contains(key_of(0)));
    } else {
        assert(c.entries == d.entries);
    }
    assert(Seq::<WriteOpView>::empty() + Seq::<WriteOpView>::empty() + Seq::<WriteOpView>::empty()
        =~= Seq::<WriteOpView>::empty());
}

proof fn lemma_write_few(d: Disk, ops: Seq<WriteOpView>)
    ensures
        ops.len() == 0 ==> write_all(d, ops) == d,
        ops.len() == 1 ==> write_all(d, ops) == write_one(d, ops[0]),
{
    reveal_with_fuel(write_all, 2);
}

/// What to do to open a disk.
#[derive(Debug)]
pub struct OpenPlan {
    /// To be made in order, each durable before the next.
    pub writes: Vec<WriteOp>,
    pub storage: Result<RaftStorage, RaftStorageError>,
}

impl RaftStorage {
    /// Opens a disk: takes the hard state and the conf state from their rows,
    /// and on first use seeds them, the conf state with `bootstrap_voters`, and
    /// puts a zeroth entry into the empty log.
    pub fn open(
        hard_row: Option<Vec<u8>>,
        conf_row: Option<Vec<u8>>,
        log_is_empty: bool,
        bootstrap_voters: Vec<u64>,
    ) -> (plan: OpenPlan)
        requires
            conf_row is None ==> proto::conf_state_fits(proto::voters_only(bootstrap_voters@)),
        ensures
            ops_view(plan.writes@) == opened(
                opt_vec(hard_row),
                opt_vec(conf_row),
                log_is_empty,
                bootstrap_voters@,
            ).0,
            match plan.storage {
                Ok(storage) => opened(
                    opt_vec(hard_row),
                    opt_vec(conf_row),
                    log_is_empty,
                    bootstrap_voters@,
                ).1 == Some((storage.hard_state, storage.conf_state@)) && seeds_read_back(
                    opt_vec(hard_row),
                    opt_vec(conf_row),
                    log_is_empty,
                    bootstrap_voters@,
                ),
                Err(RaftStorageError::Protobuf(_)) => opened(
                    opt_vec(hard_row),
                    opt_vec(conf_row),
                    log_is_empty,
                    bootstrap_voters@,
                ).1 is None,
                Err(_) => false,
            },
    {
        let mut writes: Vec<WriteOp> = Vec::new();
        assert(ops_view(writes@) =~= Seq::empty());
        let hard_state: HardState = match hard_row {
            Some(b) => match parse_hard_state(b.as_slice()) {
                Ok(hs) => hs,
                Err(e) => {
                    return OpenPlan { writes, storage: Err(RaftStorageError::Protobuf(e)) };
                },
            },
            None => {
                let hs: HardState = HardState { term: 0, vote: 0, commit: 0 };
                match write_hard_state(&hs) {
                    Ok(value) => writes.push(
                        WriteOp::Put { family: Family::Meta, key: hard_state_row(), value },
                    ),
                    Err(e) => {
                        return OpenPlan { writes, storage: Err(RaftStorageError::Protobuf(e)) };
                    },
                }
                hs
            },
        };
        let ghost first = hard_state_seed(opt_vec(hard_row));
        assert(ops_view(writes@) =~= first);
        let ghost voters = bootstrap_voters@;
        let conf_state: ConfState = match conf_row {
            Some(b) => match parse_conf_state(b.as_slice()) {
                Ok(cs) => cs,
                Err(e) => {
                    return OpenPlan { writes, storage: Err(RaftStorageError::Protobuf(e)) };
                },
            },
            None => {
                let cs: ConfState = ConfState::with_voters(bootstrap_voters);
                match write_conf_state(&cs) {
                    Ok(value) => writes.push(
                        WriteOp::Put { family: Family::Meta, key: conf_state_row(), value },
                    ),
                    Err(e) => {
                        return OpenPlan { writes, storage: Err(RaftStorageError::Protobuf(e)) };
                    },
                }
                cs
            },
        };
        let ghost second = conf_state_seed(opt_vec(conf_row), voters);
        assert(ops_view(writes@) =~= first + second);
        if log_is_empty {
            let zero: Entry = Entry::default();
            match write_entry(&zero) {
                Ok(value) => writes.push(
                    WriteOp::Put { family: Family::Entries, key: key_vec(0), value },
                ),
                Err(e) => {
                    return OpenPlan { writes, storage: Err(RaftStorageError::Protobuf(e)) };
                },
            }
        }
        assert(ops_view(writes@) =~= first + second + log_seed(log_is_empty));
        OpenPlan { writes, storage: Ok(RaftStorage { hard_state, conf_state }) }
    }

    /// Says how to store a hard state. `hard_state_saved` is to follow.
    pub fn set_hard_state(&self, hs: &HardState) -> (r: Result<WriteOp, RaftStorageError>)
        ensures
            match r {
                Ok(op) => op@ == put_meta(hard_state_key(), proto::hard_state_written(*hs))
                    && proto::hard_state_parsed(proto::hard_state_written(*hs)) == Some(*hs),
                Err(_) => false,
            },
    {
        match write_hard_state(hs) {
            Ok(value) => Ok(WriteOp::Put { family: Family::Meta, key: hard_state_row(), value }),
            Err(e) => Err(RaftStorageError::Protobuf(e)),
        }
    }

    /// Takes over a hard state that is on disk.
    pub fn hard_state_saved(&mut self, hs: HardState)
        ensures
            final(self).hard_state == hs,
            final(self).conf_state == old(self).conf_state,
    {
        self.hard_state = hs;
    }

    /// Says how to store a conf state. `conf_state_saved` is to follow.
    pub fn set_conf_state(&self, cs: &ConfState) -> (r: Result<WriteOp, RaftStorageError>)
        requires
            proto::conf_state_fits(cs@),
        ensures
            match r {
                Ok(op) => op@ == put_meta(conf_state_key(), proto::conf_state_written(cs@))
                    && proto::conf_state_parsed(proto::conf_state_written(cs@)) == Some(cs@),
                Err(_) => false,
            },
    {
        match write_conf_state(cs) {
            Ok(value) => Ok(WriteOp::Put { family: Family::Meta, key: conf_state_row(), value }),
            Err(e) => Err(RaftStorageError::Protobuf(e)),
        }
    }

    /// Takes over a conf state that is on disk.
    pub fn conf_state_saved(&mut self, cs: ConfState)
        ensures
            final(self).conf_state == cs,
            final(self).hard_state == old(self).hard_state,
    {
        self.conf_state = cs;
    }

    /// Says how to store the applied index.
    pub fn set_applied_index(&self, idx: u64) -> (op: WriteOp)
        ensures
            op@ == put_meta(applied_index_key(), key_of(idx)),
    {
        WriteOp::Put { family: Family::Meta, key: applied_index_row(), value: key_vec(idx) }
    }

    /// The applied index that a row holds, if it holds one.
    pub fn applied_index(&self, row: Option<&[u8]>) -> (r: Option<u64>)
        ensures
            r == applied_at(opt_bytes(row)),
    {
        match row {
            Some(b) if b.len() == 8 => {
                assert(b@.subrange(0, 8) =~= b@);
                Some(read_u64_be(b, 0))
            },
            _ => None,
        }
    }

    /// The applied index that a row holds, 0 where it holds none.
    pub fn applied_index_or_zero(&self, row: Option<&[u8]>) -> (r: u64)
        ensures
            r == (match applied_at(opt_bytes(row)) {
                Some(idx) => idx,
                None => 0,
            }),
    {
        match self.applied_index(row) {
            Some(idx) => idx,
            None => 0,
        }
    }
}

/// The applied index that a row of eight bytes holds.
pub open spec fn applied_at(row: Option<Seq<u8>>) -> Option<u64> {
    match row {
        Some(b) => if b.len() == 8 {
            Some(bytes::be_value(b) as u64)
        } else {
            None
        },
        None => None,
    }
}

/// The row of a meta key.
pub open spec fn meta_row(d: Disk, key: Seq<u8>) -> Option<Seq<u8>> {
    if d.meta.dom().contains(key) {
        Some(d.meta[key])
    } else {
        None
    }
}

/// The applied index that was stored is read back.
pub proof fn law_applied_index(d: Disk, idx: u64)
    ensures
        applied_at(
            meta_row(
                write_one(d, put_meta(applied_index_key(), key_of(idx))),
                applied_index_key(),
            ),
        ) == Some(idx),
{
    bytes::lemma_powers();
    bytes::lemma_be_bytes_len(idx as nat, 8);
    bytes::law_be_value_of_bytes(idx as nat, 8);
}

// ---------------------------------------------------------------------------
// Snapshots
// ---------------------------------------------------------------------------

/// The file that holds the data of the latest snapshot.
pub const SNAPSHOT_DATA_FILE: &'static str = "snapshot.bin";

/// The file that the data of a snapshot is written to first.
pub const SNAPSHOT_TEMP_FILE: &'static str = "snapshot.bin.tmp";

/// A change to the storage directory.
#[derive(Debug, PartialEq, Eq)]
pub enum FileStep {
    /// Creates the file, or replaces what it holds.
    WriteFile { name: String, data: Vec<u8> },
    /// Gives the file another name, in one step, in place of what had that name.
    Rename { from: String, to: String },
}

#[verifier::ext_equal]
pub enum FileStepView {
    WriteFile { name: Seq<char>, data: Seq<u8> },
    Rename { from: Seq<char>, to: Seq<char> },
}

impl View for FileStep {
    type V = FileStepView;

    open spec fn view(&self) -> FileStepView {
        match self {
            FileStep::WriteFile { name, data } => FileStepView::WriteFile {
                name: name@,
                data: data@,
            },
            FileStep::Rename { from, to } => FileStepView::Rename { from: from@, to: to@ },
        }
    }
}

pub open spec fn steps_view(steps: Seq<FileStep>) -> Seq<FileStepView> {
    Seq::new(steps.len(), |i: int| steps[i]@)
}

/// The disk after one change to the directory.
pub open spec fn file_one(d: Disk, step: FileStepView) -> Disk {
    Disk {
        entries: d.entries,
        meta: d.meta,
        files: match step {
            FileStepView::WriteFile { name, data } => d.files.insert(name, data),
            FileStepView::Rename { from, to } => d.files.remove(from).insert(to, d.files[from]),
        },
    }
}

/// The changes that put the data of a snapshot in place.
pub open spec fn data_steps(data: Seq<u8>) -> Seq<FileStepView> {
    seq![
        FileStepView::WriteFile { name: SNAPSHOT_TEMP_FILE@, data },
        FileStepView::Rename { from: SNAPSHOT_TEMP_FILE@, to: SNAPSHOT_DATA_FILE@ },
    ]
}

/// What to do to save a snapshot.
#[derive(Debug)]
pub struct SavePlan {
    /// To be made first, in order.
    pub files: Vec<FileStep>,
    /// To be made last, so that a crash on the way leaves the metadata of a
    /// snapshot whose data is complete.
    pub metadata: Result<WriteOp, RaftStorageError>,
}

/// The metadata that a row holds: `None` where the row cannot be parsed.
pub open spec fn metadata_at(row: Option<Seq<u8>>) -> Option<Option<SnapshotMetadataView>> {
    match row {
        None => Some(None),
        Some(b) => match proto::metadata_parsed(b) {
            Some(m) => Some(Some(m)),
            None => None,
        },
    }
}

/// The latest snapshot: its metadata with the data in the file, no data at all
/// where there is no file.
pub open spec fn snapshot_at(row: Option<Seq<u8>>, file: Option<Seq<u8>>) -> Option<
    Option<SnapshotView>,
> {
    match metadata_at(row) {
        None => None,
        Some(None) => Some(None),
        Some(Some(metadata)) => Some(
            Some(
                SnapshotView {
                    data: match file {
                        Some(data) => data,
                        None => Seq::empty(),
                    },
                    metadata,
                },
            ),
        ),
    }
}

pub open spec fn data_file(d: Disk) -> Option<Seq<u8>> {
    if d.files.dom().contains(SNAPSHOT_DATA_FILE@) {
        Some(d.files[SNAPSHOT_DATA_FILE@])
    } else {
        None
    }
}

fn copy_bytes(b: &Vec<u8>) -> (r: Vec<u8>)
    ensures
        r@ == b@,
{
    let mut r: Vec<u8> = Vec::new();
    r.extend_from_slice(b.as_slice());
    assert(r@ =~= b@);
    r
}

/// Why the log or a snapshot cannot be read.
#[derive(Debug)]
pub enum StorageReadError {
    /// The log does not hold the index.
    Unavailable,
    /// The latest snapshot is older than what was asked for.
    SnapshotTemporarilyUnavailable,
    Other(RaftStorageError),
}

/// Whether a plan saves a snapshot: the data first, then metadata that is read back
/// as it was written.
pub open spec fn saves(plan: SavePlan, snapshot: SnapshotView) -> bool {
    &&& steps_view(plan.files@) == data_steps(snapshot.data)
    &&& match plan.metadata {
        Ok(op) => op@ == put_meta(
            snapshot_meta_key(),
            proto::metadata_written(snapshot.metadata),
        ) && proto::metadata_parsed(proto::metadata_written(snapshot.metadata)) == Some(
            snapshot.metadata,
        ),
        Err(_) => false,
    }
}

impl RaftStorage {
    /// Says how to save a snapshot: the data into a file of its own, then the
    /// metadata. Only the latest snapshot is kept.
    pub fn save_snapshot(&self, snapshot: &Snapshot) -> (plan: SavePlan)
        requires
            proto::conf_state_fits(snapshot@.metadata.conf_state),
        ensures
            saves(plan, snapshot@),
    {
        let mut files: Vec<FileStep> = Vec::new();
        files.push(
            FileStep::WriteFile {
                name: SNAPSHOT_TEMP_FILE.to_owned(),
                data: copy_bytes(&snapshot.data),
            },
        );
        files.push(
            FileStep::Rename {
                from: SNAPSHOT_TEMP_FILE.to_owned(),
                to: SNAPSHOT_DATA_FILE.to_owned(),
            },
        );
        assert(steps_view(files@) =~= data_steps(snapshot@.data));
        let metadata: Result<WriteOp, RaftStorageError> = match write_metadata(&snapshot.metadata) {
            Ok(value) => Ok(
                WriteOp::Put { family: Family::Meta, key: snapshot_meta_row(), value },
            ),
            Err(e) => Err(RaftStorageError::Protobuf(e)),
        };
        SavePlan { files, metadata }
    }

    /// The latest snapshot, from the row of its metadata and the file of its
    /// data, `None` where there is no such file.
    pub fn read_snapshot(&self, row: Option<&[u8]>, file: Option<Vec<u8>>) -> (r: Result<
        Option<Snapshot>,
        RaftStorageError,
    >)
        ensures
            match r {
                Ok(Some(snapshot)) => snapshot_at(opt_bytes(row), opt_vec(file)) == Some(
                    Some(snapshot@),
                ),
                Ok(None) => row is None,
                Err(RaftStorageError::Protobuf(_)) => snapshot_at(
                    opt_bytes(row),
                    opt_vec(file),
                ) is None,
                Err(_) => false,
            },
    {
        match row {
            None => Ok(None),
            Some(b) => match parse_metadata(b) {
                Err(e) => Err(RaftStorageError::Protobuf(e)),
                Ok(metadata) => {
                    let data: Vec<u8> = match file {
                        Some(data) => data,
                        None => Vec::new(),
                    };
                    let snapshot: Snapshot = Snapshot { data, metadata };
                    assert(snapshot_at(opt_bytes(row), opt_vec(file)) == Some(Some(snapshot@))) by {
                        assert(data@ =~= (match opt_vec(file) {
                            Some(d) => d,
                            None => Seq::empty(),
                        }));
                    }
                    Ok(Some(snapshot))
                },
            },
        }
    }

    /// The index of the latest snapshot, 0 where there is none.
    pub fn snapshot_index(&self, row: Option<&[u8]>) -> (r: Result<u64, RaftStorageError>)
        ensures
            match r {
                Ok(index) => metadata_at(opt_bytes(row)) matches Some(m) && index == (match m {
                    Some(metadata) => metadata.index,
                    None => 0,
                }),
                Err(RaftStorageError::Protobuf(_)) => metadata_at(opt_bytes(row)) is None,
                Err(_) => false,
            },
    {
        match row {
            None => Ok(0),
            Some(b) => match parse_metadata(b) {
                Err(e) => Err(RaftStorageError::Protobuf(e)),
                Ok(metadata) => Ok(metadata.index),
            },
        }
    }

    /// The latest snapshot, if it reaches `request_index`.
    pub fn snapshot(&self, request_index: u64, row: Option<&[u8]>, file: Option<Vec<u8>>) -> (r:
        Result<Snapshot, StorageReadError>)
        ensures
            match snapshot_at(opt_bytes(row), opt_vec(file)) {
                None => r matches Err(StorageReadError::Other(RaftStorageError::Protobuf(_))),
                Some(Some(s)) => if reaches(s, request_index) {
                    r matches Ok(snapshot) && snapshot@ == s
                } else {
                    r matches Err(StorageReadError::SnapshotTemporarilyUnavailable)
                },
                Some(None) => r matches Err(StorageReadError::SnapshotTemporarilyUnavailable),
            },
    {
        match self.read_snapshot(row, file) {
            Err(e) => Err(StorageReadError::Other(e)),
            Ok(Some(snapshot)) => if snapshot.metadata.index >= request_index {
                Ok(snapshot)
            } else {
                Err(StorageReadError::SnapshotTemporarilyUnavailable)
            },
            Ok(None) => Err(StorageReadError::SnapshotTemporarilyUnavailable),
        }
    }
}

/// Without a row there is no snapshot; with a row that can be parsed there is one of that
/// metadata, without data where the file is absent.
pub proof fn law_snapshot_parts(row: Option<Seq<u8>>, file: Option<Seq<u8>>)
    ensures
        snapshot_at(row, file) matches Some(None) <==> row is None,
        row matches Some(b) ==> (snapshot_at(row, file) is None <==> proto::metadata_parsed(b) is None),
        snapshot_at(row, file) matches Some(Some(s)) ==> proto::metadata_parsed(row->0) == Some(
            s.metadata,
        ) && (file matches Some(data) ==> s.data == data) && (file is None ==> s.data.len() == 0),
{
}

/// Saving a snapshot, interrupted anywhere: the data file is what it was or the
/// whole new data, and the metadata is what it was until the new data is in
/// place. Once saved, the snapshot is read back. The log does not change.
pub proof fn law_save_snapshot(d: Disk, snapshot: SnapshotView)
    requires
        proto::metadata_parsed(proto::metadata_written(snapshot.metadata)) == Some(
            snapshot.metadata,
        ),
    ensures
        ({
            let one = file_one(d, data_steps(snapshot.data)[0]);
            let two = file_one(one, data_steps(snapshot.data)[1]);
            let three = write_one(
                two,
                put_meta(snapshot_meta_key(), proto::metadata_written(snapshot.metadata)),
            );
            &&& data_file(one) == data_file(d) && one.meta == d.meta
            &&& data_file(two) == Some(snapshot.data) && two.meta == d.meta
            &&& data_file(three) == Some(snapshot.data)
            &&& snapshot_at(meta_row(three, snapshot_meta_key()), data_file(three)) == Some(
                Some(snapshot),
            )
            &&& one.entries == d.entries && two.entries == d.entries && three.entries == d.entries
        }),
{
    reveal_strlit("snapshot.bin");
    reveal_strlit("snapshot.bin.tmp");
    assert(SNAPSHOT_DATA_FILE@.len() != SNAPSHOT_TEMP_FILE@.len());
    let one = file_one(d, data_steps(snapshot.data)[0]);
    let two = file_one(one, data_steps(snapshot.data)[1]);
    assert(two.entries == d.entries);
    let op = put_meta(snapshot_meta_key(), proto::metadata_written(snapshot.metadata));
    let three = write_one(two, op);
    let got = SnapshotView { data: snapshot.data, metadata: snapshot.metadata };
    assert(got == snapshot);
}

/// A snapshot that was saved as planned is the latest one then, with its data and its
/// metadata.
pub proof fn law_saved_snapshot_is_read_back(d: Disk, plan: SavePlan, snapshot: SnapshotView)
    requires
        saves(plan, snapshot),
    ensures
        plan.files@.len() == 2,
        plan.metadata matches Ok(op) && ({
            let one = file_one(d, plan.files@[0]@);
            let two = file_one(one, plan.files@[1]@);
            let three = write_one(two, op@);
            &&& snapshot_at(meta_row(three, snapshot_meta_key()), data_file(three)) == Some(
                Some(snapshot),
            )
            &&& three.entries == d.entries
            &&& meta_row(three, hard_state_key()) == meta_row(d, hard_state_key())
            &&& meta_row(three, conf_state_key()) == meta_row(d, conf_state_key())
            &&& meta_row(three, applied_index_key()) == meta_row(d, applied_index_key())
        }),
{
    law_save_snapshot(d, snapshot);
    let steps = steps_view(plan.files@);
    assert(steps.len() == 2);
    assert(steps[0] == plan.files@[0]@ && steps[1] == plan.files@[1]@);
    assert(snapshot_meta_key()[0] != hard_state_key()[0]);
    assert(snapshot_meta_key()[0] != conf_state_key()[0]);
    assert(snapshot_meta_key()[0] != applied_index_key()[0]);
}

// ---------------------------------------------------------------------------
// Reading the log
// ---------------------------------------------------------------------------

impl RaftStorage {
    /// The state to start from.
    pub fn initial_state(&self) -> (r: (&HardState, &ConfState))
        ensures
            *r.0 == self.hard_state,
            *r.1 == self.conf_state,
    {
        (&self.hard_state, &self.conf_state)
    }

    /// The first index of the log, from its first key, but never 0: the zeroth
    /// entry does not count.
    pub fn first_index(&self, first_key: Option<&[u8]>) -> (r: Result<u64, StorageReadError>)
        ensures
            match r {
                Ok(index) => key_is_index(opt_bytes(first_key)) && index == first_index_at(
                    opt_bytes(first_key),
                ),
                Err(StorageReadError::Other(e)) => key_fault(opt_bytes(first_key), e),
                Err(_) => false,
            },
    {
        match key_index(first_key) {
            Ok(first) => Ok(
                if first >= 1 {
                    first
                } else {
                    1
                },
            ),
            Err(e) => Err(StorageReadError::Other(e)),
        }
    }

    /// The last index of the log, from its last key, 0 where the log is empty.
    pub fn last_index(&self, last_key: Option<&[u8]>) -> (r: Result<u64, StorageReadError>)
        ensures
            match r {
                Ok(index) => key_is_index(opt_bytes(last_key)) && index == index_of_key(
                    opt_bytes(last_key),
                ),
                Err(StorageReadError::Other(e)) => key_fault(opt_bytes(last_key), e),
                Err(_) => false,
            },
    {
        match key_index(last_key) {
            Ok(last) => Ok(last),
            Err(e) => Err(StorageReadError::Other(e)),
        }
    }

    /// The term of the entry in a row.
    pub fn term(&self, row: Option<&[u8]>) -> (r: Result<u64, StorageReadError>)
        ensures
            match opt_bytes(row) {
                None => r matches Err(StorageReadError::Unavailable),
                Some(b) => match proto::entry_parsed(b) {
                    Some(e) => r matches Ok(term) && term == e.term,
                    None => r matches Err(StorageReadError::Other(RaftStorageError::Protobuf(_))),
                },
            },
    {
        match row {
            None => Err(StorageReadError::Unavailable),
            Some(b) => match parse_entry(b) {
                Ok(e) => Ok(e.term),
                Err(e) => Err(StorageReadError::Other(RaftStorageError::Protobuf(e))),
            },
        }
    }
}

/// The largest index of the log is its last index; every index is at least the
/// first index, the zeroth entry aside.
pub proof fn law_log_ends(d: Disk, first_key: Option<Seq<u8>>, last_key: Option<Seq<u8>>, i: u64)
    requires
        keys_are_indices(d),
        is_first_key(d, first_key),
        is_last_key(d, last_key),
        d.entries.dom().contains(key_of(i)),
    ensures
        index_of_key(first_key) <= i <= index_of_key(last_key),
        d.entries.dom().contains(key_of(index_of_key(first_key) as u64)),
        d.entries.dom().contains(key_of(index_of_key(last_key) as u64)),
{
    let (f, l) = (first_key->0, last_key->0);
    bytes::lemma_powers();
    bytes::lemma_be_value_bound(f);
    bytes::lemma_be_value_bound(l);
    bytes::law_be_bytes_of_value(f);
    bytes::law_be_bytes_of_value(l);
    law_index_keys(i, bytes::be_value(f) as u64);
    law_index_keys(bytes::be_value(l) as u64, i);
}

/// The first index of a log whose first key is given.
pub open spec fn first_index_at(key: Option<Seq<u8>>) -> int {
    if index_of_key(key) >= 1 {
        index_of_key(key)
    } else {
        1
    }
}

/// The first index of a log is at least 1 and no larger than any index that it holds, the
/// zeroth aside; where it is larger than 1, the log holds it.
pub proof fn law_first_index(d: Disk, first_key: Option<Seq<u8>>, i: u64)
    requires
        keys_are_indices(d),
        is_first_key(d, first_key),
    ensures
        first_index_at(first_key) >= 1,
        d.entries.dom().contains(key_of(i)) && i >= 1 ==> first_index_at(first_key) <= i,
        first_index_at(first_key) > 1 ==> d.entries.dom().contains(
            key_of(first_index_at(first_key) as u64),
        ),
{
    if let Some(f) = first_key {
        bytes::lemma_powers();
        bytes::lemma_be_value_bound(f);
        bytes::law_be_bytes_of_value(f);
        law_index_keys(i, bytes::be_value(f) as u64);
    }
}

/// Whether a snapshot reaches an index.
pub open spec fn reaches(snapshot: SnapshotView, index: u64) -> bool {
    snapshot.metadata.index >= index
}

/// A snapshot reaches the index that it stands at and every index before, and no index
/// behind it.
pub proof fn law_reaches(snapshot: SnapshotView, index: u64)
    ensures
        reaches(snapshot, snapshot.metadata.index),
        index < snapshot.metadata.index ==> reaches(snapshot, index),
        index > snapshot.metadata.index ==> !reaches(snapshot, index),
{
}

/// The row of an index on a disk.
pub open spec fn entry_row(d: Disk, index: u64) -> Option<Seq<u8>> {
    if d.entries.dom().contains(key_of(index)) {
        Some(d.entries[key_of(index)])
    } else {
        None
    }
}

/// What is appended is read back: the row of each new index holds the entry that was
/// appended there, and a scan without a size limit takes it, whatever it took before.
pub proof fn law_read_back(
    d: Disk,
    entries: Seq<EntryView>,
    last_key: Option<Seq<u8>>,
    i: int,
    taken: Seq<Seq<u8>>,
)
    requires
        keys_are_indices(d),
        is_last_key(d, last_key),
        entries.len() > 0,
        consecutive(entries),
        entries_stored(entries),
        0 <= i < entries.len(),
    ensures
        ({
            let after = write_all(d, append_ops(entries, index_of_key(last_key)));
            let row = entry_row(after, entries[i].index);
            &&& row matches Some(b) && proto::entry_parsed(b) == Some(entries[i])
            &&& scan_step(taken, None, row) == ScanStep::Taken(entries[i])
        }),
{
    law_append(d, entries, last_key);
    let after = write_all(d, append_ops(entries, index_of_key(last_key)));
    assert(log_of(after).dom().contains(entries[i].index));
    assert(log_of(after)[entries[i].index] == entries[i]);
}

/// A scan takes the entries of the log: a row of an index that the log holds is taken as
/// that entry, unless the size limit is reached, and the first row always is.
pub proof fn law_scan_takes_the_log(
    d: Disk,
    index: u64,
    taken: Seq<Seq<u8>>,
    limit: Option<u64>,
)
    requires
        log_of(d).dom().contains(index),
    ensures
        ({
            let step = scan_step(taken, limit, entry_row(d, index));
            &&& step == ScanStep::Taken(log_of(d)[index]) || step is Full
            &&& taken.len() == 0 || limit is None ==> step == ScanStep::Taken(log_of(d)[index])
        }),
{
}

proof fn lemma_sizes(rows: Seq<Seq<u8>>)
    ensures
        sum_sizes(rows) == rows.flatten().len(),
    decreases rows.len(),
{
    rows.lemma_flatten_and_flatten_alt_are_equivalent();
    if rows.len() > 0 {
        lemma_sizes(rows.drop_last());
        rows.drop_last().lemma_flatten_and_flatten_alt_are_equivalent();
    }
}

/// A scan with a size limit ends early only where the rows that it took and the next one are
/// together longer than the limit, and never before it took one.
pub proof fn law_scan_ends_at_the_limit(
    taken: Seq<Seq<u8>>,
    limit: Option<u64>,
    row: Seq<u8>,
    e: EntryView,
)
    requires
        proto::entry_parsed(row) == Some(e),
    ensures
        ({
            let step = scan_step(taken, limit, Some(row));
            let over = taken.len() > 0 && (limit matches Some(max) && taken.push(row).flatten().len()
                > max);
            &&& over ==> step is Full
            &&& !over ==> step == ScanStep::Taken(e)
        }),
{
    lemma_sizes(taken);
    lemma_sizes(taken.push(row));
    assert(taken.push(row).drop_last() =~= taken);
}

/// The rows that a scan of a disk takes, up to but not including `high`, once it stands at
/// `next` and took `taken`.
pub open spec fn scanned(
    d: Disk,
    next: int,
    high: int,
    limit: Option<u64>,
    taken: Seq<Seq<u8>>,
) -> Seq<Seq<u8>>
    decreases high - next,
{
    if next >= high {
        taken
    } else {
        match scan_step(taken, limit, entry_row(d, next as u64)) {
            ScanStep::Taken(_) => scanned(
                d,
                next + 1,
                high,
                limit,
                taken.push(d.entries[key_of(next as u64)]),
            ),
            _ => taken,
        }
    }
}

/// The rows of a stretch of the log.
pub open spec fn rows_between(d: Disk, low: int, high: int) -> Seq<Seq<u8>> {
    Seq::new((high - low) as nat, |i: int| d.entries[key_of((low + i) as u64)])
}

proof fn lemma_scanned(
    d: Disk,
    low: int,
    next: int,
    high: int,
    limit: Option<u64>,
    taken: Seq<Seq<u8>>,
)
    requires
        0 <= low <= next <= high <= u64::MAX,
        forall|i: u64| low <= i < high ==> #[trigger] log_of(d).dom().contains(i),
        taken == rows_between(d, low, high).take(next - low),
        taken.len() > 1 ==> (limit matches Some(max) ==> taken.flatten().len() <= max),
    ensures
        ({
            let rows = rows_between(d, low, high);
            let got = scanned(d, next, high, limit, taken);
            let n = got.len() as int;
            &&& taken.len() <= n <= rows.len()
            &&& got == rows.take(n)
            &&& taken.len() == 0 && low < high ==> n > 0
            &&& n > 1 ==> (limit matches Some(max) ==> got.flatten().len() <= max)
            &&& n < rows.len() ==> (limit matches Some(max) && rows.take(n + 1).flatten().len()
                > max)
        }),
    decreases high - next,
{
    let rows = rows_between(d, low, high);
    if next < high {
        assert(log_of(d).dom().contains(next as u64));
        let row = d.entries[key_of(next as u64)];
        assert(rows[next - low] == row);
        assert(rows.take(next - low + 1) =~= taken.push(row));
        let e = proto::entry_parsed(row)->0;
        law_scan_ends_at_the_limit(taken, limit, row, e);
        if scan_step(taken, limit, Some(row)) is Taken {
            lemma_scanned(d, low, next + 1, high, limit, taken.push(row));
        }
    }
}

/// A scan takes the longest stretch of the log, from its low end on, whose rows together stay
/// within the limit, but always the first entry; without a limit it takes the whole stretch.
pub proof fn law_scan_takes_all_that_fits(d: Disk, low: u64, high: u64, limit: Option<u64>)
    requires
        low <= high,
        forall|i: u64| low <= i < high ==> #[trigger] log_of(d).dom().contains(i),
    ensures
        ({
            let rows = rows_between(d, low as int, high as int);
            let got = scanned(d, low as int, high as int, limit, Seq::empty());
            let n = got.len() as int;
            &&& n <= rows.len()
            &&& got == rows.take(n)
            &&& low < high ==> n > 0
            &&& n > 1 ==> (limit matches Some(max) ==> got.flatten().len() <= max)
            &&& n < rows.len() ==> (limit matches Some(max) && rows.take(n + 1).flatten().len()
                > max)
            &&& limit is None ==> got == rows
        }),
{
    let rows = rows_between(d, low as int, high as int);
    assert(rows.take(0) =~= Seq::empty());
    lemma_scanned(d, low as int, low as int, high as int, limit, Seq::empty());
    assert(rows.take(rows.len() as int) =~= rows);
}

/// Reading a stretch of the log, row by row.
pub struct EntriesScan {
    next: u64,
    high: u64,
    max_size: Option<u64>,
    total: u64,
    full: bool,
    entries: Vec<Entry>,
    rows: Ghost<Seq<Seq<u8>>>,
}

/// How a scan goes on with a row.
pub enum ScanStep {
    /// There is no row: the index is not available.
    Missing,
    /// The row does not hold an entry.
    Malformed,
    /// The entry would exceed the size limit: the scan ends without it.
    Full,
    /// The entry is taken.
    Taken(EntryView),
}

/// The sizes of the rows that a scan took, added up.
pub open spec fn sum_sizes(rows: Seq<Seq<u8>>) -> int
    decreases rows.len(),
{
    if rows.len() == 0 {
        0
    } else {
        sum_sizes(rows.drop_last()) + rows.last().len()
    }
}

/// How a scan that took `rows` goes on with the next one: the first entry is
/// always taken, a further one as long as the sizes stay within the limit.
pub open spec fn scan_step(rows: Seq<Seq<u8>>, max_size: Option<u64>, row: Option<Seq<u8>>) -> ScanStep {
    match row {
        None => ScanStep::Missing,
        Some(b) => match proto::entry_parsed(b) {
            None => ScanStep::Malformed,
            Some(e) => if rows.len() > 0 && max_size is Some && sum_sizes(rows) + b.len()
                > max_size->0 {
                ScanStep::Full
            } else {
                ScanStep::Taken(e)
            },
        },
    }
}

impl EntriesScan {
    pub closed spec fn low(self) -> int {
        self.next - self.entries@.len()
    }

    pub closed spec fn high(self) -> u64 {
        self.high
    }

    pub closed spec fn limit(self) -> Option<u64> {
        self.max_size
    }

    pub closed spec fn ended(self) -> bool {
        self.full
    }

    pub closed spec fn taken(self) -> Seq<EntryView> {
        proto::entries_view(self.entries@)
    }

    /// The rows that the scan took so far.
    pub closed spec fn rows(self) -> Seq<Seq<u8>> {
        self.rows@
    }

    /// The entries taken are those of the rows, in order, from the low end.
    pub closed spec fn well_formed(self) -> bool {
        &&& self.rows@.len() == self.entries@.len()
        &&& 0 <= self.low()
        &&& self.entries@.len() > 0 ==> self.next <= self.high
        &&& forall|i: int|
            0 <= i < self.rows@.len() ==> proto::entry_parsed(#[trigger] self.rows@[i]) == Some(
                self.entries@[i]@,
            )
        &&& self.max_size is Some ==> self.total == sum_sizes(self.rows@)
    }

    /// Starts to read the indices from `low` up to but not including `high`.
    pub fn new(low: u64, high: u64, max_size: Option<u64>) -> (s: EntriesScan)
        ensures
            s.well_formed(),
            s.rows() == Seq::<Seq<u8>>::empty(),
            s.low() == low,
            s.high() == high,
            s.limit() == max_size,
            s.taken() == Seq::<EntryView>::empty(),
            !s.ended(),
    {
        let s: EntriesScan = EntriesScan {
            next: low,
            high,
            max_size,
            total: 0,
            full: false,
            entries: Vec::new(),
            rows: Ghost(Seq::empty()),
        };
        assert(s.taken() =~= Seq::<EntryView>::empty());
        s
    }

    /// The key of the row to read next, `None` where the scan is at its end.
    pub fn next_key(&self) -> (key: Option<[u8; 8]>)
        requires
            self.well_formed(),
        ensures
            match key {
                Some(k) => !self.ended() && self.low() + self.taken().len() < self.high() && k@
                    == key_of((self.low() + self.taken().len()) as u64),
                None => self.ended() || self.low() + self.taken().len() >= self.high(),
            },
    {
        if !self.full && self.next < self.high {
            Some(index_key(self.next))
        } else {
            None
        }
    }

    /// Goes on with the row of the key that `next_key` gave.
    pub fn feed(&mut self, row: Option<&[u8]>) -> (r: Result<(), StorageReadError>)
        requires
            old(self).well_formed(),
            !old(self).ended(),
            old(self).low() + old(self).taken().len() < old(self).high(),
        ensures
            final(self).well_formed(),
            final(self).low() == old(self).low(),
            final(self).high() == old(self).high(),
            final(self).limit() == old(self).limit(),
            match scan_step(old(self).rows(), old(self).limit(), opt_bytes(row)) {
                ScanStep::Missing => {
                    &&& r matches Err(StorageReadError::Unavailable)
                    &&& *final(self) == *old(self)
                },
                ScanStep::Malformed => {
                    &&& r matches Err(StorageReadError::Other(RaftStorageError::Protobuf(_)))
                    &&& *final(self) == *old(self)
                },
                ScanStep::Full => {
                    &&& r is Ok
                    &&& final(self).ended()
                    &&& final(self).taken() == old(self).taken()
                    &&& final(self).rows() == old(self).rows()
                },
                ScanStep::Taken(e) => {
                    &&& r is Ok
                    &&& !final(self).ended()
                    &&& final(self).taken() == old(self).taken().push(e)
                    &&& final(self).rows() == old(self).rows().push(row->0@)
                },
            },
            final(self).ended() <==> (row matches Some(b) && proto::entry_parsed(b@) is Some && old(
                self,
            ).rows().len() > 0 && (old(self).limit() matches Some(max) && old(self).rows().push(
                b@,
            ).flatten().len() > max)),
    {
        let ghost rows = self.rows@;
        let b: &[u8] = match row {
            None => {
                return Err(StorageReadError::Unavailable);
            },
            Some(b) => b,
        };
        let entry: Entry = match parse_entry(b) {
            Err(e) => {
                return Err(StorageReadError::Other(RaftStorageError::Protobuf(e)));
            },
            Ok(entry) => entry,
        };
        let size: u64 = b.len() as u64;
        proof {
            law_scan_ends_at_the_limit(rows, self.max_size, b@, entry@);
        }
        match self.max_size {
            None => {},
            Some(cap) => {
                if self.entries.len() > 0 {
                    if size > cap || self.total > cap - size {
                        self.full = true;
                        return Ok(());
                    }
                }
                proof {
                    if rows.len() == 0 {
                        assert(sum_sizes(rows) == 0);
                    }
                }
                self.total = self.total + size;
            },
        }
        let ghost before = self.entries@;
        self.entries.push(entry);
        self.next = self.next + 1;
        self.rows = Ghost(rows.push(b@));
        proof {
            let more = rows.push(b@);
            assert(more.drop_last() =~= rows);
            assert(self.taken() =~= proto::entries_view(before).push(entry@));
        }
        Ok(())
    }

    /// The entries that the scan took.
    pub fn finish(self) -> (entries: Vec<Entry>)
        ensures
            proto::entries_view(entries@) == self.taken(),
    {
        self.entries
    }
}

} // verus!
