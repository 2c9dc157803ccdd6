//! How large a command may be.
//!
//! A document of four gibibytes or more cannot be relied on: the distances in it do not
//! fit the widths that are measured for them. So a command is measured before it is
//! written.

#[allow(unused_imports)]
use crate::codec;
use crate::command::MetaCommand;
#[allow(unused_imports)]
use crate::flex;
#[allow(unused_imports)]
use crate::flex::Flex;
#[allow(unused_imports)]
use crate::wire;
use vstd::prelude::*;

verus! {

/// The first bulk that is too large.
pub const MAX_BULK: u64 = 0xffff_f000;

/// What a command takes beside what has no fixed size.
pub const FIXED_BULK: u64 = 1024;

/// What a command with the many fields of a table takes beside what has no fixed size.
pub const TABLE_BULK: u64 = 2048;

/// What the envelope around a command takes.
pub const ENVELOPE_BULK: u64 = 256;

pub open spec fn capped(n: nat) -> nat {
    if n < MAX_BULK {
        n
    } else {
        MAX_BULK as nat
    }
}

fn sum(a: u64, b: u64) -> (c: u64)
    requires
        a <= MAX_BULK,
        b <= MAX_BULK,
    ensures
        c == capped((a + b) as nat),
{
    if a < MAX_BULK - b {
        a + b
    } else {
        MAX_BULK
    }
}

/// What `n` items of `each` bytes take, and `more`.
fn scaled(n: usize, each: u64, more: u64) -> (c: u64)
    requires
        each <= 64,
        more <= 64,
    ensures
        c == capped((n * each + more) as nat),
{
    assert(n * each <= 0xffff_ffff_ffff_ffff * 64) by (nonlinear_arith)
        requires
            n <= 0xffff_ffff_ffff_ffff,
            each <= 64,
    ;
    let total: u128 = n as u128 * each as u128 + more as u128;
    if total < MAX_BULK as u128 {
        total as u64
    } else {
        MAX_BULK
    }
}

// ---------------------------------------------------------------------------
// Fields
// ---------------------------------------------------------------------------

pub open spec fn text_bulk(s: Seq<char>) -> nat {
    vstd::utf8::encode_utf8(s).len() + 25
}

/// A character takes four bytes at most.
pub proof fn law_text_bulk(s: Seq<char>)
    ensures
        text_bulk(s) <= 4 * s.len() + 25,
    decreases s.len(),
{
    if s.len() > 0 {
        law_text_bulk(s.drop_first());
        assert(vstd::utf8::encode_scalar(s[0] as u32).len() <= 4);
    }
}

/// Each byte takes as much as their count does.
pub open spec fn bytes_bulk(b: Seq<u8>) -> nat {
    let n = b.len();
    24 + (if n < 0x100 {
        n
    } else if n < 0x1_0000 {
        2 * n
    } else if n < 0x1_0000_0000 {
        4 * n
    } else {
        9 * n
    })
}

pub open spec fn u64s_bulk(v: Seq<u64>) -> nat {
    9 * v.len() + 24
}

pub open spec fn id_sizes_bulk(v: Seq<(u64, Option<u64>)>) -> nat {
    42 * v.len() + 24
}

/// The bulk of the first `n` texts.
pub open spec fn texts_bulk(v: Seq<Seq<char>>, n: nat) -> nat
    decreases n,
{
    if n == 0 || n > v.len() {
        0
    } else {
        texts_bulk(v, (n - 1) as nat) + text_bulk(v[n - 1])
    }
}

/// The bulk of the first `n` pairs.
pub open spec fn pairs_bulk(v: Seq<(Seq<char>, Seq<char>)>, n: nat) -> nat
    decreases n,
{
    if n == 0 || n > v.len() {
        0
    } else {
        pairs_bulk(v, (n - 1) as nat) + text_bulk(v[n - 1].0) + text_bulk(v[n - 1].1) + 24
    }
}

pub open spec fn opt_text_bulk(v: Option<Seq<char>>) -> nat {
    match v {
        Some(s) => text_bulk(s),
        None => 0,
    }
}

pub open spec fn opt_bytes_bulk(v: Option<Seq<u8>>) -> nat {
    match v {
        Some(b) => bytes_bulk(b),
        None => 0,
    }
}

pub open spec fn opt_texts_bulk(v: Option<Seq<Seq<char>>>) -> nat {
    match v {
        Some(t) => texts_bulk(t, t.len()) + 24,
        None => 0,
    }
}

pub open spec fn opt_pairs_bulk(v: Option<Seq<(Seq<char>, Seq<char>)>>) -> nat {
    match v {
        Some(p) => pairs_bulk(p, p.len()) + 24,
        None => 0,
    }
}

fn text_size(s: &String) -> (n: u64)
    ensures
        n == capped(text_bulk(s@)),
{
    scaled(s.as_str().as_bytes().len(), 1, 25)
}

fn bytes_size(b: &Vec<u8>) -> (n: u64)
    ensures
        n == capped(bytes_bulk(b@)),
{
    let n: usize = b.len();
    if n < 0x100 {
        scaled(n, 1, 24)
    } else if n < 0x1_0000 {
        scaled(n, 2, 24)
    } else if n as u64 <= 0xffff_ffff {
        scaled(n, 4, 24)
    } else {
        scaled(n, 9, 24)
    }
}

fn u64s_size(v: &Vec<u64>) -> (n: u64)
    ensures
        n == capped(u64s_bulk(v@)),
{
    scaled(v.len(), 9, 24)
}

fn id_sizes_size(v: &Vec<(u64, Option<u64>)>) -> (n: u64)
    ensures
        n == capped(id_sizes_bulk(v@)),
{
    scaled(v.len(), 42, 24)
}

fn opt_text_size(v: &Option<String>) -> (n: u64)
    ensures
        n == capped(opt_text_bulk(wire::opt_text_view(*v))),
{
    match v {
        Some(s) => text_size(s),
        None => 0,
    }
}

fn opt_bytes_size(v: &Option<Vec<u8>>) -> (n: u64)
    ensures
        n == capped(opt_bytes_bulk(wire::opt_bytes_view(*v))),
{
    match v {
        Some(b) => bytes_size(b),
        None => 0,
    }
}

fn opt_texts_size(v: &Option<Vec<String>>) -> (n: u64)
    ensures
        n == capped(opt_texts_bulk(wire::opt_texts_view(*v))),
{
    match v {
        Some(t) => {
            let ghost view = wire::texts_view(t@);
            let mut n: u64 = 0;
            let mut i: usize = 0;
            while i < t.len()
                invariant
                    view == wire::texts_view(t@),
                    0 <= i <= t@.len(),
                    n == capped(texts_bulk(view, i as nat)),
                decreases t@.len() - i,
            {
                assert(view[i as int] == t@[i as int]@);
                n = sum(n, text_size(&t[i]));
                i = i + 1;
            }
            sum(n, 24)
        },
        None => 0,
    }
}

fn opt_pairs_size(v: &Option<Vec<(String, String)>>) -> (n: u64)
    ensures
        n == capped(opt_pairs_bulk(wire::opt_pairs_view(*v))),
{
    match v {
        Some(p) => {
            let ghost view = wire::pairs_view(p@);
            let mut n: u64 = 0;
            let mut i: usize = 0;
            while i < p.len()
                invariant
                    view == wire::pairs_view(p@),
                    0 <= i <= p@.len(),
                    n == capped(pairs_bulk(view, i as nat)),
                decreases p@.len() - i,
            {
                assert(view[i as int] == (p@[i as int].0@, p@[i as int].1@));
                n = sum(sum(sum(n, text_size(&p[i].0)), text_size(&p[i].1)), 24);
                i = i + 1;
            }
            sum(n, 24)
        },
        None => 0,
    }
}

proof fn lemma_scalar(v: Flex)
    requires
        v is Null || v is Bool || v is UInt || v is Int,
    ensures
        flex::weight(v) == 9,
{
    reveal(flex::weight);
}

proof fn lemma_text(s: Seq<char>)
    ensures
        flex::weight(Flex::Text(s)) == text_bulk(s),
{
    reveal(flex::weight);
}

/// The weight of one item more.
proof fn lemma_sum(items: Seq<Flex>, n: nat)
    ensures
        n == 0 ==> flex::sum_weight(items, n) == 0,
        0 < n <= items.len() ==> flex::sum_weight(items, n) == flex::sum_weight(
            items,
            (n - 1) as nat,
        ) + flex::weight(items[n - 1]),
{
    reveal(flex::weight);
    reveal(flex::sum_weight);
    reveal(flex::part_weight);
}

/// A vector weighs no more than its items do.
proof fn lemma_vector(items: Seq<Flex>)
    ensures
        flex::weight(Flex::Vector(items)) <= 24 + flex::sum_weight(items, items.len()),
{
    reveal(flex::weight);
    reveal(flex::sum_weight);
    reveal(flex::part_weight);
    flex::lemma_sum_grows(items, 0, items.len());
    flex::lemma_items_weight(items);
}

proof fn lemma_bytes(b: Seq<u8>)
    ensures
        flex::weight(wire::bytes_value(b)) <= bytes_bulk(b),
{
    reveal(flex::weight);
    let items = wire::bytes_value(b)->Vector_0;
    assert forall|i: int| 0 <= i < items.len() implies ((#[trigger] items[i]) matches Flex::UInt(n)
        && n < 0x100) by {
        assert(items[i] == Flex::UInt(b[i] as u64));
    }
    flex::lemma_items_weight(items);
    let n = b.len();
    assert(n < 0x100 ==> flex::numbers_below(items, 0x100));
    assert(n < 0x1_0000 ==> flex::numbers_below(items, 0x1_0000));
    assert(n < 0x1_0000_0000 ==> flex::numbers_below(items, 0x1_0000_0000));
    assert forall|i: int| 0 <= i < items.len() implies flex::weight(#[trigger] items[i]) <= 9 by {
        lemma_scalar(items[i]);
    }
    lemma_even(items, n, 9);
}

proof fn lemma_even(items: Seq<Flex>, n: nat, each: nat)
    requires
        n <= items.len(),
        forall|i: int| 0 <= i < items.len() ==> flex::weight(#[trigger] items[i]) <= each,
    ensures
        flex::sum_weight(items, n) <= n * each,
    decreases n,
{
    lemma_sum(items, n);
    if n > 0 {
        lemma_even(items, (n - 1) as nat, each);
        assert(flex::weight(items[n - 1]) <= each);
        assert((n - 1) * each + each == n * each) by (nonlinear_arith);
    }
}

proof fn lemma_u64s(v: Seq<u64>)
    ensures
        flex::weight(wire::u64s_value(v)) <= u64s_bulk(v),
{
    let items = wire::u64s_value(v)->Vector_0;
    assert forall|i: int| 0 <= i < items.len() implies flex::weight(#[trigger] items[i]) <= 9 by {
        lemma_scalar(items[i]);
    }
    lemma_even(items, items.len(), 9);
    lemma_vector(items);
}

proof fn lemma_id_sizes(v: Seq<(u64, Option<u64>)>)
    ensures
        flex::weight(wire::id_sizes_value(v)) <= id_sizes_bulk(v),
{
    let items = wire::id_sizes_value(v)->Vector_0;
    assert forall|i: int| 0 <= i < items.len() implies flex::weight(#[trigger] items[i]) <= 42 by {
        let two = seq![Flex::UInt(v[i].0), wire::opt_u64_value(v[i].1)];
        assert(items[i] == Flex::Vector(two));
        lemma_scalar(two[0]);
        lemma_scalar(two[1]);
        lemma_sum(two, 0);
        lemma_sum(two, 1);
        lemma_sum(two, 2);
        lemma_vector(two);
    }
    lemma_even(items, items.len(), 42);
    lemma_vector(items);
}

proof fn lemma_opt_u64(v: Option<u64>)
    ensures
        flex::weight(wire::opt_u64_value(v)) == 9,
{
    lemma_scalar(wire::opt_u64_value(v));
}

proof fn lemma_opt_i64(v: Option<i64>)
    ensures
        flex::weight(wire::opt_i64_value(v)) == 9,
{
    lemma_scalar(wire::opt_i64_value(v));
}

proof fn lemma_opt_text(v: Option<Seq<char>>)
    ensures
        flex::weight(wire::opt_text_value(v)) <= 9 + opt_text_bulk(v),
{
    match v {
        Some(s) => lemma_text(s),
        None => lemma_scalar(Flex::Null),
    }
}

proof fn lemma_opt_bytes(v: Option<Seq<u8>>)
    ensures
        flex::weight(wire::opt_bytes_value(v)) <= 9 + opt_bytes_bulk(v),
{
    match v {
        Some(b) => lemma_bytes(b),
        None => lemma_scalar(Flex::Null),
    }
}

proof fn lemma_texts(v: Seq<Seq<char>>, n: nat)
    requires
        n <= v.len(),
    ensures
        flex::sum_weight(wire::texts_value(v)->Vector_0, n) == texts_bulk(v, n),
    decreases n,
{
    let items = wire::texts_value(v)->Vector_0;
    lemma_sum(items, n);
    if n > 0 {
        lemma_texts(v, (n - 1) as nat);
        assert(items[n - 1] == Flex::Text(v[n - 1]));
        lemma_text(v[n - 1]);
    }
}

proof fn lemma_opt_texts(v: Option<Seq<Seq<char>>>)
    ensures
        flex::weight(wire::opt_texts_value(v)) <= 9 + opt_texts_bulk(v),
{
    match v {
        Some(t) => {
            lemma_texts(t, t.len());
            lemma_vector(wire::texts_value(t)->Vector_0);
        },
        None => lemma_scalar(Flex::Null),
    }
}

proof fn lemma_pairs(v: Seq<(Seq<char>, Seq<char>)>, n: nat)
    requires
        n <= v.len(),
    ensures
        flex::sum_weight(wire::pairs_value(v)->Vector_0, n) <= pairs_bulk(v, n),
    decreases n,
{
    let items = wire::pairs_value(v)->Vector_0;
    lemma_sum(items, n);
    if n > 0 {
        let p = v[n - 1];
        let two = seq![Flex::Text(p.0), Flex::Text(p.1)];
        lemma_pairs(v, (n - 1) as nat);
        assert(items[n - 1] == Flex::Vector(two));
        lemma_text(p.0);
        lemma_text(p.1);
        lemma_sum(two, 0);
        lemma_sum(two, 1);
        lemma_sum(two, 2);
        lemma_vector(two);
    }
}

proof fn lemma_opt_pairs(v: Option<Seq<(Seq<char>, Seq<char>)>>)
    ensures
        flex::weight(wire::opt_pairs_value(v)) <= 9 + opt_pairs_bulk(v),
{
    match v {
        Some(p) => {
            lemma_pairs(p, p.len());
            lemma_vector(wire::pairs_value(p)->Vector_0);
        },
        None => lemma_scalar(Flex::Null),
    }
}

/// What a variant weighs with its fields.
proof fn lemma_tagged(name: Seq<char>, fields: Seq<(Seq<char>, Flex)>)
    ensures
        flex::weight(codec::tagged(name, fields)) == 128 + flex::key_weight(name)
            + flex::entries_weight(fields),
        flex::entries_weight(Seq::empty()) == 0,
{
    broadcast use flex::lemma_entries_push;

    let whole = Seq::<(Seq<char>, Flex)>::empty().push((name, Flex::Record(fields)));
    flex::lemma_record_weight(fields);
    flex::lemma_record_weight(whole);
    assert(seq![(name, Flex::Record(fields))] == whole);
}

// ---------------------------------------------------------------------------
// Commands
// ---------------------------------------------------------------------------

impl MetaCommand {
    /// No fewer bytes than the command takes in a document: what it carries that has no
    /// fixed size, and enough for the rest.
    pub open spec fn bulk(self) -> nat
        decreases self,
    {
        match self {
            MetaCommand::CreateSchema { schema_name, .. } => FIXED_BULK as nat + text_bulk(schema_name@),
            MetaCommand::RenameSchema { old_schema_name, new_schema_name } => {
                FIXED_BULK as nat + text_bulk(old_schema_name@) + text_bulk(new_schema_name@)
            },
            MetaCommand::RenameSchemaById { new_schema_name, .. } => {
                FIXED_BULK as nat + text_bulk(new_schema_name@)
            },
            MetaCommand::DeleteSchema { schema_name } => FIXED_BULK as nat + text_bulk(schema_name@),
            MetaCommand::CreateTable { schema_name, table_name, payload, .. } => {
                FIXED_BULK as nat + text_bulk(schema_name@) + text_bulk(table_name@)
                    + bytes_bulk(payload@)
            },
            MetaCommand::CreateTableStructured {
                schema_name,
                table_name,
                columns_blob,
                locations,
                import_format_blob,
                indexes_blob,
                select_statement,
                source_columns_blob,
                stream_offset_blob,
                unique_key_column_names,
                aggregates,
                trace_obj,
                extension,
                ..
            } => {
                TABLE_BULK as nat + text_bulk(schema_name@) + text_bulk(table_name@)
                    + bytes_bulk(columns_blob@)
                    + opt_texts_bulk(wire::opt_texts_view(locations))
                    + opt_bytes_bulk(wire::opt_bytes_view(import_format_blob))
                    + bytes_bulk(indexes_blob@)
                    + opt_text_bulk(wire::opt_text_view(select_statement))
                    + opt_bytes_bulk(wire::opt_bytes_view(source_columns_blob))
                    + opt_bytes_bulk(wire::opt_bytes_view(stream_offset_blob))
                    + opt_texts_bulk(wire::opt_texts_view(unique_key_column_names))
                    + opt_pairs_bulk(wire::opt_pairs_view(aggregates))
                    + opt_text_bulk(wire::opt_text_view(trace_obj))
                    + opt_text_bulk(wire::opt_text_view(extension))
            },
            MetaCommand::UpdateLocationDownloadSize { location, .. } => {
                FIXED_BULK as nat + text_bulk(location@)
            },
            MetaCommand::CreatePartition { partition_blob } => {
                FIXED_BULK as nat + bytes_bulk(partition_blob@)
            },
            MetaCommand::SwapActivePartitions { payload, .. } => FIXED_BULK as nat + bytes_bulk(payload@),
            MetaCommand::SwapActivePartitionsStructured {
                current_active_blob,
                new_active_blob,
                new_active_min_max_blob,
            } => {
                FIXED_BULK as nat + bytes_bulk(current_active_blob@) + bytes_bulk(new_active_blob@)
                    + bytes_bulk(new_active_min_max_blob@)
            },
            MetaCommand::CreateMultiPartition { multi_partition_blob } => {
                FIXED_BULK as nat + bytes_bulk(multi_partition_blob@)
            },
            MetaCommand::CommitMultiPartitionSplit {
                new_multi_partitions,
                new_multi_partition_rows,
                old_partitions_blob,
                new_partitions_blob,
                new_partition_rows,
                ..
            } => {
                FIXED_BULK as nat + u64s_bulk(new_multi_partitions@)
                    + u64s_bulk(new_multi_partition_rows@) + bytes_bulk(old_partitions_blob@)
                    + bytes_bulk(new_partitions_blob@) + u64s_bulk(new_partition_rows@)
            },
            MetaCommand::CreateIndex { schema_name, table_name, index_def_blob } => {
                FIXED_BULK as nat + text_bulk(schema_name@) + text_bulk(table_name@)
                    + bytes_bulk(index_def_blob@)
            },
            MetaCommand::CreatePartitionedIndex { schema, name, columns_blob, .. } => {
                FIXED_BULK as nat + text_bulk(schema@) + text_bulk(name@) + bytes_bulk(columns_blob@)
            },
            MetaCommand::DropPartitionedIndex { schema, name } => {
                FIXED_BULK as nat + text_bulk(schema@) + text_bulk(name@)
            },
            MetaCommand::CreateChunk { chunk_blob } => FIXED_BULK as nat + bytes_bulk(chunk_blob@),
            MetaCommand::InsertChunks { chunks_blob } => FIXED_BULK as nat + bytes_bulk(chunks_blob@),
            MetaCommand::SwapCompactedChunks { old_chunk_ids, .. } => {
                FIXED_BULK as nat + u64s_bulk(old_chunk_ids@)
            },
            MetaCommand::DeleteChunksWithoutChecks { chunk_ids } => {
                FIXED_BULK as nat + u64s_bulk(chunk_ids@)
            },
            MetaCommand::ChunkUpdateLastInserted { chunk_ids, .. } => {
                FIXED_BULK as nat + u64s_bulk(chunk_ids@)
            },
            MetaCommand::SwapChunks { deactivate_ids, uploaded_ids_and_sizes, .. } => {
                FIXED_BULK as nat + u64s_bulk(deactivate_ids@) + id_sizes_bulk(uploaded_ids_and_sizes@)
            },
            MetaCommand::SwapChunksWithoutCheck {
                deactivate_ids,
                uploaded_ids_and_sizes,
                ..
            } => FIXED_BULK as nat + u64s_bulk(deactivate_ids@) + id_sizes_bulk(uploaded_ids_and_sizes@),
            MetaCommand::ActivateChunks { uploaded_chunk_ids, .. } => {
                FIXED_BULK as nat + id_sizes_bulk(uploaded_chunk_ids@)
            },
            MetaCommand::DeactivateChunks { chunk_ids, .. } => FIXED_BULK as nat + u64s_bulk(chunk_ids@),
            MetaCommand::DeactivateChunksWithoutCheck { deactivate_ids } => {
                FIXED_BULK as nat + u64s_bulk(deactivate_ids@)
            },
            MetaCommand::AddJob { job_blob } => FIXED_BULK as nat + bytes_bulk(job_blob@),
            MetaCommand::StartProcessingJob { server_name, .. } => {
                FIXED_BULK as nat + text_bulk(server_name@)
            },
            MetaCommand::UpdateStatus { status_blob, .. } => FIXED_BULK as nat + bytes_bulk(status_blob@),
            MetaCommand::CreateOrUpdateSource { name, credentials_blob } => {
                FIXED_BULK as nat + text_bulk(name@) + bytes_bulk(credentials_blob@)
            },
            MetaCommand::CreateReplayHandle { seq_pointer_blob, .. } => {
                FIXED_BULK as nat + bytes_bulk(seq_pointer_blob@)
            },
            MetaCommand::CreateReplayHandleFromSeqPointers { seq_pointers_blob, .. } => {
                FIXED_BULK as nat + bytes_bulk(seq_pointers_blob@)
            },
            MetaCommand::ReplaceReplayHandles { old_ids, new_seq_pointer_blob } => {
                FIXED_BULK as nat + u64s_bulk(old_ids@) + bytes_bulk(new_seq_pointer_blob@)
            },
            MetaCommand::AcquirePartitionedLock { payload, .. } => {
                FIXED_BULK as nat + bytes_bulk(payload@)
            },
            MetaCommand::ReleasePartitionedLock { payload, .. } => {
                FIXED_BULK as nat + bytes_bulk(payload@)
            },
            MetaCommand::Generic { method, body } => {
                FIXED_BULK as nat + text_bulk(method@) + bytes_bulk(body@)
            },
            MetaCommand::Batch { commands } => FIXED_BULK as nat + commands_bulk(
                commands@,
                commands@.len(),
            ),
            _ => FIXED_BULK as nat,
        }
    }

    /// The bulk of the command, [`MAX_BULK`] for all that is larger.
    #[verifier::rlimit(80)]
    #[verifier::spinoff_prover]
    pub fn size(&self) -> (n: u64)
        ensures
            n == capped(self.bulk()),
        decreases self,
    {
        let mut n: u64 = FIXED_BULK;
        match self {
            MetaCommand::CreateSchema { schema_name, .. } => {
                n = sum(n, text_size(schema_name));
            },
            MetaCommand::RenameSchema { old_schema_name, new_schema_name } => {
                n = sum(n, text_size(old_schema_name));
                n = sum(n, text_size(new_schema_name));
            },
            MetaCommand::RenameSchemaById { new_schema_name, .. } => {
                n = sum(n, text_size(new_schema_name));
            },
            MetaCommand::DeleteSchema { schema_name } => {
                n = sum(n, text_size(schema_name));
            },
            MetaCommand::CreateTable { schema_name, table_name, payload, .. } => {
                n = sum(n, text_size(schema_name));
                n = sum(n, text_size(table_name));
                n = sum(n, bytes_size(payload));
            },
            MetaCommand::CreateTableStructured {
                schema_name,
                table_name,
                columns_blob,
                locations,
                import_format_blob,
                indexes_blob,
                select_statement,
                source_columns_blob,
                stream_offset_blob,
                unique_key_column_names,
                aggregates,
                trace_obj,
                extension,
                ..
            } => {
                n = TABLE_BULK;
                n = sum(n, text_size(schema_name));
                n = sum(n, text_size(table_name));
                n = sum(n, bytes_size(columns_blob));
                n = sum(n, opt_texts_size(locations));
                n = sum(n, opt_bytes_size(import_format_blob));
                n = sum(n, bytes_size(indexes_blob));
                n = sum(n, opt_text_size(select_statement));
                n = sum(n, opt_bytes_size(source_columns_blob));
                n = sum(n, opt_bytes_size(stream_offset_blob));
                n = sum(n, opt_texts_size(unique_key_column_names));
                n = sum(n, opt_pairs_size(aggregates));
                n = sum(n, opt_text_size(trace_obj));
                n = sum(n, opt_text_size(extension));
            },
            MetaCommand::UpdateLocationDownloadSize { location, .. } => {
                n = sum(n, text_size(location));
            },
            MetaCommand::CreatePartition { partition_blob } => {
                n = sum(n, bytes_size(partition_blob));
            },
            MetaCommand::SwapActivePartitions { payload, .. } => {
                n = sum(n, bytes_size(payload));
            },
            MetaCommand::SwapActivePartitionsStructured {
                current_active_blob,
                new_active_blob,
                new_active_min_max_blob,
            } => {
                n = sum(n, bytes_size(current_active_blob));
                n = sum(n, bytes_size(new_active_blob));
                n = sum(n, bytes_size(new_active_min_max_blob));
            },
            MetaCommand::CreateMultiPartition { multi_partition_blob } => {
                n = sum(n, bytes_size(multi_partition_blob));
            },
            MetaCommand::CommitMultiPartitionSplit {
                new_multi_partitions,
                new_multi_partition_rows,
                old_partitions_blob,
                new_partitions_blob,
                new_partition_rows,
                ..
            } => {
                n = sum(n, u64s_size(new_multi_partitions));
                n = sum(n, u64s_size(new_multi_partition_rows));
                n = sum(n, bytes_size(old_partitions_blob));
                n = sum(n, bytes_size(new_partitions_blob));
                n = sum(n, u64s_size(new_partition_rows));
            },
            MetaCommand::CreateIndex { schema_name, table_name, index_def_blob } => {
                n = sum(n, text_size(schema_name));
                n = sum(n, text_size(table_name));
                n = sum(n, bytes_size(index_def_blob));
            },
            MetaCommand::CreatePartitionedIndex { schema, name, columns_blob, .. } => {
                n = sum(n, text_size(schema));
                n = sum(n, text_size(name));
                n = sum(n, bytes_size(columns_blob));
            },
            MetaCommand::DropPartitionedIndex { schema, name } => {
                n = sum(n, text_size(schema));
                n = sum(n, text_size(name));
            },
            MetaCommand::CreateChunk { chunk_blob } => {
                n = sum(n, bytes_size(chunk_blob));
            },
            MetaCommand::InsertChunks { chunks_blob } => {
                n = sum(n, bytes_size(chunks_blob));
            },
            MetaCommand::SwapCompactedChunks { old_chunk_ids, .. } => {
                n = sum(n, u64s_size(old_chunk_ids));
            },
            MetaCommand::DeleteChunksWithoutChecks { chunk_ids } => {
                n = sum(n, u64s_size(chunk_ids));
            },
            MetaCommand::ChunkUpdateLastInserted { chunk_ids, .. } => {
                n = sum(n, u64s_size(chunk_ids));
            },
            MetaCommand::SwapChunks { deactivate_ids, uploaded_ids_and_sizes, .. } => {
                n = sum(n, u64s_size(deactivate_ids));
                n = sum(n, id_sizes_size(uploaded_ids_and_sizes));
            },
            MetaCommand::SwapChunksWithoutCheck {
                deactivate_ids,
                uploaded_ids_and_sizes,
                ..
            } => {
                n = sum(n, u64s_size(deactivate_ids));
                n = sum(n, id_sizes_size(uploaded_ids_and_sizes));
            },
            MetaCommand::ActivateChunks { uploaded_chunk_ids, .. } => {
                n = sum(n, id_sizes_size(uploaded_chunk_ids));
            },
            MetaCommand::DeactivateChunks { chunk_ids, .. } => {
                n = sum(n, u64s_size(chunk_ids));
            },
            MetaCommand::DeactivateChunksWithoutCheck { deactivate_ids } => {
                n = sum(n, u64s_size(deactivate_ids));
            },
            MetaCommand::AddJob { job_blob } => {
                n = sum(n, bytes_size(job_blob));
            },
            MetaCommand::StartProcessingJob { server_name, .. } => {
                n = sum(n, text_size(server_name));
            },
            MetaCommand::UpdateStatus { status_blob, .. } => {
                n = sum(n, bytes_size(status_blob));
            },
            MetaCommand::CreateOrUpdateSource { name, credentials_blob } => {
                n = sum(n, text_size(name));
                n = sum(n, bytes_size(credentials_blob));
            },
            MetaCommand::CreateReplayHandle { seq_pointer_blob, .. } => {
                n = sum(n, bytes_size(seq_pointer_blob));
            },
            MetaCommand::CreateReplayHandleFromSeqPointers { seq_pointers_blob, .. } => {
                n = sum(n, bytes_size(seq_pointers_blob));
            },
            MetaCommand::ReplaceReplayHandles { old_ids, new_seq_pointer_blob } => {
                n = sum(n, u64s_size(old_ids));
                n = sum(n, bytes_size(new_seq_pointer_blob));
            },
            MetaCommand::AcquirePartitionedLock { payload, .. } => {
                n = sum(n, bytes_size(payload));
            },
            MetaCommand::ReleasePartitionedLock { payload, .. } => {
                n = sum(n, bytes_size(payload));
            },
            MetaCommand::Generic { method, body } => {
                n = sum(n, text_size(method));
                n = sum(n, bytes_size(body));
            },
            MetaCommand::Batch { commands } => {
                n = sum(n, commands_size(commands));
            },
            _ => {},
        }
        n
    }
}

/// The bulk of the first `n` commands.
pub open spec fn commands_bulk(commands: Seq<MetaCommand>, n: nat) -> nat
    decreases commands, n,
{
    if n == 0 || n > commands.len() {
        0
    } else {
        commands_bulk(commands, (n - 1) as nat) + commands[n - 1].bulk()
    }
}

fn commands_size(commands: &Vec<MetaCommand>) -> (n: u64)
    ensures
        n == capped(commands_bulk(commands@, commands@.len())),
    decreases commands,
{
    let mut n: u64 = 0;
    let mut i: usize = 0;
    while i < commands.len()
        invariant
            0 <= i <= commands@.len(),
            n == capped(commands_bulk(commands@, i as nat)),
        decreases commands@.len() - i,
    {
        assert(decreases_to!(commands => commands@[i as int]));
        n = sum(n, commands[i].size());
        i = i + 1;
    }
    n
}

proof fn weigh_create_schema(schema_name: Seq<char>, if_not_exists: bool)
    ensures
        flex::weight(codec::create_schema_value(schema_name, if_not_exists)) <= FIXED_BULK
            + text_bulk(schema_name),
{
    broadcast use flex::lemma_entries_push;

    let fields = codec::fields_in(codec::create_schema_value(schema_name, if_not_exists));
    reveal_strlit("CreateSchema");
    reveal_strlit("schema_name");
    reveal_strlit("if_not_exists");
    lemma_tagged("CreateSchema"@, fields);
    assert(fields =~= Seq::empty().push(fields[0]).push(fields[1]));
    lemma_text(schema_name);
    lemma_scalar(fields[1].1);
}

proof fn weigh_rename_schema(old_schema_name: Seq<char>, new_schema_name: Seq<char>)
    ensures
        flex::weight(codec::rename_schema_value(old_schema_name, new_schema_name)) <= FIXED_BULK
            + text_bulk(old_schema_name) + text_bulk(new_schema_name),
{
    broadcast use flex::lemma_entries_push;

    let fields = codec::fields_in(codec::rename_schema_value(old_schema_name, new_schema_name));
    reveal_strlit("RenameSchema");
    reveal_strlit("old_schema_name");
    reveal_strlit("new_schema_name");
    lemma_tagged("RenameSchema"@, fields);
    assert(fields =~= Seq::empty().push(fields[0]).push(fields[1]));
    lemma_text(old_schema_name);
    lemma_text(new_schema_name);
}

proof fn weigh_rename_schema_by_id(schema_id: u64, new_schema_name: Seq<char>)
    ensures
        flex::weight(codec::rename_schema_by_id_value(schema_id, new_schema_name)) <= FIXED_BULK
            + text_bulk(new_schema_name),
{
    broadcast use flex::lemma_entries_push;

    let fields = codec::fields_in(codec::rename_schema_by_id_value(schema_id, new_schema_name));
    reveal_strlit("RenameSchemaById");
    reveal_strlit("schema_id");
    reveal_strlit("new_schema_name");
    lemma_tagged("RenameSchemaById"@, fields);
    assert(fields =~= Seq::empty().push(fields[0]).push(fields[1]));
    lemma_scalar(fields[0].1);
    lemma_text(new_schema_name);
}

proof fn weigh_delete_schema(schema_name: Seq<char>)
    ensures
        flex::weight(codec::delete_schema_value(schema_name)) <= FIXED_BULK
            + text_bulk(schema_name),
{
    broadcast use flex::lemma_entries_push;

    let fields = codec::fields_in(codec::delete_schema_value(schema_name));
    reveal_strlit("DeleteSchema");
    reveal_strlit("schema_name");
    lemma_tagged("DeleteSchema"@, fields);
    assert(fields =~= Seq::empty().push(fields[0]));
    lemma_text(schema_name);
}

proof fn weigh_delete_schema_by_id(schema_id: u64)
    ensures
        flex::weight(codec::delete_schema_by_id_value(schema_id)) <= FIXED_BULK,
{
    broadcast use flex::lemma_entries_push;

    let fields = codec::fields_in(codec::delete_schema_by_id_value(schema_id));
    reveal_strlit("DeleteSchemaById");
    reveal_strlit("schema_id");
    lemma_tagged("DeleteSchemaById"@, fields);
    assert(fields =~= Seq::empty().push(fields[0]));
    lemma_scalar(fields[0].1);
}

proof fn weigh_create_table(
    schema_name: Seq<char>,
    table_name: Seq<char>,
    payload_version: u16,
    payload: Seq<u8>,
)
    ensures
        flex::weight(
            codec::create_table_value(
                schema_name,
                table_name,
                payload_version,
                payload,
            ),
        ) <= FIXED_BULK + text_bulk(schema_name) + text_bulk(table_name) + bytes_bulk(payload),
{
    broadcast use flex::lemma_entries_push;

    let fields = codec::fields_in(
        codec::create_table_value(
            schema_name,
            table_name,
            payload_version,
            payload,
        ),
    );
    reveal_strlit("CreateTable");
    reveal_strlit("schema_name");
    reveal_strlit("table_name");
    reveal_strlit("payload_version");
    reveal_strlit("payload");
    lemma_tagged("CreateTable"@, fields);
    assert(fields =~= Seq::empty().push(fields[0]).push(fields[1]).push(fields[2])
        .push(fields[3]));
    lemma_text(schema_name);
    lemma_text(table_name);
    lemma_scalar(fields[2].1);
    lemma_bytes(payload);
}

#[verifier::rlimit(80)]
#[verifier::spinoff_prover]
proof fn weigh_create_table_structured(
    schema_name: Seq<char>,
    table_name: Seq<char>,
    columns_blob: Seq<u8>,
    locations: Option<Seq<Seq<char>>>,
    import_format_blob: Option<Seq<u8>>,
    indexes_blob: Seq<u8>,
    is_ready: bool,
    build_range_end_millis: Option<i64>,
    seal_at_millis: Option<i64>,
    select_statement: Option<Seq<char>>,
    source_columns_blob: Option<Seq<u8>>,
    stream_offset_blob: Option<Seq<u8>>,
    unique_key_column_names: Option<Seq<Seq<char>>>,
    aggregates: Option<Seq<(Seq<char>, Seq<char>)>>,
    partition_split_threshold: Option<u64>,
    trace_obj: Option<Seq<char>>,
    drop_if_exists: bool,
    extension: Option<Seq<char>>,
    assigned_now_millis: i64,
)
    ensures
        flex::weight(
            codec::create_table_structured_value(
                schema_name,
                table_name,
                columns_blob,
                locations,
                import_format_blob,
                indexes_blob,
                is_ready,
                build_range_end_millis,
                seal_at_millis,
                select_statement,
                source_columns_blob,
                stream_offset_blob,
                unique_key_column_names,
                aggregates,
                partition_split_threshold,
                trace_obj,
                drop_if_exists,
                extension,
                assigned_now_millis,
            ),
        ) <= TABLE_BULK + text_bulk(schema_name) + text_bulk(table_name)
            + bytes_bulk(columns_blob) + opt_texts_bulk(locations)
            + opt_bytes_bulk(import_format_blob) + bytes_bulk(indexes_blob)
            + opt_text_bulk(select_statement) + opt_bytes_bulk(source_columns_blob)
            + opt_bytes_bulk(stream_offset_blob) + opt_texts_bulk(unique_key_column_names)
            + opt_pairs_bulk(aggregates) + opt_text_bulk(trace_obj) + opt_text_bulk(extension),
{
    broadcast use flex::lemma_entries_push;

    let fields = codec::fields_in(
        codec::create_table_structured_value(
            schema_name,
            table_name,
            columns_blob,
            locations,
            import_format_blob,
            indexes_blob,
            is_ready,
            build_range_end_millis,
            seal_at_millis,
            select_statement,
            source_columns_blob,
            stream_offset_blob,
            unique_key_column_names,
            aggregates,
            partition_split_threshold,
            trace_obj,
            drop_if_exists,
            extension,
            assigned_now_millis,
        ),
    );
    reveal_strlit("CreateTableStructured");
    reveal_strlit("schema_name");
    reveal_strlit("table_name");
    reveal_strlit("columns_blob");
    reveal_strlit("locations");
    reveal_strlit("import_format_blob");
    reveal_strlit("indexes_blob");
    reveal_strlit("is_ready");
    reveal_strlit("build_range_end_millis");
    reveal_strlit("seal_at_millis");
    reveal_strlit("select_statement");
    reveal_strlit("source_columns_blob");
    reveal_strlit("stream_offset_blob");
    reveal_strlit("unique_key_column_names");
    reveal_strlit("aggregates");
    reveal_strlit("partition_split_threshold");
    reveal_strlit("trace_obj");
    reveal_strlit("drop_if_exists");
    reveal_strlit("extension");
    reveal_strlit("assigned_now_millis");
    lemma_tagged("CreateTableStructured"@, fields);
    assert(fields =~= Seq::empty().push(fields[0]).push(fields[1]).push(fields[2])
        .push(fields[3]).push(fields[4]).push(fields[5]).push(fields[6]).push(fields[7])
        .push(fields[8]).push(fields[9]).push(fields[10]).push(fields[11]).push(fields[12])
        .push(fields[13]).push(fields[14]).push(fields[15]).push(fields[16]).push(fields[17])
        .push(fields[18]));
    lemma_text(schema_name);
    lemma_text(table_name);
    lemma_bytes(columns_blob);
    lemma_opt_texts(locations);
    lemma_opt_bytes(import_format_blob);
    lemma_bytes(indexes_blob);
    lemma_scalar(fields[6].1);
    lemma_opt_i64(build_range_end_millis);
    lemma_opt_i64(seal_at_millis);
    lemma_opt_text(select_statement);
    lemma_opt_bytes(source_columns_blob);
    lemma_opt_bytes(stream_offset_blob);
    lemma_opt_texts(unique_key_column_names);
    lemma_opt_pairs(aggregates);
    lemma_opt_u64(partition_split_threshold);
    lemma_opt_text(trace_obj);
    lemma_scalar(fields[16].1);
    lemma_opt_text(extension);
    lemma_scalar(fields[18].1);
}

proof fn weigh_drop_table(table_id: u64)
    ensures
        flex::weight(codec::drop_table_value(table_id)) <= FIXED_BULK,
{
    broadcast use flex::lemma_entries_push;

    let fields = codec::fields_in(codec::drop_table_value(table_id));
    reveal_strlit("DropTable");
    reveal_strlit("table_id");
    lemma_tagged("DropTable"@, fields);
    assert(fields =~= Seq::empty().push(fields[0]));
    lemma_scalar(fields[0].1);
}

proof fn weigh_seal_table(table_id: u64)
    ensures
        flex::weight(codec::seal_table_value(table_id)) <= FIXED_BULK,
{
    broadcast use flex::lemma_entries_push;

    let fields = codec::fields_in(codec::seal_table_value(table_id));
    reveal_strlit("SealTable");
    reveal_strlit("table_id");
    lemma_tagged("SealTable"@, fields);
    assert(fields =~= Seq::empty().push(fields[0]));
    lemma_scalar(fields[0].1);
}

proof fn weigh_update_location_download_size(
    table_id: u64,
    location: Seq<char>,
    download_size: u64,
)
    ensures
        flex::weight(
            codec::update_location_download_size_value(
                table_id,
                location,
                download_size,
            ),
        ) <= FIXED_BULK + text_bulk(location),
{
    broadcast use flex::lemma_entries_push;

    let fields = codec::fields_in(
        codec::update_location_download_size_value(
            table_id,
            location,
            download_size,
        ),
    );
    reveal_strlit("UpdateLocationDownloadSize");
    reveal_strlit("table_id");
    reveal_strlit("location");
    reveal_strlit("download_size");
    lemma_tagged("UpdateLocationDownloadSize"@, fields);
    assert(fields =~= Seq::empty().push(fields[0]).push(fields[1]).push(fields[2]));
    lemma_scalar(fields[0].1);
    lemma_text(location);
    lemma_scalar(fields[2].1);
}

proof fn weigh_table_ready(table_id: u64, is_ready: bool)
    ensures
        flex::weight(codec::table_ready_value(table_id, is_ready)) <= FIXED_BULK,
{
    broadcast use flex::lemma_entries_push;

    let fields = codec::fields_in(codec::table_ready_value(table_id, is_ready));
    reveal_strlit("TableReady");
    reveal_strlit("table_id");
    reveal_strlit("is_ready");
    lemma_tagged("TableReady"@, fields);
    assert(fields =~= Seq::empty().push(fields[0]).push(fields[1]));
    lemma_scalar(fields[0].1);
    lemma_scalar(fields[1].1);
}

proof fn weigh_create_partition(partition_blob: Seq<u8>)
    ensures
        flex::weight(codec::create_partition_value(partition_blob)) <= FIXED_BULK
            + bytes_bulk(partition_blob),
{
    broadcast use flex::lemma_entries_push;

    let fields = codec::fields_in(codec::create_partition_value(partition_blob));
    reveal_strlit("CreatePartition");
    reveal_strlit("partition_blob");
    lemma_tagged("CreatePartition"@, fields);
    assert(fields =~= Seq::empty().push(fields[0]));
    lemma_bytes(partition_blob);
}

proof fn weigh_delete_partition(partition_id: u64)
    ensures
        flex::weight(codec::delete_partition_value(partition_id)) <= FIXED_BULK,
{
    broadcast use flex::lemma_entries_push;

    let fields = codec::fields_in(codec::delete_partition_value(partition_id));
    reveal_strlit("DeletePartition");
    reveal_strlit("partition_id");
    lemma_tagged("DeletePartition"@, fields);
    assert(fields =~= Seq::empty().push(fields[0]));
    lemma_scalar(fields[0].1);
}

proof fn weigh_mark_partition_warmed_up(partition_id: u64)
    ensures
        flex::weight(codec::mark_partition_warmed_up_value(partition_id)) <= FIXED_BULK,
{
    broadcast use flex::lemma_entries_push;

    let fields = codec::fields_in(codec::mark_partition_warmed_up_value(partition_id));
    reveal_strlit("MarkPartitionWarmedUp");
    reveal_strlit("partition_id");
    lemma_tagged("MarkPartitionWarmedUp"@, fields);
    assert(fields =~= Seq::empty().push(fields[0]));
    lemma_scalar(fields[0].1);
}

proof fn weigh_delete_middle_man_partition(partition_id: u64)
    ensures
        flex::weight(codec::delete_middle_man_partition_value(partition_id)) <= FIXED_BULK,
{
    broadcast use flex::lemma_entries_push;

    let fields = codec::fields_in(codec::delete_middle_man_partition_value(partition_id));
    reveal_strlit("DeleteMiddleManPartition");
    reveal_strlit("partition_id");
    lemma_tagged("DeleteMiddleManPartition"@, fields);
    assert(fields =~= Seq::empty().push(fields[0]));
    lemma_scalar(fields[0].1);
}

proof fn weigh_swap_active_partitions(payload_version: u16, payload: Seq<u8>)
    ensures
        flex::weight(codec::swap_active_partitions_value(payload_version, payload)) <= FIXED_BULK
            + bytes_bulk(payload),
{
    broadcast use flex::lemma_entries_push;

    let fields = codec::fields_in(codec::swap_active_partitions_value(payload_version, payload));
    reveal_strlit("SwapActivePartitions");
    reveal_strlit("payload_version");
    reveal_strlit("payload");
    lemma_tagged("SwapActivePartitions"@, fields);
    assert(fields =~= Seq::empty().push(fields[0]).push(fields[1]));
    lemma_scalar(fields[0].1);
    lemma_bytes(payload);
}

proof fn weigh_swap_active_partitions_structured(
    current_active_blob: Seq<u8>,
    new_active_blob: Seq<u8>,
    new_active_min_max_blob: Seq<u8>,
)
    ensures
        flex::weight(
            codec::swap_active_partitions_structured_value(
                current_active_blob,
                new_active_blob,
                new_active_min_max_blob,
            ),
        ) <= FIXED_BULK + bytes_bulk(current_active_blob) + bytes_bulk(new_active_blob)
            + bytes_bulk(new_active_min_max_blob),
{
    broadcast use flex::lemma_entries_push;

    let fields = codec::fields_in(
        codec::swap_active_partitions_structured_value(
            current_active_blob,
            new_active_blob,
            new_active_min_max_blob,
        ),
    );
    reveal_strlit("SwapActivePartitionsStructured");
    reveal_strlit("current_active_blob");
    reveal_strlit("new_active_blob");
    reveal_strlit("new_active_min_max_blob");
    lemma_tagged("SwapActivePartitionsStructured"@, fields);
    assert(fields =~= Seq::empty().push(fields[0]).push(fields[1]).push(fields[2]));
    lemma_bytes(current_active_blob);
    lemma_bytes(new_active_blob);
    lemma_bytes(new_active_min_max_blob);
}

proof fn weigh_create_multi_partition(multi_partition_blob: Seq<u8>)
    ensures
        flex::weight(codec::create_multi_partition_value(multi_partition_blob)) <= FIXED_BULK
            + bytes_bulk(multi_partition_blob),
{
    broadcast use flex::lemma_entries_push;

    let fields = codec::fields_in(codec::create_multi_partition_value(multi_partition_blob));
    reveal_strlit("CreateMultiPartition");
    reveal_strlit("multi_partition_blob");
    lemma_tagged("CreateMultiPartition"@, fields);
    assert(fields =~= Seq::empty().push(fields[0]));
    lemma_bytes(multi_partition_blob);
}

proof fn weigh_commit_multi_partition_split(
    multi_partition_id: u64,
    new_multi_partitions: Seq<u64>,
    new_multi_partition_rows: Seq<u64>,
    old_partitions_blob: Seq<u8>,
    new_partitions_blob: Seq<u8>,
    new_partition_rows: Seq<u64>,
    initial_split: bool,
)
    ensures
        flex::weight(
            codec::commit_multi_partition_split_value(
                multi_partition_id,
                new_multi_partitions,
                new_multi_partition_rows,
                old_partitions_blob,
                new_partitions_blob,
                new_partition_rows,
                initial_split,
            ),
        ) <= FIXED_BULK + u64s_bulk(new_multi_partitions) + u64s_bulk(new_multi_partition_rows)
            + bytes_bulk(old_partitions_blob) + bytes_bulk(new_partitions_blob)
            + u64s_bulk(new_partition_rows),
{
    broadcast use flex::lemma_entries_push;

    let fields = codec::fields_in(
        codec::commit_multi_partition_split_value(
            multi_partition_id,
            new_multi_partitions,
            new_multi_partition_rows,
            old_partitions_blob,
            new_partitions_blob,
            new_partition_rows,
            initial_split,
        ),
    );
    reveal_strlit("CommitMultiPartitionSplit");
    reveal_strlit("multi_partition_id");
    reveal_strlit("new_multi_partitions");
    reveal_strlit("new_multi_partition_rows");
    reveal_strlit("old_partitions_blob");
    reveal_strlit("new_partitions_blob");
    reveal_strlit("new_partition_rows");
    reveal_strlit("initial_split");
    lemma_tagged("CommitMultiPartitionSplit"@, fields);
    assert(fields =~= Seq::empty().push(fields[0]).push(fields[1]).push(fields[2])
        .push(fields[3]).push(fields[4]).push(fields[5]).push(fields[6]));
    lemma_scalar(fields[0].1);
    lemma_u64s(new_multi_partitions);
    lemma_u64s(new_multi_partition_rows);
    lemma_bytes(old_partitions_blob);
    lemma_bytes(new_partitions_blob);
    lemma_u64s(new_partition_rows);
    lemma_scalar(fields[6].1);
}

proof fn weigh_create_index(
    schema_name: Seq<char>,
    table_name: Seq<char>,
    index_def_blob: Seq<u8>,
)
    ensures
        flex::weight(
            codec::create_index_value(
                schema_name,
                table_name,
                index_def_blob,
            ),
        ) <= FIXED_BULK + text_bulk(schema_name) + text_bulk(table_name)
            + bytes_bulk(index_def_blob),
{
    broadcast use flex::lemma_entries_push;

    let fields = codec::fields_in(
        codec::create_index_value(
            schema_name,
            table_name,
            index_def_blob,
        ),
    );
    reveal_strlit("CreateIndex");
    reveal_strlit("schema_name");
    reveal_strlit("table_name");
    reveal_strlit("index_def_blob");
    lemma_tagged("CreateIndex"@, fields);
    assert(fields =~= Seq::empty().push(fields[0]).push(fields[1]).push(fields[2]));
    lemma_text(schema_name);
    lemma_text(table_name);
    lemma_bytes(index_def_blob);
}

proof fn weigh_create_partitioned_index(
    schema: Seq<char>,
    name: Seq<char>,
    columns_blob: Seq<u8>,
    if_not_exists: bool,
)
    ensures
        flex::weight(
            codec::create_partitioned_index_value(
                schema,
                name,
                columns_blob,
                if_not_exists,
            ),
        ) <= FIXED_BULK + text_bulk(schema) + text_bulk(name) + bytes_bulk(columns_blob),
{
    broadcast use flex::lemma_entries_push;

    let fields = codec::fields_in(
        codec::create_partitioned_index_value(
            schema,
            name,
            columns_blob,
            if_not_exists,
        ),
    );
    reveal_strlit("CreatePartitionedIndex");
    reveal_strlit("schema");
    reveal_strlit("name");
    reveal_strlit("columns_blob");
    reveal_strlit("if_not_exists");
    lemma_tagged("CreatePartitionedIndex"@, fields);
    assert(fields =~= Seq::empty().push(fields[0]).push(fields[1]).push(fields[2])
        .push(fields[3]));
    lemma_text(schema);
    lemma_text(name);
    lemma_bytes(columns_blob);
    lemma_scalar(fields[3].1);
}

proof fn weigh_drop_partitioned_index(schema: Seq<char>, name: Seq<char>)
    ensures
        flex::weight(codec::drop_partitioned_index_value(schema, name)) <= FIXED_BULK
            + text_bulk(schema) + text_bulk(name),
{
    broadcast use flex::lemma_entries_push;

    let fields = codec::fields_in(codec::drop_partitioned_index_value(schema, name));
    reveal_strlit("DropPartitionedIndex");
    reveal_strlit("schema");
    reveal_strlit("name");
    lemma_tagged("DropPartitionedIndex"@, fields);
    assert(fields =~= Seq::empty().push(fields[0]).push(fields[1]));
    lemma_text(schema);
    lemma_text(name);
}

proof fn weigh_create_chunk(chunk_blob: Seq<u8>)
    ensures
        flex::weight(codec::create_chunk_value(chunk_blob)) <= FIXED_BULK + bytes_bulk(chunk_blob),
{
    broadcast use flex::lemma_entries_push;

    let fields = codec::fields_in(codec::create_chunk_value(chunk_blob));
    reveal_strlit("CreateChunk");
    reveal_strlit("chunk_blob");
    lemma_tagged("CreateChunk"@, fields);
    assert(fields =~= Seq::empty().push(fields[0]));
    lemma_bytes(chunk_blob);
}

proof fn weigh_insert_chunks(chunks_blob: Seq<u8>)
    ensures
        flex::weight(codec::insert_chunks_value(chunks_blob)) <= FIXED_BULK
            + bytes_bulk(chunks_blob),
{
    broadcast use flex::lemma_entries_push;

    let fields = codec::fields_in(codec::insert_chunks_value(chunks_blob));
    reveal_strlit("InsertChunks");
    reveal_strlit("chunks_blob");
    lemma_tagged("InsertChunks"@, fields);
    assert(fields =~= Seq::empty().push(fields[0]));
    lemma_bytes(chunks_blob);
}

proof fn weigh_swap_compacted_chunks(
    partition_id: u64,
    old_chunk_ids: Seq<u64>,
    new_chunk: u64,
    new_chunk_file_size: u64,
)
    ensures
        flex::weight(
            codec::swap_compacted_chunks_value(
                partition_id,
                old_chunk_ids,
                new_chunk,
                new_chunk_file_size,
            ),
        ) <= FIXED_BULK + u64s_bulk(old_chunk_ids),
{
    broadcast use flex::lemma_entries_push;

    let fields = codec::fields_in(
        codec::swap_compacted_chunks_value(
            partition_id,
            old_chunk_ids,
            new_chunk,
            new_chunk_file_size,
        ),
    );
    reveal_strlit("SwapCompactedChunks");
    reveal_strlit("partition_id");
    reveal_strlit("old_chunk_ids");
    reveal_strlit("new_chunk");
    reveal_strlit("new_chunk_file_size");
    lemma_tagged("SwapCompactedChunks"@, fields);
    assert(fields =~= Seq::empty().push(fields[0]).push(fields[1]).push(fields[2])
        .push(fields[3]));
    lemma_scalar(fields[0].1);
    lemma_u64s(old_chunk_ids);
    lemma_scalar(fields[2].1);
    lemma_scalar(fields[3].1);
}

proof fn weigh_delete_chunk(chunk_id: u64)
    ensures
        flex::weight(codec::delete_chunk_value(chunk_id)) <= FIXED_BULK,
{
    broadcast use flex::lemma_entries_push;

    let fields = codec::fields_in(codec::delete_chunk_value(chunk_id));
    reveal_strlit("DeleteChunk");
    reveal_strlit("chunk_id");
    lemma_tagged("DeleteChunk"@, fields);
    assert(fields =~= Seq::empty().push(fields[0]));
    lemma_scalar(fields[0].1);
}

proof fn weigh_delete_chunks_without_checks(chunk_ids: Seq<u64>)
    ensures
        flex::weight(codec::delete_chunks_without_checks_value(chunk_ids)) <= FIXED_BULK
            + u64s_bulk(chunk_ids),
{
    broadcast use flex::lemma_entries_push;

    let fields = codec::fields_in(codec::delete_chunks_without_checks_value(chunk_ids));
    reveal_strlit("DeleteChunksWithoutChecks");
    reveal_strlit("chunk_ids");
    lemma_tagged("DeleteChunksWithoutChecks"@, fields);
    assert(fields =~= Seq::empty().push(fields[0]));
    lemma_u64s(chunk_ids);
}

proof fn weigh_chunk_uploaded(chunk_id: u64)
    ensures
        flex::weight(codec::chunk_uploaded_value(chunk_id)) <= FIXED_BULK,
{
    broadcast use flex::lemma_entries_push;

    let fields = codec::fields_in(codec::chunk_uploaded_value(chunk_id));
    reveal_strlit("ChunkUploaded");
    reveal_strlit("chunk_id");
    lemma_tagged("ChunkUploaded"@, fields);
    assert(fields =~= Seq::empty().push(fields[0]));
    lemma_scalar(fields[0].1);
}

proof fn weigh_chunk_update_last_inserted(
    chunk_ids: Seq<u64>,
    last_inserted_at_millis: Option<i64>,
)
    ensures
        flex::weight(
            codec::chunk_update_last_inserted_value(
                chunk_ids,
                last_inserted_at_millis,
            ),
        ) <= FIXED_BULK + u64s_bulk(chunk_ids),
{
    broadcast use flex::lemma_entries_push;

    let fields = codec::fields_in(
        codec::chunk_update_last_inserted_value(
            chunk_ids,
            last_inserted_at_millis,
        ),
    );
    reveal_strlit("ChunkUpdateLastInserted");
    reveal_strlit("chunk_ids");
    reveal_strlit("last_inserted_at_millis");
    lemma_tagged("ChunkUpdateLastInserted"@, fields);
    assert(fields =~= Seq::empty().push(fields[0]).push(fields[1]));
    lemma_u64s(chunk_ids);
    lemma_opt_i64(last_inserted_at_millis);
}

proof fn weigh_swap_chunks(
    deactivate_ids: Seq<u64>,
    uploaded_ids_and_sizes: Seq<(u64, Option<u64>)>,
    new_replay_handle_id: Option<u64>,
)
    ensures
        flex::weight(
            codec::swap_chunks_value(
                deactivate_ids,
                uploaded_ids_and_sizes,
                new_replay_handle_id,
            ),
        ) <= FIXED_BULK + u64s_bulk(deactivate_ids) + id_sizes_bulk(uploaded_ids_and_sizes),
{
    broadcast use flex::lemma_entries_push;

    let fields = codec::fields_in(
        codec::swap_chunks_value(
            deactivate_ids,
            uploaded_ids_and_sizes,
            new_replay_handle_id,
        ),
    );
    reveal_strlit("SwapChunks");
    reveal_strlit("deactivate_ids");
    reveal_strlit("uploaded_ids_and_sizes");
    reveal_strlit("new_replay_handle_id");
    lemma_tagged("SwapChunks"@, fields);
    assert(fields =~= Seq::empty().push(fields[0]).push(fields[1]).push(fields[2]));
    lemma_u64s(deactivate_ids);
    lemma_id_sizes(uploaded_ids_and_sizes);
    lemma_opt_u64(new_replay_handle_id);
}

proof fn weigh_swap_chunks_without_check(
    deactivate_ids: Seq<u64>,
    uploaded_ids_and_sizes: Seq<(u64, Option<u64>)>,
    new_replay_handle_id: Option<u64>,
)
    ensures
        flex::weight(
            codec::swap_chunks_without_check_value(
                deactivate_ids,
                uploaded_ids_and_sizes,
                new_replay_handle_id,
            ),
        ) <= FIXED_BULK + u64s_bulk(deactivate_ids) + id_sizes_bulk(uploaded_ids_and_sizes),
{
    broadcast use flex::lemma_entries_push;

    let fields = codec::fields_in(
        codec::swap_chunks_without_check_value(
            deactivate_ids,
            uploaded_ids_and_sizes,
            new_replay_handle_id,
        ),
    );
    reveal_strlit("SwapChunksWithoutCheck");
    reveal_strlit("deactivate_ids");
    reveal_strlit("uploaded_ids_and_sizes");
    reveal_strlit("new_replay_handle_id");
    lemma_tagged("SwapChunksWithoutCheck"@, fields);
    assert(fields =~= Seq::empty().push(fields[0]).push(fields[1]).push(fields[2]));
    lemma_u64s(deactivate_ids);
    lemma_id_sizes(uploaded_ids_and_sizes);
    lemma_opt_u64(new_replay_handle_id);
}

proof fn weigh_activate_chunks(
    table_id: u64,
    uploaded_chunk_ids: Seq<(u64, Option<u64>)>,
    replay_handle_id: Option<u64>,
)
    ensures
        flex::weight(
            codec::activate_chunks_value(
                table_id,
                uploaded_chunk_ids,
                replay_handle_id,
            ),
        ) <= FIXED_BULK + id_sizes_bulk(uploaded_chunk_ids),
{
    broadcast use flex::lemma_entries_push;

    let fields = codec::fields_in(
        codec::activate_chunks_value(
            table_id,
            uploaded_chunk_ids,
            replay_handle_id,
        ),
    );
    reveal_strlit("ActivateChunks");
    reveal_strlit("table_id");
    reveal_strlit("uploaded_chunk_ids");
    reveal_strlit("replay_handle_id");
    lemma_tagged("ActivateChunks"@, fields);
    assert(fields =~= Seq::empty().push(fields[0]).push(fields[1]).push(fields[2]));
    lemma_scalar(fields[0].1);
    lemma_id_sizes(uploaded_chunk_ids);
    lemma_opt_u64(replay_handle_id);
}

proof fn weigh_deactivate_chunk(chunk_id: u64, assigned_now_millis: i64)
    ensures
        flex::weight(codec::deactivate_chunk_value(chunk_id, assigned_now_millis)) <= FIXED_BULK,
{
    broadcast use flex::lemma_entries_push;

    let fields = codec::fields_in(codec::deactivate_chunk_value(chunk_id, assigned_now_millis));
    reveal_strlit("DeactivateChunk");
    reveal_strlit("chunk_id");
    reveal_strlit("assigned_now_millis");
    lemma_tagged("DeactivateChunk"@, fields);
    assert(fields =~= Seq::empty().push(fields[0]).push(fields[1]));
    lemma_scalar(fields[0].1);
    lemma_scalar(fields[1].1);
}

proof fn weigh_deactivate_chunks(chunk_ids: Seq<u64>, assigned_now_millis: i64)
    ensures
        flex::weight(codec::deactivate_chunks_value(chunk_ids, assigned_now_millis)) <= FIXED_BULK
            + u64s_bulk(chunk_ids),
{
    broadcast use flex::lemma_entries_push;

    let fields = codec::fields_in(codec::deactivate_chunks_value(chunk_ids, assigned_now_millis));
    reveal_strlit("DeactivateChunks");
    reveal_strlit("chunk_ids");
    reveal_strlit("assigned_now_millis");
    lemma_tagged("DeactivateChunks"@, fields);
    assert(fields =~= Seq::empty().push(fields[0]).push(fields[1]));
    lemma_u64s(chunk_ids);
    lemma_scalar(fields[1].1);
}

proof fn weigh_deactivate_chunks_without_check(deactivate_ids: Seq<u64>)
    ensures
        flex::weight(codec::deactivate_chunks_without_check_value(deactivate_ids)) <= FIXED_BULK
            + u64s_bulk(deactivate_ids),
{
    broadcast use flex::lemma_entries_push;

    let fields = codec::fields_in(codec::deactivate_chunks_without_check_value(deactivate_ids));
    reveal_strlit("DeactivateChunksWithoutCheck");
    reveal_strlit("deactivate_ids");
    lemma_tagged("DeactivateChunksWithoutCheck"@, fields);
    assert(fields =~= Seq::empty().push(fields[0]));
    lemma_u64s(deactivate_ids);
}

proof fn weigh_create_wal(table_id: u64, row_count: u64)
    ensures
        flex::weight(codec::create_wal_value(table_id, row_count)) <= FIXED_BULK,
{
    broadcast use flex::lemma_entries_push;

    let fields = codec::fields_in(codec::create_wal_value(table_id, row_count));
    reveal_strlit("CreateWal");
    reveal_strlit("table_id");
    reveal_strlit("row_count");
    lemma_tagged("CreateWal"@, fields);
    assert(fields =~= Seq::empty().push(fields[0]).push(fields[1]));
    lemma_scalar(fields[0].1);
    lemma_scalar(fields[1].1);
}

proof fn weigh_delete_wal(wal_id: u64)
    ensures
        flex::weight(codec::delete_wal_value(wal_id)) <= FIXED_BULK,
{
    broadcast use flex::lemma_entries_push;

    let fields = codec::fields_in(codec::delete_wal_value(wal_id));
    reveal_strlit("DeleteWal");
    reveal_strlit("wal_id");
    lemma_tagged("DeleteWal"@, fields);
    assert(fields =~= Seq::empty().push(fields[0]));
    lemma_scalar(fields[0].1);
}

proof fn weigh_wal_uploaded(wal_id: u64)
    ensures
        flex::weight(codec::wal_uploaded_value(wal_id)) <= FIXED_BULK,
{
    broadcast use flex::lemma_entries_push;

    let fields = codec::fields_in(codec::wal_uploaded_value(wal_id));
    reveal_strlit("WalUploaded");
    reveal_strlit("wal_id");
    lemma_tagged("WalUploaded"@, fields);
    assert(fields =~= Seq::empty().push(fields[0]));
    lemma_scalar(fields[0].1);
}

proof fn weigh_add_job(job_blob: Seq<u8>)
    ensures
        flex::weight(codec::add_job_value(job_blob)) <= FIXED_BULK + bytes_bulk(job_blob),
{
    broadcast use flex::lemma_entries_push;

    let fields = codec::fields_in(codec::add_job_value(job_blob));
    reveal_strlit("AddJob");
    reveal_strlit("job_blob");
    lemma_tagged("AddJob"@, fields);
    assert(fields =~= Seq::empty().push(fields[0]));
    lemma_bytes(job_blob);
}

proof fn weigh_delete_job(job_id: u64)
    ensures
        flex::weight(codec::delete_job_value(job_id)) <= FIXED_BULK,
{
    broadcast use flex::lemma_entries_push;

    let fields = codec::fields_in(codec::delete_job_value(job_id));
    reveal_strlit("DeleteJob");
    reveal_strlit("job_id");
    lemma_tagged("DeleteJob"@, fields);
    assert(fields =~= Seq::empty().push(fields[0]));
    lemma_scalar(fields[0].1);
}

proof fn weigh_start_processing_job(
    server_name: Seq<char>,
    long_term: bool,
    assigned_now_millis: i64,
)
    ensures
        flex::weight(
            codec::start_processing_job_value(
                server_name,
                long_term,
                assigned_now_millis,
            ),
        ) <= FIXED_BULK + text_bulk(server_name),
{
    broadcast use flex::lemma_entries_push;

    let fields = codec::fields_in(
        codec::start_processing_job_value(
            server_name,
            long_term,
            assigned_now_millis,
        ),
    );
    reveal_strlit("StartProcessingJob");
    reveal_strlit("server_name");
    reveal_strlit("long_term");
    reveal_strlit("assigned_now_millis");
    lemma_tagged("StartProcessingJob"@, fields);
    assert(fields =~= Seq::empty().push(fields[0]).push(fields[1]).push(fields[2]));
    lemma_text(server_name);
    lemma_scalar(fields[1].1);
    lemma_scalar(fields[2].1);
}

proof fn weigh_update_status(job_id: u64, status_blob: Seq<u8>, assigned_now_millis: i64)
    ensures
        flex::weight(
            codec::update_status_value(
                job_id,
                status_blob,
                assigned_now_millis,
            ),
        ) <= FIXED_BULK + bytes_bulk(status_blob),
{
    broadcast use flex::lemma_entries_push;

    let fields = codec::fields_in(
        codec::update_status_value(
            job_id,
            status_blob,
            assigned_now_millis,
        ),
    );
    reveal_strlit("UpdateStatus");
    reveal_strlit("job_id");
    reveal_strlit("status_blob");
    reveal_strlit("assigned_now_millis");
    lemma_tagged("UpdateStatus"@, fields);
    assert(fields =~= Seq::empty().push(fields[0]).push(fields[1]).push(fields[2]));
    lemma_scalar(fields[0].1);
    lemma_bytes(status_blob);
    lemma_scalar(fields[2].1);
}

proof fn weigh_update_heart_beat(job_id: u64, assigned_now_millis: i64)
    ensures
        flex::weight(codec::update_heart_beat_value(job_id, assigned_now_millis)) <= FIXED_BULK,
{
    broadcast use flex::lemma_entries_push;

    let fields = codec::fields_in(codec::update_heart_beat_value(job_id, assigned_now_millis));
    reveal_strlit("UpdateHeartBeat");
    reveal_strlit("job_id");
    reveal_strlit("assigned_now_millis");
    lemma_tagged("UpdateHeartBeat"@, fields);
    assert(fields =~= Seq::empty().push(fields[0]).push(fields[1]));
    lemma_scalar(fields[0].1);
    lemma_scalar(fields[1].1);
}

proof fn weigh_create_or_update_source(name: Seq<char>, credentials_blob: Seq<u8>)
    ensures
        flex::weight(codec::create_or_update_source_value(name, credentials_blob)) <= FIXED_BULK
            + text_bulk(name) + bytes_bulk(credentials_blob),
{
    broadcast use flex::lemma_entries_push;

    let fields = codec::fields_in(codec::create_or_update_source_value(name, credentials_blob));
    reveal_strlit("CreateOrUpdateSource");
    reveal_strlit("name");
    reveal_strlit("credentials_blob");
    lemma_tagged("CreateOrUpdateSource"@, fields);
    assert(fields =~= Seq::empty().push(fields[0]).push(fields[1]));
    lemma_text(name);
    lemma_bytes(credentials_blob);
}

proof fn weigh_delete_source(id: u64)
    ensures
        flex::weight(codec::delete_source_value(id)) <= FIXED_BULK,
{
    broadcast use flex::lemma_entries_push;

    let fields = codec::fields_in(codec::delete_source_value(id));
    reveal_strlit("DeleteSource");
    reveal_strlit("id");
    lemma_tagged("DeleteSource"@, fields);
    assert(fields =~= Seq::empty().push(fields[0]));
    lemma_scalar(fields[0].1);
}

proof fn weigh_create_replay_handle(
    table_id: u64,
    location_index: u64,
    seq_pointer_blob: Seq<u8>,
    assigned_now_millis: i64,
)
    ensures
        flex::weight(
            codec::create_replay_handle_value(
                table_id,
                location_index,
                seq_pointer_blob,
                assigned_now_millis,
            ),
        ) <= FIXED_BULK + bytes_bulk(seq_pointer_blob),
{
    broadcast use flex::lemma_entries_push;

    let fields = codec::fields_in(
        codec::create_replay_handle_value(
            table_id,
            location_index,
            seq_pointer_blob,
            assigned_now_millis,
        ),
    );
    reveal_strlit("CreateReplayHandle");
    reveal_strlit("table_id");
    reveal_strlit("location_index");
    reveal_strlit("seq_pointer_blob");
    reveal_strlit("assigned_now_millis");
    lemma_tagged("CreateReplayHandle"@, fields);
    assert(fields =~= Seq::empty().push(fields[0]).push(fields[1]).push(fields[2])
        .push(fields[3]));
    lemma_scalar(fields[0].1);
    lemma_scalar(fields[1].1);
    lemma_bytes(seq_pointer_blob);
    lemma_scalar(fields[3].1);
}

proof fn weigh_create_replay_handle_from_seq_pointers(
    table_id: u64,
    seq_pointers_blob: Seq<u8>,
    assigned_now_millis: i64,
)
    ensures
        flex::weight(
            codec::create_replay_handle_from_seq_pointers_value(
                table_id,
                seq_pointers_blob,
                assigned_now_millis,
            ),
        ) <= FIXED_BULK + bytes_bulk(seq_pointers_blob),
{
    broadcast use flex::lemma_entries_push;

    let fields = codec::fields_in(
        codec::create_replay_handle_from_seq_pointers_value(
            table_id,
            seq_pointers_blob,
            assigned_now_millis,
        ),
    );
    reveal_strlit("CreateReplayHandleFromSeqPointers");
    reveal_strlit("table_id");
    reveal_strlit("seq_pointers_blob");
    reveal_strlit("assigned_now_millis");
    lemma_tagged("CreateReplayHandleFromSeqPointers"@, fields);
    assert(fields =~= Seq::empty().push(fields[0]).push(fields[1]).push(fields[2]));
    lemma_scalar(fields[0].1);
    lemma_bytes(seq_pointers_blob);
    lemma_scalar(fields[2].1);
}

proof fn weigh_update_replay_handle_failed_if_exists(id: u64, failed: bool)
    ensures
        flex::weight(codec::update_replay_handle_failed_if_exists_value(id, failed)) <= FIXED_BULK,
{
    broadcast use flex::lemma_entries_push;

    let fields = codec::fields_in(codec::update_replay_handle_failed_if_exists_value(id, failed));
    reveal_strlit("UpdateReplayHandleFailedIfExists");
    reveal_strlit("id");
    reveal_strlit("failed");
    lemma_tagged("UpdateReplayHandleFailedIfExists"@, fields);
    assert(fields =~= Seq::empty().push(fields[0]).push(fields[1]));
    lemma_scalar(fields[0].1);
    lemma_scalar(fields[1].1);
}

proof fn weigh_replace_replay_handles(old_ids: Seq<u64>, new_seq_pointer_blob: Seq<u8>)
    ensures
        flex::weight(
            codec::replace_replay_handles_value(
                old_ids,
                new_seq_pointer_blob,
            ),
        ) <= FIXED_BULK + u64s_bulk(old_ids) + bytes_bulk(new_seq_pointer_blob),
{
    broadcast use flex::lemma_entries_push;

    let fields = codec::fields_in(
        codec::replace_replay_handles_value(
            old_ids,
            new_seq_pointer_blob,
        ),
    );
    reveal_strlit("ReplaceReplayHandles");
    reveal_strlit("old_ids");
    reveal_strlit("new_seq_pointer_blob");
    lemma_tagged("ReplaceReplayHandles"@, fields);
    assert(fields =~= Seq::empty().push(fields[0]).push(fields[1]));
    lemma_u64s(old_ids);
    lemma_bytes(new_seq_pointer_blob);
}

proof fn weigh_set_current_snapshot(snapshot_id_low: u64, snapshot_id_high: u64)
    ensures
        flex::weight(
            codec::set_current_snapshot_value(
                snapshot_id_low,
                snapshot_id_high,
            ),
        ) <= FIXED_BULK,
{
    broadcast use flex::lemma_entries_push;

    let fields = codec::fields_in(
        codec::set_current_snapshot_value(
            snapshot_id_low,
            snapshot_id_high,
        ),
    );
    reveal_strlit("SetCurrentSnapshot");
    reveal_strlit("snapshot_id_low");
    reveal_strlit("snapshot_id_high");
    lemma_tagged("SetCurrentSnapshot"@, fields);
    assert(fields =~= Seq::empty().push(fields[0]).push(fields[1]));
    lemma_scalar(fields[0].1);
    lemma_scalar(fields[1].1);
}

proof fn weigh_acquire_partitioned_lock(payload_version: u16, payload: Seq<u8>)
    ensures
        flex::weight(
            codec::acquire_partitioned_lock_value(
                payload_version,
                payload,
            ),
        ) <= FIXED_BULK + bytes_bulk(payload),
{
    broadcast use flex::lemma_entries_push;

    let fields = codec::fields_in(codec::acquire_partitioned_lock_value(payload_version, payload));
    reveal_strlit("AcquirePartitionedLock");
    reveal_strlit("payload_version");
    reveal_strlit("payload");
    lemma_tagged("AcquirePartitionedLock"@, fields);
    assert(fields =~= Seq::empty().push(fields[0]).push(fields[1]));
    lemma_scalar(fields[0].1);
    lemma_bytes(payload);
}

proof fn weigh_release_partitioned_lock(payload_version: u16, payload: Seq<u8>)
    ensures
        flex::weight(
            codec::release_partitioned_lock_value(
                payload_version,
                payload,
            ),
        ) <= FIXED_BULK + bytes_bulk(payload),
{
    broadcast use flex::lemma_entries_push;

    let fields = codec::fields_in(codec::release_partitioned_lock_value(payload_version, payload));
    reveal_strlit("ReleasePartitionedLock");
    reveal_strlit("payload_version");
    reveal_strlit("payload");
    lemma_tagged("ReleasePartitionedLock"@, fields);
    assert(fields =~= Seq::empty().push(fields[0]).push(fields[1]));
    lemma_scalar(fields[0].1);
    lemma_bytes(payload);
}

proof fn weigh_generic(method: Seq<char>, body: Seq<u8>)
    ensures
        flex::weight(codec::generic_value(method, body)) <= FIXED_BULK + text_bulk(method)
            + bytes_bulk(body),
{
    broadcast use flex::lemma_entries_push;

    let fields = codec::fields_in(codec::generic_value(method, body));
    reveal_strlit("Generic");
    reveal_strlit("method");
    reveal_strlit("body");
    lemma_tagged("Generic"@, fields);
    assert(fields =~= Seq::empty().push(fields[0]).push(fields[1]));
    lemma_text(method);
    lemma_bytes(body);
}

/// A command takes no more bytes in a document than its bulk.
pub proof fn lemma_weight_bulk(c: MetaCommand)
    ensures
        flex::weight(c.value()) <= c.bulk(),
    decreases c, (if let MetaCommand::Batch { commands } = c {
            commands@.len() + 1
        } else {
            0
        }),
{
    reveal(MetaCommand::value);
    match c {
        MetaCommand::CreateSchema { schema_name, if_not_exists } => {
            weigh_create_schema(schema_name@, if_not_exists);
        },
        MetaCommand::RenameSchema { old_schema_name, new_schema_name } => {
            weigh_rename_schema(old_schema_name@, new_schema_name@);
        },
        MetaCommand::RenameSchemaById { schema_id, new_schema_name } => {
            weigh_rename_schema_by_id(schema_id, new_schema_name@);
        },
        MetaCommand::DeleteSchema { schema_name } => {
            weigh_delete_schema(schema_name@);
        },
        MetaCommand::DeleteSchemaById { schema_id } => {
            weigh_delete_schema_by_id(schema_id);
        },
        MetaCommand::CreateTable { schema_name, table_name, payload_version, payload } => {
            weigh_create_table(schema_name@, table_name@, payload_version, payload@);
        },
        MetaCommand::CreateTableStructured {
            schema_name,
            table_name,
            columns_blob,
            locations,
            import_format_blob,
            indexes_blob,
            is_ready,
            build_range_end_millis,
            seal_at_millis,
            select_statement,
            source_columns_blob,
            stream_offset_blob,
            unique_key_column_names,
            aggregates,
            partition_split_threshold,
            trace_obj,
            drop_if_exists,
            extension,
            assigned_now_millis,
        } => {
            weigh_create_table_structured(
                schema_name@,
                table_name@,
                columns_blob@,
                wire::opt_texts_view(locations),
                wire::opt_bytes_view(import_format_blob),
                indexes_blob@,
                is_ready,
                build_range_end_millis,
                seal_at_millis,
                wire::opt_text_view(select_statement),
                wire::opt_bytes_view(source_columns_blob),
                wire::opt_bytes_view(stream_offset_blob),
                wire::opt_texts_view(unique_key_column_names),
                wire::opt_pairs_view(aggregates),
                partition_split_threshold,
                wire::opt_text_view(trace_obj),
                drop_if_exists,
                wire::opt_text_view(extension),
                assigned_now_millis,
            );
        },
        MetaCommand::DropTable { table_id } => {
            weigh_drop_table(table_id);
        },
        MetaCommand::SealTable { table_id } => {
            weigh_seal_table(table_id);
        },
        MetaCommand::UpdateLocationDownloadSize { table_id, location, download_size } => {
            weigh_update_location_download_size(table_id, location@, download_size);
        },
        MetaCommand::TableReady { table_id, is_ready } => {
            weigh_table_ready(table_id, is_ready);
        },
        MetaCommand::CreatePartition { partition_blob } => {
            weigh_create_partition(partition_blob@);
        },
        MetaCommand::DeletePartition { partition_id } => {
            weigh_delete_partition(partition_id);
        },
        MetaCommand::MarkPartitionWarmedUp { partition_id } => {
            weigh_mark_partition_warmed_up(partition_id);
        },
        MetaCommand::DeleteMiddleManPartition { partition_id } => {
            weigh_delete_middle_man_partition(partition_id);
        },
        MetaCommand::SwapActivePartitions { payload_version, payload } => {
            weigh_swap_active_partitions(payload_version, payload@);
        },
        MetaCommand::SwapActivePartitionsStructured {
            current_active_blob,
            new_active_blob,
            new_active_min_max_blob,
        } => {
            weigh_swap_active_partitions_structured(
                current_active_blob@,
                new_active_blob@,
                new_active_min_max_blob@,
            );
        },
        MetaCommand::CreateMultiPartition { multi_partition_blob } => {
            weigh_create_multi_partition(multi_partition_blob@);
        },
        MetaCommand::CommitMultiPartitionSplit {
            multi_partition_id,
            new_multi_partitions,
            new_multi_partition_rows,
            old_partitions_blob,
            new_partitions_blob,
            new_partition_rows,
            initial_split,
        } => {
            weigh_commit_multi_partition_split(
                multi_partition_id,
                new_multi_partitions@,
                new_multi_partition_rows@,
                old_partitions_blob@,
                new_partitions_blob@,
                new_partition_rows@,
                initial_split,
            );
        },
        MetaCommand::CreateIndex { schema_name, table_name, index_def_blob } => {
            weigh_create_index(schema_name@, table_name@, index_def_blob@);
        },
        MetaCommand::CreatePartitionedIndex { schema, name, columns_blob, if_not_exists } => {
            weigh_create_partitioned_index(schema@, name@, columns_blob@, if_not_exists);
        },
        MetaCommand::DropPartitionedIndex { schema, name } => {
            weigh_drop_partitioned_index(schema@, name@);
        },
        MetaCommand::CreateChunk { chunk_blob } => {
            weigh_create_chunk(chunk_blob@);
        },
        MetaCommand::InsertChunks { chunks_blob } => {
            weigh_insert_chunks(chunks_blob@);
        },
        MetaCommand::SwapCompactedChunks {
            partition_id,
            old_chunk_ids,
            new_chunk,
            new_chunk_file_size,
        } => {
            weigh_swap_compacted_chunks(
                partition_id,
                old_chunk_ids@,
                new_chunk,
                new_chunk_file_size,
            );
        },
        MetaCommand::DeleteChunk { chunk_id } => {
            weigh_delete_chunk(chunk_id);
        },
        MetaCommand::DeleteChunksWithoutChecks { chunk_ids } => {
            weigh_delete_chunks_without_checks(chunk_ids@);
        },
        MetaCommand::ChunkUploaded { chunk_id } => {
            weigh_chunk_uploaded(chunk_id);
        },
        MetaCommand::ChunkUpdateLastInserted { chunk_ids, last_inserted_at_millis } => {
            weigh_chunk_update_last_inserted(chunk_ids@, last_inserted_at_millis);
        },
        MetaCommand::SwapChunks {
            deactivate_ids,
            uploaded_ids_and_sizes,
            new_replay_handle_id,
        } => {
            weigh_swap_chunks(deactivate_ids@, uploaded_ids_and_sizes@, new_replay_handle_id);
        },
        MetaCommand::SwapChunksWithoutCheck {
            deactivate_ids,
            uploaded_ids_and_sizes,
            new_replay_handle_id,
        } => {
            weigh_swap_chunks_without_check(
                deactivate_ids@,
                uploaded_ids_and_sizes@,
                new_replay_handle_id,
            );
        },
        MetaCommand::ActivateChunks { table_id, uploaded_chunk_ids, replay_handle_id } => {
            weigh_activate_chunks(table_id, uploaded_chunk_ids@, replay_handle_id);
        },
        MetaCommand::DeactivateChunk { chunk_id, assigned_now_millis } => {
            weigh_deactivate_chunk(chunk_id, assigned_now_millis);
        },
        MetaCommand::DeactivateChunks { chunk_ids, assigned_now_millis } => {
            weigh_deactivate_chunks(chunk_ids@, assigned_now_millis);
        },
        MetaCommand::DeactivateChunksWithoutCheck { deactivate_ids } => {
            weigh_deactivate_chunks_without_check(deactivate_ids@);
        },
        MetaCommand::CreateWal { table_id, row_count } => {
            weigh_create_wal(table_id, row_count);
        },
        MetaCommand::DeleteWal { wal_id } => {
            weigh_delete_wal(wal_id);
        },
        MetaCommand::WalUploaded { wal_id } => {
            weigh_wal_uploaded(wal_id);
        },
        MetaCommand::AddJob { job_blob } => {
            weigh_add_job(job_blob@);
        },
        MetaCommand::DeleteJob { job_id } => {
            weigh_delete_job(job_id);
        },
        MetaCommand::DeleteAllJobs => {
            reveal_strlit("DeleteAllJobs");
            lemma_text("DeleteAllJobs"@);
            law_text_bulk("DeleteAllJobs"@);
        },
        MetaCommand::StartProcessingJob { server_name, long_term, assigned_now_millis } => {
            weigh_start_processing_job(server_name@, long_term, assigned_now_millis);
        },
        MetaCommand::UpdateStatus { job_id, status_blob, assigned_now_millis } => {
            weigh_update_status(job_id, status_blob@, assigned_now_millis);
        },
        MetaCommand::UpdateHeartBeat { job_id, assigned_now_millis } => {
            weigh_update_heart_beat(job_id, assigned_now_millis);
        },
        MetaCommand::CreateOrUpdateSource { name, credentials_blob } => {
            weigh_create_or_update_source(name@, credentials_blob@);
        },
        MetaCommand::DeleteSource { id } => {
            weigh_delete_source(id);
        },
        MetaCommand::CreateReplayHandle {
            table_id,
            location_index,
            seq_pointer_blob,
            assigned_now_millis,
        } => {
            weigh_create_replay_handle(
                table_id,
                location_index,
                seq_pointer_blob@,
                assigned_now_millis,
            );
        },
        MetaCommand::CreateReplayHandleFromSeqPointers {
            table_id,
            seq_pointers_blob,
            assigned_now_millis,
        } => {
            weigh_create_replay_handle_from_seq_pointers(
                table_id,
                seq_pointers_blob@,
                assigned_now_millis,
            );
        },
        MetaCommand::UpdateReplayHandleFailedIfExists { id, failed } => {
            weigh_update_replay_handle_failed_if_exists(id, failed);
        },
        MetaCommand::ReplaceReplayHandles { old_ids, new_seq_pointer_blob } => {
            weigh_replace_replay_handles(old_ids@, new_seq_pointer_blob@);
        },
        MetaCommand::SetCurrentSnapshot { snapshot_id_low, snapshot_id_high } => {
            weigh_set_current_snapshot(snapshot_id_low, snapshot_id_high);
        },
        MetaCommand::AcquirePartitionedLock { payload_version, payload } => {
            weigh_acquire_partitioned_lock(payload_version, payload@);
        },
        MetaCommand::ReleasePartitionedLock { payload_version, payload } => {
            weigh_release_partitioned_lock(payload_version, payload@);
        },
        MetaCommand::Batch { commands } => {
            lemma_weight_commands(commands@, c, commands@.len());
            lemma_weight_batch(commands@);
        },
        MetaCommand::Generic { method, body } => {
            weigh_generic(method@, body@);
        },
    }
}

proof fn lemma_weight_batch(commands: Seq<MetaCommand>)
    requires
        flex::sum_weight(codec::commands_value(commands), commands.len()) <= commands_bulk(
            commands,
            commands.len(),
        ),
    ensures
        flex::weight(
            codec::tagged(
                "Batch"@,
                seq![("commands"@, Flex::Vector(codec::commands_value(commands)))],
            ),
        ) <= FIXED_BULK + commands_bulk(commands, commands.len()),
{
    broadcast use flex::lemma_entries_push;

    let all = codec::commands_value(commands);
    let fields = seq![("commands"@, Flex::Vector(all))];
    reveal_strlit("Batch");
    reveal_strlit("commands");
    lemma_tagged("Batch"@, fields);
    assert(fields =~= Seq::empty().push(fields[0]));
    lemma_vector(all);
}

proof fn lemma_weight_commands(commands: Seq<MetaCommand>, c: MetaCommand, n: nat)
    requires
        c matches MetaCommand::Batch { commands: v } && v@ == commands,
        n <= commands.len(),
    ensures
        flex::sum_weight(codec::commands_value(commands), n) <= commands_bulk(commands, n),
    decreases c, n,
{
    let all = codec::commands_value(commands);
    lemma_sum(all, n);
    if n > 0 {
        lemma_weight_commands(commands, c, (n - 1) as nat);
        if let MetaCommand::Batch { commands: v } = c {
            assert(decreases_to!(v => v@[n - 1]));
            lemma_weight_bulk(v@[n - 1]);
        }
        codec::lemma_commands_value(commands, n - 1);
    }
}

// ---------------------------------------------------------------------------
// Which commands are small enough
// ---------------------------------------------------------------------------

/// The bytes of a text, and eight for itself.
pub open spec fn text_held(s: Seq<char>) -> nat {
    vstd::utf8::encode_utf8(s).len() + 8
}

pub open spec fn opt_text_held(v: Option<Seq<char>>) -> nat {
    match v {
        Some(s) => text_held(s),
        None => 0,
    }
}

pub open spec fn opt_bytes_held(v: Option<Seq<u8>>) -> nat {
    match v {
        Some(b) => b.len(),
        None => 0,
    }
}

pub open spec fn opt_texts_held(v: Option<Seq<Seq<char>>>) -> nat {
    match v {
        Some(t) => t.fold_left(0nat, |n: nat, s: Seq<char>| n + text_held(s)),
        None => 0,
    }
}

pub open spec fn opt_pairs_held(v: Option<Seq<(Seq<char>, Seq<char>)>>) -> nat {
    match v {
        Some(p) => p.fold_left(
            0nat,
            |n: nat, pair: (Seq<char>, Seq<char>)| n + text_held(pair.0) + text_held(pair.1) + 8,
        ),
        None => 0,
    }
}

impl MetaCommand {
    /// What a command holds: the bytes of its texts and blobs, and eight for each number of a
    /// list and each text.
    pub open spec fn held(self) -> nat
        decreases self,
    {
        match self {
            MetaCommand::CreateSchema { schema_name, .. } => text_held(schema_name@),
            MetaCommand::RenameSchema { old_schema_name, new_schema_name } => {
                text_held(old_schema_name@) + text_held(new_schema_name@)
            },
            MetaCommand::RenameSchemaById { new_schema_name, .. } => {
                text_held(new_schema_name@)
            },
            MetaCommand::DeleteSchema { schema_name } => text_held(schema_name@),
            MetaCommand::CreateTable { schema_name, table_name, payload, .. } => {
                text_held(schema_name@) + text_held(table_name@)
                    + payload@.len()
            },
            MetaCommand::CreateTableStructured {
                schema_name,
                table_name,
                columns_blob,
                locations,
                import_format_blob,
                indexes_blob,
                select_statement,
                source_columns_blob,
                stream_offset_blob,
                unique_key_column_names,
                aggregates,
                trace_obj,
                extension,
                ..
            } => {
                text_held(schema_name@) + text_held(table_name@)
                    + columns_blob@.len()
                    + opt_texts_held(wire::opt_texts_view(locations))
                    + opt_bytes_held(wire::opt_bytes_view(import_format_blob))
                    + indexes_blob@.len()
                    + opt_text_held(wire::opt_text_view(select_statement))
                    + opt_bytes_held(wire::opt_bytes_view(source_columns_blob))
                    + opt_bytes_held(wire::opt_bytes_view(stream_offset_blob))
                    + opt_texts_held(wire::opt_texts_view(unique_key_column_names))
                    + opt_pairs_held(wire::opt_pairs_view(aggregates))
                    + opt_text_held(wire::opt_text_view(trace_obj))
                    + opt_text_held(wire::opt_text_view(extension))
            },
            MetaCommand::UpdateLocationDownloadSize { location, .. } => {
                text_held(location@)
            },
            MetaCommand::CreatePartition { partition_blob } => {
                partition_blob@.len()
            },
            MetaCommand::SwapActivePartitions { payload, .. } => payload@.len(),
            MetaCommand::SwapActivePartitionsStructured {
                current_active_blob,
                new_active_blob,
                new_active_min_max_blob,
            } => {
                current_active_blob@.len() + new_active_blob@.len()
                    + new_active_min_max_blob@.len()
            },
            MetaCommand::CreateMultiPartition { multi_partition_blob } => {
                multi_partition_blob@.len()
            },
            MetaCommand::CommitMultiPartitionSplit {
                new_multi_partitions,
                new_multi_partition_rows,
                old_partitions_blob,
                new_partitions_blob,
                new_partition_rows,
                ..
            } => {
                8 * new_multi_partitions@.len()
                    + 8 * new_multi_partition_rows@.len() + old_partitions_blob@.len()
                    + new_partitions_blob@.len() + 8 * new_partition_rows@.len()
            },
            MetaCommand::CreateIndex { schema_name, table_name, index_def_blob } => {
                text_held(schema_name@) + text_held(table_name@)
                    + index_def_blob@.len()
            },
            MetaCommand::CreatePartitionedIndex { schema, name, columns_blob, .. } => {
                text_held(schema@) + text_held(name@) + columns_blob@.len()
            },
            MetaCommand::DropPartitionedIndex { schema, name } => {
                text_held(schema@) + text_held(name@)
            },
            MetaCommand::CreateChunk { chunk_blob } => chunk_blob@.len(),
            MetaCommand::InsertChunks { chunks_blob } => chunks_blob@.len(),
            MetaCommand::SwapCompactedChunks { old_chunk_ids, .. } => {
                8 * old_chunk_ids@.len()
            },
            MetaCommand::DeleteChunksWithoutChecks { chunk_ids } => {
                8 * chunk_ids@.len()
            },
            MetaCommand::ChunkUpdateLastInserted { chunk_ids, .. } => {
                8 * chunk_ids@.len()
            },
            MetaCommand::SwapChunks { deactivate_ids, uploaded_ids_and_sizes, .. } => {
                8 * deactivate_ids@.len() + 16 * uploaded_ids_and_sizes@.len()
            },
            MetaCommand::SwapChunksWithoutCheck {
                deactivate_ids,
                uploaded_ids_and_sizes,
                ..
            } => 8 * deactivate_ids@.len() + 16 * uploaded_ids_and_sizes@.len(),
            MetaCommand::ActivateChunks { uploaded_chunk_ids, .. } => {
                16 * uploaded_chunk_ids@.len()
            },
            MetaCommand::DeactivateChunks { chunk_ids, .. } => 8 * chunk_ids@.len(),
            MetaCommand::DeactivateChunksWithoutCheck { deactivate_ids } => {
                8 * deactivate_ids@.len()
            },
            MetaCommand::AddJob { job_blob } => job_blob@.len(),
            MetaCommand::StartProcessingJob { server_name, .. } => {
                text_held(server_name@)
            },
            MetaCommand::UpdateStatus { status_blob, .. } => status_blob@.len(),
            MetaCommand::CreateOrUpdateSource { name, credentials_blob } => {
                text_held(name@) + credentials_blob@.len()
            },
            MetaCommand::CreateReplayHandle { seq_pointer_blob, .. } => {
                seq_pointer_blob@.len()
            },
            MetaCommand::CreateReplayHandleFromSeqPointers { seq_pointers_blob, .. } => {
                seq_pointers_blob@.len()
            },
            MetaCommand::ReplaceReplayHandles { old_ids, new_seq_pointer_blob } => {
                8 * old_ids@.len() + new_seq_pointer_blob@.len()
            },
            MetaCommand::AcquirePartitionedLock { payload, .. } => {
                payload@.len()
            },
            MetaCommand::ReleasePartitionedLock { payload, .. } => {
                payload@.len()
            },
            MetaCommand::Generic { method, body } => {
                text_held(method@) + body@.len()
            },
            MetaCommand::Batch { commands } => commands_held(
                commands@,
                commands@.len(),
            ),
            _ => 0,
        }
    }

    /// How many commands a command is, those of a batch counted.
    pub open spec fn commands_in(self) -> nat
        decreases self,
    {
        match self {
            MetaCommand::Batch { commands } => 1 + count_commands(commands@, commands@.len()),
            _ => 1,
        }
    }
}

/// What the first `n` commands hold.
pub open spec fn commands_held(commands: Seq<MetaCommand>, n: nat) -> nat
    decreases commands, n,
{
    if n == 0 || n > commands.len() {
        0
    } else {
        commands_held(commands, (n - 1) as nat) + commands[n - 1].held()
    }
}

/// How many commands the first `n` are.
pub open spec fn count_commands(commands: Seq<MetaCommand>, n: nat) -> nat
    decreases commands, n,
{
    if n == 0 || n > commands.len() {
        0
    } else {
        count_commands(commands, (n - 1) as nat) + commands[n - 1].commands_in()
    }
}

proof fn lemma_texts_held(t: Seq<Seq<char>>, n: nat)
    requires
        n <= t.len(),
    ensures
        texts_bulk(t, n) <= 4 * t.take(n as int).fold_left(
            0nat,
            |n: nat, s: Seq<char>| n + text_held(s),
        ),
    decreases n,
{
    if n > 0 {
        lemma_texts_held(t, (n - 1) as nat);
        assert(t.take(n as int).drop_last() =~= t.take(n - 1));
        assert(t.take(n as int).last() == t[n - 1]);
    }
}

proof fn lemma_pairs_held(p: Seq<(Seq<char>, Seq<char>)>, n: nat)
    requires
        n <= p.len(),
    ensures
        pairs_bulk(p, n) <= 4 * p.take(n as int).fold_left(
            0nat,
            |n: nat, pair: (Seq<char>, Seq<char>)| n + text_held(pair.0) + text_held(pair.1) + 8,
        ),
    decreases n,
{
    if n > 0 {
        lemma_pairs_held(p, (n - 1) as nat);
        assert(p.take(n as int).drop_last() =~= p.take(n - 1));
        assert(p.take(n as int).last() == p[n - 1]);
    }
}

proof fn lemma_lists_held(t: Option<Seq<Seq<char>>>, p: Option<Seq<(Seq<char>, Seq<char>)>>)
    ensures
        opt_texts_bulk(t) <= 4 * opt_texts_held(t) + 24,
        opt_pairs_bulk(p) <= 4 * opt_pairs_held(p) + 24,
{
    if let Some(t) = t {
        lemma_texts_held(t, t.len());
        assert(t.take(t.len() as int) =~= t);
    }
    if let Some(p) = p {
        lemma_pairs_held(p, p.len());
        assert(p.take(p.len() as int) =~= p);
    }
}

proof fn lemma_batch_held(commands: Seq<MetaCommand>, c: MetaCommand, n: nat)
    requires
        c matches MetaCommand::Batch { commands: v } && v@ == commands,
        n <= commands.len(),
        commands_held(commands, n) < 0x1_0000_0000,
    ensures
        commands_bulk(commands, n) <= 4 * commands_held(commands, n) + 3072 * count_commands(
            commands,
            n,
        ),
    decreases c, n,
{
    if n > 0 {
        lemma_batch_held(commands, c, (n - 1) as nat);
        if let MetaCommand::Batch { commands: v } = c {
            assert(decreases_to!(v => v@[n - 1]));
            law_bulk_of_what_is_held(v@[n - 1]);
        }
    }
}

proof fn lemma_bytes_held(b: Seq<u8>)
    requires
        b.len() < 0x1_0000_0000,
    ensures
        bytes_bulk(b) <= 4 * b.len() + 24,
{
}

proof fn lemma_opt_bytes_held(v: Option<Seq<u8>>)
    requires
        opt_bytes_held(v) < 0x1_0000_0000,
    ensures
        opt_bytes_bulk(v) <= 4 * opt_bytes_held(v) + 24,
{
}

#[verifier::rlimit(80)]
#[verifier::spinoff_prover]
proof fn lemma_table_held(c: MetaCommand)
    requires
        c is CreateTableStructured,
        c.held() < 0x1_0000_0000,
    ensures
        c.bulk() <= 4 * c.held() + 3072,
{
    if let MetaCommand::CreateTableStructured {
        columns_blob,
        locations,
        import_format_blob,
        indexes_blob,
        source_columns_blob,
        stream_offset_blob,
        unique_key_column_names,
        aggregates,
        ..
    } = c {
        lemma_bytes_held(columns_blob@);
        lemma_bytes_held(indexes_blob@);
        lemma_opt_bytes_held(wire::opt_bytes_view(import_format_blob));
        lemma_opt_bytes_held(wire::opt_bytes_view(source_columns_blob));
        lemma_opt_bytes_held(wire::opt_bytes_view(stream_offset_blob));
        lemma_lists_held(wire::opt_texts_view(locations), wire::opt_pairs_view(aggregates));
        lemma_lists_held(wire::opt_texts_view(unique_key_column_names), None);
    }
}

/// A command is measured by what it holds: as no more than four times that, and three
/// kibibytes for each of its commands.
#[verifier::rlimit(80)]
#[verifier::spinoff_prover]
pub proof fn law_bulk_of_what_is_held(c: MetaCommand)
    requires
        c.held() < 0x1_0000_0000,
    ensures
        c.bulk() <= 4 * c.held() + 3072 * c.commands_in(),
    decreases c, (if let MetaCommand::Batch { commands } = c {
            commands@.len() + 1
        } else {
            0
        }),
{
    match c {
        MetaCommand::CreateTableStructured { .. } => lemma_table_held(c),
        MetaCommand::Batch { commands } => {
            lemma_batch_held(commands@, c, commands@.len());
        },
        _ => {},
    }
}

/// A command that holds little enough is measured as small enough to be encoded: where four
/// times what it holds and three kibibytes for each of its commands stay below four
/// gibibytes, less four kibibytes.
pub proof fn law_small_enough(c: MetaCommand)
    requires
        4 * c.held() + 3072 * c.commands_in() < 0xffff_f000,
    ensures
        c.bulk() < MAX_BULK,
{
    law_bulk_of_what_is_held(c);
}

} // verus!
