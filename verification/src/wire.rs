//! The fields of a record: how each kind of field is written into a document
//! and what is accepted for it when the record is read back.
//!
//! Numbers are accepted signed or unsigned as long as they fit, text is
//! accepted as a string, a key or a blob of UTF-8 bytes, entries that are not
//! asked for are passed over, and an optional field may be absent or null.

use crate::flex::{
    flex_begin_vector, flex_end_vector, flex_write_bool, flex_write_i64, flex_write_key,
    flex_write_null, flex_write_str, flex_write_u64, FlexKind, FlexReader,
};
#[allow(unused_imports)]
use crate::flex;
#[allow(unused_imports)]
use crate::flex::{Flex, FlexFrame};
use crate::text::{same_text, utf8_text};
use flexbuffers::{FlexbufferSerializer, SerializationError};
use vstd::prelude::*;

verus! {

// ---------------------------------------------------------------------------
// Values of fields
// ---------------------------------------------------------------------------

pub open spec fn u64s_value(v: Seq<u64>) -> Flex {
    Flex::Vector(Seq::new(v.len(), |i: int| Flex::UInt(v[i])))
}

pub open spec fn bytes_value(v: Seq<u8>) -> Flex {
    Flex::Vector(Seq::new(v.len(), |i: int| Flex::UInt(v[i] as u64)))
}

pub open spec fn texts_value(v: Seq<Seq<char>>) -> Flex {
    Flex::Vector(Seq::new(v.len(), |i: int| Flex::Text(v[i])))
}

pub open spec fn pair_value(p: (Seq<char>, Seq<char>)) -> Flex {
    Flex::Vector(seq![Flex::Text(p.0), Flex::Text(p.1)])
}

pub open spec fn pairs_value(v: Seq<(Seq<char>, Seq<char>)>) -> Flex {
    Flex::Vector(Seq::new(v.len(), |i: int| pair_value(v[i])))
}

pub open spec fn opt_u64_value(v: Option<u64>) -> Flex {
    match v {
        Some(n) => Flex::UInt(n),
        None => Flex::Null,
    }
}

pub open spec fn opt_i64_value(v: Option<i64>) -> Flex {
    match v {
        Some(n) => Flex::Int(n),
        None => Flex::Null,
    }
}

pub open spec fn opt_text_value(v: Option<Seq<char>>) -> Flex {
    match v {
        Some(s) => Flex::Text(s),
        None => Flex::Null,
    }
}

pub open spec fn opt_bytes_value(v: Option<Seq<u8>>) -> Flex {
    match v {
        Some(b) => bytes_value(b),
        None => Flex::Null,
    }
}

pub open spec fn opt_texts_value(v: Option<Seq<Seq<char>>>) -> Flex {
    match v {
        Some(b) => texts_value(b),
        None => Flex::Null,
    }
}

pub open spec fn opt_pairs_value(v: Option<Seq<(Seq<char>, Seq<char>)>>) -> Flex {
    match v {
        Some(b) => pairs_value(b),
        None => Flex::Null,
    }
}

pub open spec fn id_size_value(p: (u64, Option<u64>)) -> Flex {
    Flex::Vector(seq![Flex::UInt(p.0), opt_u64_value(p.1)])
}

pub open spec fn id_sizes_value(v: Seq<(u64, Option<u64>)>) -> Flex {
    Flex::Vector(Seq::new(v.len(), |i: int| id_size_value(v[i])))
}

// Views of the types that fields have.

pub open spec fn texts_view(v: Seq<String>) -> Seq<Seq<char>> {
    Seq::new(v.len(), |i: int| v[i]@)
}

pub open spec fn pairs_view(v: Seq<(String, String)>) -> Seq<(Seq<char>, Seq<char>)> {
    Seq::new(v.len(), |i: int| (v[i].0@, v[i].1@))
}

pub open spec fn opt_vec_view<T>(v: Option<Vec<T>>) -> Option<Seq<T>> {
    match v {
        Some(b) => Some(b@),
        None => None,
    }
}

pub open spec fn opt_text_view(v: Option<String>) -> Option<Seq<char>> {
    match v {
        Some(s) => Some(s@),
        None => None,
    }
}

pub open spec fn opt_bytes_view(v: Option<Vec<u8>>) -> Option<Seq<u8>> {
    match v {
        Some(b) => Some(b@),
        None => None,
    }
}

pub open spec fn opt_texts_view(v: Option<Vec<String>>) -> Option<Seq<Seq<char>>> {
    match v {
        Some(b) => Some(texts_view(b@)),
        None => None,
    }
}

pub open spec fn opt_pairs_view(v: Option<Vec<(String, String)>>) -> Option<
    Seq<(Seq<char>, Seq<char>)>,
> {
    match v {
        Some(b) => Some(pairs_view(b@)),
        None => None,
    }
}

// ---------------------------------------------------------------------------
// What is accepted
// ---------------------------------------------------------------------------

pub open spec fn as_u64(w: Flex) -> Option<u64> {
    match w {
        Flex::UInt(n) => Some(n),
        Flex::Int(n) => if n >= 0 {
            Some(n as u64)
        } else {
            None
        },
        _ => None,
    }
}

pub open spec fn as_i64(w: Flex) -> Option<i64> {
    match w {
        Flex::Int(n) => Some(n),
        Flex::UInt(n) => if n <= i64::MAX {
            Some(n as i64)
        } else {
            None
        },
        _ => None,
    }
}

pub open spec fn as_u16(w: Flex) -> Option<u16> {
    match as_u64(w) {
        Some(n) => if n <= u16::MAX {
            Some(n as u16)
        } else {
            None
        },
        None => None,
    }
}

pub open spec fn as_u8(w: Flex) -> Option<u8> {
    match as_u64(w) {
        Some(n) => if n <= u8::MAX {
            Some(n as u8)
        } else {
            None
        },
        None => None,
    }
}

pub open spec fn as_bool(w: Flex) -> Option<bool> {
    match w {
        Flex::Bool(v) => Some(v),
        _ => None,
    }
}

pub open spec fn as_text(w: Flex) -> Option<Seq<char>> {
    match w {
        Flex::Text(s) => Some(s),
        Flex::Key(s) => Some(s),
        Flex::Blob(b) => if vstd::utf8::valid_utf8(b) {
            Some(vstd::utf8::decode_utf8(b))
        } else {
            None
        },
        _ => None,
    }
}

pub open spec fn as_u64s(w: Flex) -> Option<Seq<u64>> {
    match w {
        Flex::Vector(items) => if forall|i: int|
            0 <= i < items.len() ==> as_u64(#[trigger] items[i]) is Some {
            Some(Seq::new(items.len(), |i: int| as_u64(items[i])->0))
        } else {
            None
        },
        _ => None,
    }
}

pub open spec fn as_bytes(w: Flex) -> Option<Seq<u8>> {
    match w {
        Flex::Vector(items) => if forall|i: int|
            0 <= i < items.len() ==> as_u8(#[trigger] items[i]) is Some {
            Some(Seq::new(items.len(), |i: int| as_u8(items[i])->0))
        } else {
            None
        },
        _ => None,
    }
}

pub open spec fn as_texts(w: Flex) -> Option<Seq<Seq<char>>> {
    match w {
        Flex::Vector(items) => if forall|i: int|
            0 <= i < items.len() ==> as_text(#[trigger] items[i]) is Some {
            Some(Seq::new(items.len(), |i: int| as_text(items[i])->0))
        } else {
            None
        },
        _ => None,
    }
}

/// A pair is a vector of at least two items, of which the first two count.
pub open spec fn as_pair(w: Flex) -> Option<(Seq<char>, Seq<char>)> {
    match w {
        Flex::Vector(items) => if items.len() >= 2 && as_text(items[0]) is Some && as_text(
            items[1],
        ) is Some {
            Some((as_text(items[0])->0, as_text(items[1])->0))
        } else {
            None
        },
        _ => None,
    }
}

pub open spec fn as_pairs(w: Flex) -> Option<Seq<(Seq<char>, Seq<char>)>> {
    match w {
        Flex::Vector(items) => if forall|i: int|
            0 <= i < items.len() ==> as_pair(#[trigger] items[i]) is Some {
            Some(Seq::new(items.len(), |i: int| as_pair(items[i])->0))
        } else {
            None
        },
        _ => None,
    }
}

pub open spec fn as_opt_u64(w: Flex) -> Option<Option<u64>> {
    if w is Null {
        Some(None)
    } else {
        match as_u64(w) {
            Some(n) => Some(Some(n)),
            None => None,
        }
    }
}

pub open spec fn as_opt_i64(w: Flex) -> Option<Option<i64>> {
    if w is Null {
        Some(None)
    } else {
        match as_i64(w) {
            Some(n) => Some(Some(n)),
            None => None,
        }
    }
}

pub open spec fn as_opt_text(w: Flex) -> Option<Option<Seq<char>>> {
    if w is Null {
        Some(None)
    } else {
        match as_text(w) {
            Some(n) => Some(Some(n)),
            None => None,
        }
    }
}

pub open spec fn as_opt_bytes(w: Flex) -> Option<Option<Seq<u8>>> {
    if w is Null {
        Some(None)
    } else {
        match as_bytes(w) {
            Some(n) => Some(Some(n)),
            None => None,
        }
    }
}

pub open spec fn as_opt_texts(w: Flex) -> Option<Option<Seq<Seq<char>>>> {
    if w is Null {
        Some(None)
    } else {
        match as_texts(w) {
            Some(n) => Some(Some(n)),
            None => None,
        }
    }
}

pub open spec fn as_opt_pairs(w: Flex) -> Option<Option<Seq<(Seq<char>, Seq<char>)>>> {
    if w is Null {
        Some(None)
    } else {
        match as_pairs(w) {
            Some(n) => Some(Some(n)),
            None => None,
        }
    }
}

/// An id and a size is a vector of at least two items, of which the first two
/// count.
pub open spec fn as_id_size(w: Flex) -> Option<(u64, Option<u64>)> {
    match w {
        Flex::Vector(items) => if items.len() >= 2 && as_u64(items[0]) is Some && as_opt_u64(
            items[1],
        ) is Some {
            Some((as_u64(items[0])->0, as_opt_u64(items[1])->0))
        } else {
            None
        },
        _ => None,
    }
}

pub open spec fn as_id_sizes(w: Flex) -> Option<Seq<(u64, Option<u64>)>> {
    match w {
        Flex::Vector(items) => if forall|i: int|
            0 <= i < items.len() ==> as_id_size(#[trigger] items[i]) is Some {
            Some(Seq::new(items.len(), |i: int| as_id_size(items[i])->0))
        } else {
            None
        },
        _ => None,
    }
}

/// Where a name stands among the entries of a record.
pub enum Found {
    Missing,
    At(int),
    Repeated,
}

pub open spec fn find(entries: Seq<(Seq<char>, Flex)>, name: Seq<char>) -> Found
    decreases entries.len(),
{
    if entries.len() == 0 {
        Found::Missing
    } else {
        let before = find(entries.drop_last(), name);
        if entries.last().0 != name {
            before
        } else if before is Missing {
            Found::At(entries.len() - 1)
        } else {
            Found::Repeated
        }
    }
}

/// The value of a field that has to be there, null where it is not there once.
pub open spec fn entry(entries: Seq<(Seq<char>, Flex)>, name: Seq<char>) -> Option<Flex> {
    match find(entries, name) {
        Found::At(i) => Some(entries[i].1),
        _ => None,
    }
}

/// The value of a field that may be absent, which counts as null.
pub open spec fn optional_entry(entries: Seq<(Seq<char>, Flex)>, name: Seq<char>) -> Option<Flex> {
    match find(entries, name) {
        Found::At(i) => Some(entries[i].1),
        Found::Missing => Some(Flex::Null),
        Found::Repeated => None,
    }
}

pub proof fn lemma_find_at(entries: Seq<(Seq<char>, Flex)>, name: Seq<char>)
    ensures
        find(entries, name) matches Found::At(i) ==> 0 <= i < entries.len() && entries[i].0 == name,
        find(entries, name) is Missing ==> forall|i: int|
            0 <= i < entries.len() ==> (#[trigger] entries[i]).0 != name,
    decreases entries.len(),
{
    if entries.len() > 0 {
        lemma_find_at(entries.drop_last(), name);
        assert forall|i: int|
            0 <= i < entries.len() && find(entries, name) is Missing implies (
        #[trigger] entries[i]).0 != name by {
            if i < entries.len() - 1 {
                assert(entries.drop_last()[i] == entries[i]);
            }
        }
    }
}

pub proof fn lemma_find_distinct(entries: Seq<(Seq<char>, Flex)>, j: int)
    requires
        flex::distinct_keys(entries),
        0 <= j < entries.len(),
    ensures
        find(entries, entries[j].0) == Found::At(j),
    decreases entries.len(),
{
    let name = entries[j].0;
    let front = entries.drop_last();
    assert forall|a: int, b: int| 0 <= a < b < front.len() implies (#[trigger] front[a]).0 != (
    #[trigger] front[b]).0 by {
        assert(front[a] == entries[a] && front[b] == entries[b]);
    }
    if j < entries.len() - 1 {
        lemma_find_distinct(front, j);
        assert(front[j] == entries[j]);
    } else {
        lemma_find_at(front, name);
        match find(front, name) {
            Found::At(i) => {
                assert(front[i] == entries[i]);
            },
            Found::Repeated => {
                lemma_not_repeated(front, name);
            },
            Found::Missing => {},
        }
    }
}

proof fn lemma_not_repeated(entries: Seq<(Seq<char>, Flex)>, name: Seq<char>)
    requires
        flex::distinct_keys(entries),
    ensures
        !(find(entries, name) is Repeated),
    decreases entries.len(),
{
    if entries.len() > 0 {
        let front = entries.drop_last();
        assert forall|a: int, b: int| 0 <= a < b < front.len() implies (#[trigger] front[a]).0 != (
        #[trigger] front[b]).0 by {
            assert(front[a] == entries[a] && front[b] == entries[b]);
        }
        lemma_not_repeated(front, name);
        lemma_find_at(front, name);
        if let Found::At(i) = find(front, name) {
            assert(front[i] == entries[i]);
        }
    }
}

/// The number that a value is, if it is one.
pub open spec fn number_in(w: Flex) -> Option<int> {
    match w {
        Flex::UInt(n) => Some(n as int),
        Flex::Int(n) => Some(n as int),
        _ => None,
    }
}

/// A number is read as itself wherever it fits, whether or not it was stored with a sign, and
/// not at all where it does not fit: it is never cut.
pub proof fn law_numbers_are_read_as_themselves(w: Flex)
    ensures
        as_u64(w) matches Some(n) ==> number_in(w) == Some(n as int),
        as_i64(w) matches Some(n) ==> number_in(w) == Some(n as int),
        as_u16(w) matches Some(n) ==> number_in(w) == Some(n as int),
        as_u8(w) matches Some(n) ==> number_in(w) == Some(n as int),
        number_in(w) matches Some(n) ==> {
            &&& as_u64(w) is Some <==> 0 <= n <= u64::MAX
            &&& as_i64(w) is Some <==> i64::MIN <= n <= i64::MAX
            &&& as_u16(w) is Some <==> 0 <= n <= u16::MAX
            &&& as_u8(w) is Some <==> 0 <= n <= u8::MAX
        },
{
}

/// A text is read whether it is stored as a text, a key or its bytes in UTF-8, and a flag
/// only as a flag.
pub proof fn law_texts_and_flags(s: Seq<char>, v: bool, w: Flex)
    ensures
        as_text(Flex::Text(s)) == Some(s),
        as_text(Flex::Key(s)) == Some(s),
        as_text(Flex::Blob(vstd::utf8::encode_utf8(s))) == Some(s),
        as_bool(Flex::Bool(v)) == Some(v),
        as_bool(w) is Some <==> w is Bool,
        as_text(w) is Some ==> w is Text || w is Key || w is Blob,
{
    vstd::utf8::encode_utf8_decode_utf8(s);
    vstd::utf8::encode_utf8_valid_utf8(s);
}

/// A list is read item by item, all of it or nothing.
pub proof fn law_lists_are_read_whole(items: Seq<Flex>, i: int)
    requires
        0 <= i < items.len(),
    ensures
        as_bytes(Flex::Vector(items)) matches Some(b) ==> b.len() == items.len() && as_u8(items[i])
            == Some(b[i]),
        as_u64s(Flex::Vector(items)) matches Some(v) ==> v.len() == items.len() && as_u64(items[i])
            == Some(v[i]),
        as_texts(Flex::Vector(items)) matches Some(t) ==> t.len() == items.len() && as_text(
            items[i],
        ) == Some(t[i]),
        as_pairs(Flex::Vector(items)) matches Some(p) ==> p.len() == items.len() && as_pair(
            items[i],
        ) == Some(p[i]),
        as_id_sizes(Flex::Vector(items)) matches Some(v) ==> v.len() == items.len() && as_id_size(
            items[i],
        ) == Some(v[i]),
        as_u8(items[i]) is None ==> as_bytes(Flex::Vector(items)) is None,
        as_u64(items[i]) is None ==> as_u64s(Flex::Vector(items)) is None,
        as_text(items[i]) is None ==> as_texts(Flex::Vector(items)) is None,
{
}

/// A field that may be absent counts as null where it is not there, and null as no value; a
/// field that must be there is missed.
pub proof fn law_absent_fields(entries: Seq<(Seq<char>, Flex)>, name: Seq<char>)
    requires
        forall|i: int| 0 <= i < entries.len() ==> (#[trigger] entries[i]).0 != name,
    ensures
        entry(entries, name) is None,
        optional_entry(entries, name) == Some(Flex::Null),
        as_opt_u64(Flex::Null) == Some(None::<u64>),
        as_opt_i64(Flex::Null) == Some(None::<i64>),
        as_opt_text(Flex::Null) == Some(None::<Seq<char>>),
        as_opt_bytes(Flex::Null) == Some(None::<Seq<u8>>),
        as_opt_texts(Flex::Null) == Some(None::<Seq<Seq<char>>>),
        as_opt_pairs(Flex::Null) == Some(None::<Seq<(Seq<char>, Seq<char>)>>),
    decreases entries.len(),
{
    if entries.len() > 0 {
        let front = entries.drop_last();
        assert forall|i: int| 0 <= i < front.len() implies (#[trigger] front[i]).0 != name by {
            assert(front[i] == entries[i]);
        }
        law_absent_fields(front, name);
        assert(entries[entries.len() - 1].0 != name);
    }
}

/// A field is found exactly if its name stands once among the entries; a name that stands
/// twice is not taken for absent.
pub proof fn law_fields_are_found_once(
    entries: Seq<(Seq<char>, Flex)>,
    name: Seq<char>,
    i: int,
    j: int,
)
    requires
        0 <= i < entries.len(),
        0 <= j < entries.len(),
        entries[i].0 == name,
    ensures
        !(find(entries, name) is Missing),
        find(entries, name) matches Found::At(k) ==> k == i,
        i != j && entries[j].0 == name ==> find(entries, name) is Repeated,
        (forall|k: int| 0 <= k < entries.len() && k != i ==> (#[trigger] entries[k]).0 != name)
            ==> find(entries, name) == Found::At(i),
    decreases entries.len(),
{
    lemma_find_at(entries, name);
    let front = entries.drop_last();
    lemma_find_at(front, name);
    let last = entries.len() - 1;
    if i < last {
        assert(front[i] == entries[i]);
        law_fields_are_found_once(front, name, i, if j < last { j } else { i });
        if forall|k: int| 0 <= k < entries.len() && k != i ==> (#[trigger] entries[k]).0 != name {
            assert(entries[last].0 != name);
            assert forall|k: int| 0 <= k < front.len() && k != i implies (#[trigger] front[k]).0
                != name by {
                assert(front[k] == entries[k]);
            }
        }
    } else {
        if j < last && entries[j].0 == name {
            assert(front[j] == entries[j]);
            law_fields_are_found_once(front, name, j, j);
        }
        if forall|k: int| 0 <= k < entries.len() && k != i ==> (#[trigger] entries[k]).0 != name {
            match find(front, name) {
                Found::At(k) => {
                    assert(front[k] == entries[k]);
                },
                Found::Repeated => {
                    lemma_repeated(front, name);
                    let k = choose|k: int| 0 <= k < front.len() && (#[trigger] front[k]).0 == name;
                    assert(front[k] == entries[k]);
                },
                Found::Missing => {},
            }
        }
    }
    if find(entries, name) is At {
        let k = find(entries, name)->At_0;
        if k != i {
            if k < last {
                assert(front[k] == entries[k]);
            }
            if i < last {
                assert(front[i] == entries[i]);
            }
        }
    }
}

proof fn lemma_repeated(entries: Seq<(Seq<char>, Flex)>, name: Seq<char>)
    requires
        find(entries, name) is Repeated,
    ensures
        exists|k: int| 0 <= k < entries.len() && (#[trigger] entries[k]).0 == name,
    decreases entries.len(),
{
    if entries.last().0 == name {
        assert(entries[entries.len() - 1].0 == name);
    } else {
        let front = entries.drop_last();
        lemma_repeated(front, name);
        let k = choose|k: int| 0 <= k < front.len() && (#[trigger] front[k]).0 == name;
        assert(entries[k].0 == name);
    }
}

/// Reading a record back finds under each name the value written there.
pub proof fn lemma_read_back(written: Seq<(Seq<char>, Flex)>, stored: Seq<(Seq<char>, Flex)>)
    requires
        flex::same_value(Flex::Record(written), Flex::Record(stored)),
        forall|i: int| 0 <= i < written.len() ==> flex::flat((#[trigger] written[i]).1),
    ensures
        forall|i: int|
            0 <= i < written.len() ==> entry(stored, (#[trigger] written[i]).0) == Some(
                written[i].1,
            ) && optional_entry(stored, written[i].0) == Some(written[i].1),
{
    assert forall|i: int| 0 <= i < written.len() implies entry(stored, (#[trigger] written[i]).0)
        == Some(written[i].1) && optional_entry(stored, written[i].0) == Some(written[i].1) by {
        let j = choose|j: int|
            0 <= j < stored.len() && (#[trigger] stored[j]).0 == written[i].0 && flex::same_value(
                written[i].1,
                stored[j].1,
            );
        lemma_find_distinct(stored, j);
        flex::lemma_flat_same(written[i].1, stored[j].1);
    }
}

// ---------------------------------------------------------------------------
// What was written is accepted
// ---------------------------------------------------------------------------

pub proof fn lemma_bytes_value(v: Seq<u8>)
    ensures
        flex::flat(bytes_value(v)),
        as_bytes(bytes_value(v)) == Some(v),
{
    let items = bytes_value(v)->Vector_0;
    assert(forall|i: int| 0 <= i < items.len() ==> as_u8(#[trigger] items[i]) == Some(v[i]));
    assert(as_bytes(bytes_value(v))->0 =~= v);
    assert(forall|i: int| 0 <= i < items.len() ==> flex::flat(#[trigger] items[i]));
}

pub proof fn lemma_u64s_value(v: Seq<u64>)
    ensures
        flex::flat(u64s_value(v)),
        as_u64s(u64s_value(v)) == Some(v),
{
    let items = u64s_value(v)->Vector_0;
    assert(forall|i: int| 0 <= i < items.len() ==> as_u64(#[trigger] items[i]) == Some(v[i]));
    assert(as_u64s(u64s_value(v))->0 =~= v);
    assert(forall|i: int| 0 <= i < items.len() ==> flex::flat(#[trigger] items[i]));
}

pub proof fn lemma_texts_value(v: Seq<Seq<char>>)
    ensures
        flex::flat(texts_value(v)),
        as_texts(texts_value(v)) == Some(v),
{
    let items = texts_value(v)->Vector_0;
    assert(forall|i: int| 0 <= i < items.len() ==> as_text(#[trigger] items[i]) == Some(v[i]));
    assert(as_texts(texts_value(v))->0 =~= v);
    assert(forall|i: int| 0 <= i < items.len() ==> flex::flat(#[trigger] items[i]));
}

pub proof fn lemma_pairs_value(v: Seq<(Seq<char>, Seq<char>)>)
    ensures
        flex::flat(pairs_value(v)),
        as_pairs(pairs_value(v)) == Some(v),
{
    let items = pairs_value(v)->Vector_0;
    assert(forall|i: int| 0 <= i < items.len() ==> as_pair(#[trigger] items[i]) == Some(v[i]));
    assert(as_pairs(pairs_value(v))->0 =~= v);
    assert forall|i: int| 0 <= i < items.len() implies flex::flat(#[trigger] items[i]) by {
        let two = items[i]->Vector_0;
        assert(forall|j: int| 0 <= j < two.len() ==> flex::flat(#[trigger] two[j]));
    }
}

pub proof fn lemma_id_sizes_value(v: Seq<(u64, Option<u64>)>)
    ensures
        flex::flat(id_sizes_value(v)),
        as_id_sizes(id_sizes_value(v)) == Some(v),
{
    let items = id_sizes_value(v)->Vector_0;
    assert(forall|i: int| 0 <= i < items.len() ==> as_id_size(#[trigger] items[i]) == Some(v[i]));
    assert(as_id_sizes(id_sizes_value(v))->0 =~= v);
    assert forall|i: int| 0 <= i < items.len() implies flex::flat(#[trigger] items[i]) by {
        let two = items[i]->Vector_0;
        assert(forall|j: int| 0 <= j < two.len() ==> flex::flat(#[trigger] two[j]));
    }
}

pub proof fn lemma_text_back(e: Seq<(Seq<char>, Flex)>, name: Seq<char>, v: Seq<char>)
    requires
        entry(e, name) == Some(Flex::Text(v)),
    ensures
        text_entry(e, name) == Some(v),
{
    reveal(text_entry);
}

pub proof fn lemma_bool_back(e: Seq<(Seq<char>, Flex)>, name: Seq<char>, v: bool)
    requires
        entry(e, name) == Some(Flex::Bool(v)),
    ensures
        bool_entry(e, name) == Some(v),
{
    reveal(bool_entry);
}

pub proof fn lemma_u64_back(e: Seq<(Seq<char>, Flex)>, name: Seq<char>, v: u64)
    requires
        entry(e, name) == Some(Flex::UInt(v)),
    ensures
        u64_entry(e, name) == Some(v),
{
    reveal(u64_entry);
}

pub proof fn lemma_u16_back(e: Seq<(Seq<char>, Flex)>, name: Seq<char>, v: u16)
    requires
        entry(e, name) == Some(Flex::UInt(v as u64)),
    ensures
        u16_entry(e, name) == Some(v),
{
    reveal(u16_entry);
}

pub proof fn lemma_i64_back(e: Seq<(Seq<char>, Flex)>, name: Seq<char>, v: i64)
    requires
        entry(e, name) == Some(Flex::Int(v)),
    ensures
        i64_entry(e, name) == Some(v),
{
    reveal(i64_entry);
}

pub proof fn lemma_bytes_back(e: Seq<(Seq<char>, Flex)>, name: Seq<char>, v: Seq<u8>)
    requires
        entry(e, name) == Some(bytes_value(v)),
    ensures
        bytes_entry(e, name) == Some(v),
{
    reveal(bytes_entry);
    lemma_bytes_value(v);
}

pub proof fn lemma_u64s_back(e: Seq<(Seq<char>, Flex)>, name: Seq<char>, v: Seq<u64>)
    requires
        entry(e, name) == Some(u64s_value(v)),
    ensures
        u64s_entry(e, name) == Some(v),
{
    reveal(u64s_entry);
    lemma_u64s_value(v);
}

pub proof fn lemma_id_sizes_back(e: Seq<(Seq<char>, Flex)>, name: Seq<char>, v: Seq<(u64, Option<u64>)>)
    requires
        entry(e, name) == Some(id_sizes_value(v)),
    ensures
        id_sizes_entry(e, name) == Some(v),
{
    reveal(id_sizes_entry);
    lemma_id_sizes_value(v);
}

pub proof fn lemma_opt_text_back(e: Seq<(Seq<char>, Flex)>, name: Seq<char>, v: Option<Seq<char>>)
    requires
        optional_entry(e, name) == Some(opt_text_value(v)),
    ensures
        opt_text_entry(e, name) == Some(v),
{
    reveal(opt_text_entry);
}

pub proof fn lemma_opt_u64_back(e: Seq<(Seq<char>, Flex)>, name: Seq<char>, v: Option<u64>)
    requires
        optional_entry(e, name) == Some(opt_u64_value(v)),
    ensures
        opt_u64_entry(e, name) == Some(v),
{
    reveal(opt_u64_entry);
}

pub proof fn lemma_opt_i64_back(e: Seq<(Seq<char>, Flex)>, name: Seq<char>, v: Option<i64>)
    requires
        optional_entry(e, name) == Some(opt_i64_value(v)),
    ensures
        opt_i64_entry(e, name) == Some(v),
{
    reveal(opt_i64_entry);
}

pub proof fn lemma_opt_bytes_back(e: Seq<(Seq<char>, Flex)>, name: Seq<char>, v: Option<Seq<u8>>)
    requires
        optional_entry(e, name) == Some(opt_bytes_value(v)),
    ensures
        opt_bytes_entry(e, name) == Some(v),
{
    reveal(opt_bytes_entry);
    if let Some(x) = v {
        lemma_bytes_value(x);
    }
}

pub proof fn lemma_opt_texts_back(e: Seq<(Seq<char>, Flex)>, name: Seq<char>, v: Option<Seq<Seq<char>>>)
    requires
        optional_entry(e, name) == Some(opt_texts_value(v)),
    ensures
        opt_texts_entry(e, name) == Some(v),
{
    reveal(opt_texts_entry);
    if let Some(x) = v {
        lemma_texts_value(x);
    }
}

pub proof fn lemma_opt_pairs_back(e: Seq<(Seq<char>, Flex)>, name: Seq<char>, v: Option<Seq<(Seq<char>, Seq<char>)>>)
    requires
        optional_entry(e, name) == Some(opt_pairs_value(v)),
    ensures
        opt_pairs_entry(e, name) == Some(v),
{
    reveal(opt_pairs_entry);
    if let Some(x) = v {
        lemma_pairs_value(x);
    }
}

pub proof fn lemma_opt_text_flat(v: Option<Seq<char>>)
    ensures
        flex::flat(opt_text_value(v)),
{
}

pub proof fn lemma_opt_u64_flat(v: Option<u64>)
    ensures
        flex::flat(opt_u64_value(v)),
{
}

pub proof fn lemma_opt_i64_flat(v: Option<i64>)
    ensures
        flex::flat(opt_i64_value(v)),
{
}

pub proof fn lemma_opt_bytes_flat(v: Option<Seq<u8>>)
    ensures
        flex::flat(opt_bytes_value(v)),
{
    if let Some(x) = v {
        lemma_bytes_value(x);
    }
}

pub proof fn lemma_opt_texts_flat(v: Option<Seq<Seq<char>>>)
    ensures
        flex::flat(opt_texts_value(v)),
{
    if let Some(x) = v {
        lemma_texts_value(x);
    }
}

pub proof fn lemma_opt_pairs_flat(v: Option<Seq<(Seq<char>, Seq<char>)>>)
    ensures
        flex::flat(opt_pairs_value(v)),
{
    if let Some(x) = v {
        lemma_pairs_value(x);
    }
}

// ---------------------------------------------------------------------------
// Reading
// ---------------------------------------------------------------------------

/// The entries of the record at a reader.
pub open spec fn entries_at(r: FlexReader<'_>) -> Seq<(Seq<char>, Flex)> {
    r.value()->Record_0
}

fn read_u64(r: &FlexReader<'_>) -> (x: Option<u64>)
    ensures
        x == as_u64(r.value()),
{
    match r.kind() {
        FlexKind::UInt => Some(r.u64_value()),
        FlexKind::Int => {
            let n: i64 = r.i64_value();
            if n >= 0 {
                Some(n as u64)
            } else {
                None
            }
        },
        _ => None,
    }
}

fn read_i64(r: &FlexReader<'_>) -> (x: Option<i64>)
    ensures
        x == as_i64(r.value()),
{
    match r.kind() {
        FlexKind::Int => Some(r.i64_value()),
        FlexKind::UInt => {
            let n: u64 = r.u64_value();
            if n <= i64::MAX as u64 {
                Some(n as i64)
            } else {
                None
            }
        },
        _ => None,
    }
}

pub(crate) fn read_u16(r: &FlexReader<'_>) -> (x: Option<u16>)
    ensures
        x == as_u16(r.value()),
{
    match read_u64(r) {
        Some(n) if n <= u16::MAX as u64 => Some(n as u16),
        _ => None,
    }
}

fn read_u8(r: &FlexReader<'_>) -> (x: Option<u8>)
    ensures
        x == as_u8(r.value()),
{
    match read_u64(r) {
        Some(n) if n <= u8::MAX as u64 => Some(n as u8),
        _ => None,
    }
}

fn read_bool(r: &FlexReader<'_>) -> (x: Option<bool>)
    ensures
        x == as_bool(r.value()),
{
    match r.kind() {
        FlexKind::Bool => Some(r.bool_value()),
        _ => None,
    }
}

fn read_text(r: &FlexReader<'_>) -> (x: Option<String>)
    ensures
        opt_text_view(x) == as_text(r.value()),
{
    match r.kind() {
        FlexKind::Text => Some(r.text_value()),
        FlexKind::Key => Some(r.text_value()),
        FlexKind::Blob => {
            let b: Vec<u8> = r.blob_value();
            match utf8_text(b.as_slice()) {
                Some(t) => {
                    proof {
                        vstd::utf8::encode_utf8_decode_utf8(t@);
                    }
                    Some(t)
                },
                None => None,
            }
        },
        _ => None,
    }
}

fn read_u64s(r: &FlexReader<'_>) -> (x: Option<Vec<u64>>)
    ensures
        opt_vec_view(x) == as_u64s(r.value()),
{
    match r.kind() {
        FlexKind::Vector => {},
        _ => {
            return None;
        },
    }
    let n: usize = r.count();
    let ghost items = r.value()->Vector_0;
    let mut out: Vec<u64> = Vec::new();
    let mut i: usize = 0;
    while i < n
        invariant
            r.value() == Flex::Vector(items),
            items.len() == n,
            0 <= i <= n,
            out@.len() == i,
            forall|k: int|
                0 <= k < i ==> as_u64(#[trigger] items[k]) == Some(out@[k]),
        decreases n - i,
    {
        match read_u64(&r.item(i)) {
            None => {
                return None;
            },
            Some(v) => {
                out.push(v);
            },
        }
        i = i + 1;
    }
    proof {
        assert(forall|k: int| 0 <= k < n ==> as_u64(#[trigger] items[k]) is Some);
        let want = as_u64s(r.value())->0;
        assert(out@ =~= want);
    }
    Some(out)
}

fn read_bytes(r: &FlexReader<'_>) -> (x: Option<Vec<u8>>)
    ensures
        opt_vec_view(x) == as_bytes(r.value()),
{
    match r.kind() {
        FlexKind::Vector => {},
        _ => {
            return None;
        },
    }
    let n: usize = r.count();
    let ghost items = r.value()->Vector_0;
    let mut out: Vec<u8> = Vec::new();
    let mut i: usize = 0;
    while i < n
        invariant
            r.value() == Flex::Vector(items),
            items.len() == n,
            0 <= i <= n,
            out@.len() == i,
            forall|k: int|
                0 <= k < i ==> as_u8(#[trigger] items[k]) == Some(out@[k]),
        decreases n - i,
    {
        match read_u8(&r.item(i)) {
            None => {
                return None;
            },
            Some(v) => {
                out.push(v);
            },
        }
        i = i + 1;
    }
    proof {
        assert(forall|k: int| 0 <= k < n ==> as_u8(#[trigger] items[k]) is Some);
        let want = as_bytes(r.value())->0;
        assert(out@ =~= want);
    }
    Some(out)
}

fn read_texts(r: &FlexReader<'_>) -> (x: Option<Vec<String>>)
    ensures
        opt_texts_view(x) == as_texts(r.value()),
{
    match r.kind() {
        FlexKind::Vector => {},
        _ => {
            return None;
        },
    }
    let n: usize = r.count();
    let ghost items = r.value()->Vector_0;
    let mut out: Vec<String> = Vec::new();
    let mut i: usize = 0;
    while i < n
        invariant
            r.value() == Flex::Vector(items),
            items.len() == n,
            0 <= i <= n,
            out@.len() == i,
            forall|k: int|
                0 <= k < i ==> as_text(#[trigger] items[k]) == Some(out@[k]@),
        decreases n - i,
    {
        match read_text(&r.item(i)) {
            None => {
                return None;
            },
            Some(v) => {
                out.push(v);
            },
        }
        i = i + 1;
    }
    proof {
        assert(forall|k: int| 0 <= k < n ==> as_text(#[trigger] items[k]) is Some);
        let want = as_texts(r.value())->0;
        assert(texts_view(out@) =~= want);
    }
    Some(out)
}

fn read_pair(r: &FlexReader<'_>) -> (x: Option<(String, String)>)
    ensures
        x is Some <==> as_pair(r.value()) is Some,
        x matches Some(p) ==> as_pair(r.value()) == Some((p.0@, p.1@)),
{
    match r.kind() {
        FlexKind::Vector => {},
        _ => {
            return None;
        },
    }
    if r.count() < 2 {
        return None;
    }
    let first: Option<String> = read_text(&r.item(0));
    let second: Option<String> = read_text(&r.item(1));
    match (first, second) {
        (Some(a), Some(b)) => Some((a, b)),
        _ => None,
    }
}

fn read_pairs(r: &FlexReader<'_>) -> (x: Option<Vec<(String, String)>>)
    ensures
        opt_pairs_view(x) == as_pairs(r.value()),
{
    match r.kind() {
        FlexKind::Vector => {},
        _ => {
            return None;
        },
    }
    let n: usize = r.count();
    let ghost items = r.value()->Vector_0;
    let mut out: Vec<(String, String)> = Vec::new();
    let mut i: usize = 0;
    while i < n
        invariant
            r.value() == Flex::Vector(items),
            items.len() == n,
            0 <= i <= n,
            out@.len() == i,
            forall|k: int|
                0 <= k < i ==> as_pair(#[trigger] items[k]) == Some((out@[k].0@, out@[k].1@)),
        decreases n - i,
    {
        match read_pair(&r.item(i)) {
            None => {
                return None;
            },
            Some(v) => {
                out.push(v);
            },
        }
        i = i + 1;
    }
    proof {
        assert(forall|k: int| 0 <= k < n ==> as_pair(#[trigger] items[k]) is Some);
        let want = as_pairs(r.value())->0;
        assert(pairs_view(out@) =~= want);
    }
    Some(out)
}

fn read_opt_u64(r: &FlexReader<'_>) -> (x: Option<Option<u64>>)
    ensures
        x == as_opt_u64(r.value()),
{
    match r.kind() {
        FlexKind::Null => Some(None),
        _ => match read_u64(r) {
            Some(n) => Some(Some(n)),
            None => None,
        },
    }
}

fn read_id_size(r: &FlexReader<'_>) -> (x: Option<(u64, Option<u64>)>)
    ensures
        x == as_id_size(r.value()),
{
    match r.kind() {
        FlexKind::Vector => {},
        _ => {
            return None;
        },
    }
    if r.count() < 2 {
        return None;
    }
    let id: Option<u64> = read_u64(&r.item(0));
    let size: Option<Option<u64>> = read_opt_u64(&r.item(1));
    match (id, size) {
        (Some(a), Some(b)) => Some((a, b)),
        _ => None,
    }
}

fn read_id_sizes(r: &FlexReader<'_>) -> (x: Option<Vec<(u64, Option<u64>)>>)
    ensures
        opt_vec_view(x) == as_id_sizes(r.value()),
{
    match r.kind() {
        FlexKind::Vector => {},
        _ => {
            return None;
        },
    }
    let n: usize = r.count();
    let ghost items = r.value()->Vector_0;
    let mut out: Vec<(u64, Option<u64>)> = Vec::new();
    let mut i: usize = 0;
    while i < n
        invariant
            r.value() == Flex::Vector(items),
            items.len() == n,
            0 <= i <= n,
            out@.len() == i,
            forall|k: int|
                0 <= k < i ==> as_id_size(#[trigger] items[k]) == Some(out@[k]),
        decreases n - i,
    {
        match read_id_size(&r.item(i)) {
            None => {
                return None;
            },
            Some(v) => {
                out.push(v);
            },
        }
        i = i + 1;
    }
    proof {
        assert(forall|k: int| 0 <= k < n ==> as_id_size(#[trigger] items[k]) is Some);
        let want = as_id_sizes(r.value())->0;
        assert(out@ =~= want);
    }
    Some(out)
}

/// Where a name stands among the entries of the record at a reader.
pub(crate) enum Field<'a> {
    Missing,
    At(FlexReader<'a>),
    Repeated,
}

/// Looks a name up in the record at a reader.
pub(crate) fn find_field<'a>(r: &FlexReader<'a>, name: &str) -> (f: Field<'a>)
    requires
        r.value() is Record,
    ensures
        match (f, find(entries_at(*r), name@)) {
            (Field::Missing, Found::Missing) => true,
            (Field::Repeated, Found::Repeated) => true,
            (Field::At(item), Found::At(i)) => {
                &&& item.value() == entries_at(*r)[i].1
                &&& item.depth() < r.depth()
            },
            _ => false,
        },
{
    let n: usize = r.count();
    let ghost entries = entries_at(*r);
    let mut found: Option<usize> = None;
    let mut repeated: bool = false;
    let mut i: usize = 0;
    while i < n
        invariant
            r.value() == Flex::Record(entries),
            entries.len() == n,
            0 <= i <= n,
            find(entries.take(i as int), name@) == (if repeated {
                Found::Repeated
            } else {
                match found {
                    Some(k) => Found::At(k as int),
                    None => Found::Missing,
                }
            }),
            found matches Some(k) ==> k < i,
            repeated ==> found is Some,
        decreases n - i,
    {
        assert(entries.take(i + 1).drop_last() =~= entries.take(i as int));
        assert(entries.take(i + 1).last() == entries[i as int]);
        if same_text(r.key(i).as_str(), name) {
            match found {
                Some(_) => {
                    repeated = true;
                },
                None => {
                    found = Some(i);
                },
            }
        }
        i = i + 1;
    }
    assert(entries.take(n as int) =~= entries);
    if repeated {
        Field::Repeated
    } else {
        match found {
            None => Field::Missing,
            Some(k) => Field::At(r.item(k)),
        }
    }
}

// The value of a field of each kind, `None` where the record does not hold one.

#[verifier::opaque]
pub open spec fn text_entry(entries: Seq<(Seq<char>, Flex)>, name: Seq<char>) -> Option<Seq<char>> {
    match entry(entries, name) {
        Some(w) => as_text(w),
        None => None,
    }
}

#[verifier::opaque]
pub open spec fn bool_entry(entries: Seq<(Seq<char>, Flex)>, name: Seq<char>) -> Option<bool> {
    match entry(entries, name) {
        Some(w) => as_bool(w),
        None => None,
    }
}

#[verifier::opaque]
pub open spec fn u64_entry(entries: Seq<(Seq<char>, Flex)>, name: Seq<char>) -> Option<u64> {
    match entry(entries, name) {
        Some(w) => as_u64(w),
        None => None,
    }
}

#[verifier::opaque]
pub open spec fn u16_entry(entries: Seq<(Seq<char>, Flex)>, name: Seq<char>) -> Option<u16> {
    match entry(entries, name) {
        Some(w) => as_u16(w),
        None => None,
    }
}

#[verifier::opaque]
pub open spec fn i64_entry(entries: Seq<(Seq<char>, Flex)>, name: Seq<char>) -> Option<i64> {
    match entry(entries, name) {
        Some(w) => as_i64(w),
        None => None,
    }
}

#[verifier::opaque]
pub open spec fn bytes_entry(entries: Seq<(Seq<char>, Flex)>, name: Seq<char>) -> Option<Seq<u8>> {
    match entry(entries, name) {
        Some(w) => as_bytes(w),
        None => None,
    }
}

#[verifier::opaque]
pub open spec fn u64s_entry(entries: Seq<(Seq<char>, Flex)>, name: Seq<char>) -> Option<Seq<u64>> {
    match entry(entries, name) {
        Some(w) => as_u64s(w),
        None => None,
    }
}

#[verifier::opaque]
pub open spec fn id_sizes_entry(entries: Seq<(Seq<char>, Flex)>, name: Seq<char>) -> Option<Seq<(u64, Option<u64>)>> {
    match entry(entries, name) {
        Some(w) => as_id_sizes(w),
        None => None,
    }
}

#[verifier::opaque]
pub open spec fn opt_text_entry(entries: Seq<(Seq<char>, Flex)>, name: Seq<char>) -> Option<
    Option<Seq<char>>,
> {
    match optional_entry(entries, name) {
        Some(w) => as_opt_text(w),
        None => None,
    }
}

#[verifier::opaque]
pub open spec fn opt_u64_entry(entries: Seq<(Seq<char>, Flex)>, name: Seq<char>) -> Option<
    Option<u64>,
> {
    match optional_entry(entries, name) {
        Some(w) => as_opt_u64(w),
        None => None,
    }
}

#[verifier::opaque]
pub open spec fn opt_i64_entry(entries: Seq<(Seq<char>, Flex)>, name: Seq<char>) -> Option<
    Option<i64>,
> {
    match optional_entry(entries, name) {
        Some(w) => as_opt_i64(w),
        None => None,
    }
}

#[verifier::opaque]
pub open spec fn opt_bytes_entry(entries: Seq<(Seq<char>, Flex)>, name: Seq<char>) -> Option<
    Option<Seq<u8>>,
> {
    match optional_entry(entries, name) {
        Some(w) => as_opt_bytes(w),
        None => None,
    }
}

#[verifier::opaque]
pub open spec fn opt_texts_entry(entries: Seq<(Seq<char>, Flex)>, name: Seq<char>) -> Option<
    Option<Seq<Seq<char>>>,
> {
    match optional_entry(entries, name) {
        Some(w) => as_opt_texts(w),
        None => None,
    }
}

#[verifier::opaque]
pub open spec fn opt_pairs_entry(entries: Seq<(Seq<char>, Flex)>, name: Seq<char>) -> Option<
    Option<Seq<(Seq<char>, Seq<char>)>>,
> {
    match optional_entry(entries, name) {
        Some(w) => as_opt_pairs(w),
        None => None,
    }
}

pub(crate) fn text_field(r: &FlexReader<'_>, name: &str) -> (x: Option<String>)
    requires
        r.value() is Record,
    ensures
        opt_text_view(x) == text_entry(entries_at(*r), name@),
{
    reveal(text_entry);
    match find_field(r, name) {
        Field::At(item) => read_text(&item),
        _ => None,
    }
}

pub(crate) fn bool_field(r: &FlexReader<'_>, name: &str) -> (x: Option<bool>)
    requires
        r.value() is Record,
    ensures
        x == bool_entry(entries_at(*r), name@),
{
    reveal(bool_entry);
    match find_field(r, name) {
        Field::At(item) => read_bool(&item),
        _ => None,
    }
}

pub(crate) fn u64_field(r: &FlexReader<'_>, name: &str) -> (x: Option<u64>)
    requires
        r.value() is Record,
    ensures
        x == u64_entry(entries_at(*r), name@),
{
    reveal(u64_entry);
    match find_field(r, name) {
        Field::At(item) => read_u64(&item),
        _ => None,
    }
}

pub(crate) fn u16_field(r: &FlexReader<'_>, name: &str) -> (x: Option<u16>)
    requires
        r.value() is Record,
    ensures
        x == u16_entry(entries_at(*r), name@),
{
    reveal(u16_entry);
    match find_field(r, name) {
        Field::At(item) => read_u16(&item),
        _ => None,
    }
}

pub(crate) fn i64_field(r: &FlexReader<'_>, name: &str) -> (x: Option<i64>)
    requires
        r.value() is Record,
    ensures
        x == i64_entry(entries_at(*r), name@),
{
    reveal(i64_entry);
    match find_field(r, name) {
        Field::At(item) => read_i64(&item),
        _ => None,
    }
}

pub(crate) fn bytes_field(r: &FlexReader<'_>, name: &str) -> (x: Option<Vec<u8>>)
    requires
        r.value() is Record,
    ensures
        opt_vec_view(x) == bytes_entry(entries_at(*r), name@),
{
    reveal(bytes_entry);
    match find_field(r, name) {
        Field::At(item) => read_bytes(&item),
        _ => None,
    }
}

pub(crate) fn u64s_field(r: &FlexReader<'_>, name: &str) -> (x: Option<Vec<u64>>)
    requires
        r.value() is Record,
    ensures
        opt_vec_view(x) == u64s_entry(entries_at(*r), name@),
{
    reveal(u64s_entry);
    match find_field(r, name) {
        Field::At(item) => read_u64s(&item),
        _ => None,
    }
}

pub(crate) fn id_sizes_field(r: &FlexReader<'_>, name: &str) -> (x: Option<Vec<(u64, Option<u64>)>>)
    requires
        r.value() is Record,
    ensures
        opt_vec_view(x) == id_sizes_entry(entries_at(*r), name@),
{
    reveal(id_sizes_entry);
    match find_field(r, name) {
        Field::At(item) => read_id_sizes(&item),
        _ => None,
    }
}

pub(crate) fn opt_text_field(r: &FlexReader<'_>, name: &str) -> (x: Option<Option<String>>)
    requires
        r.value() is Record,
    ensures
        x is Some <==> opt_text_entry(entries_at(*r), name@) is Some,
        x matches Some(v) ==> opt_text_entry(entries_at(*r), name@) == Some(opt_text_view(v)),
{
    reveal(opt_text_entry);
    match find_field(r, name) {
        Field::Missing => Some(None),
        Field::Repeated => None,
        Field::At(item) => match item.kind() {
            FlexKind::Null => Some(None),
            _ => match read_text(&item) {
                Some(v) => Some(Some(v)),
                None => None,
            },
        },
    }
}

pub(crate) fn opt_u64_field(r: &FlexReader<'_>, name: &str) -> (x: Option<Option<u64>>)
    requires
        r.value() is Record,
    ensures
        x == opt_u64_entry(entries_at(*r), name@),
{
    reveal(opt_u64_entry);
    match find_field(r, name) {
        Field::Missing => Some(None),
        Field::Repeated => None,
        Field::At(item) => match item.kind() {
            FlexKind::Null => Some(None),
            _ => match read_u64(&item) {
                Some(v) => Some(Some(v)),
                None => None,
            },
        },
    }
}

pub(crate) fn opt_i64_field(r: &FlexReader<'_>, name: &str) -> (x: Option<Option<i64>>)
    requires
        r.value() is Record,
    ensures
        x == opt_i64_entry(entries_at(*r), name@),
{
    reveal(opt_i64_entry);
    match find_field(r, name) {
        Field::Missing => Some(None),
        Field::Repeated => None,
        Field::At(item) => match item.kind() {
            FlexKind::Null => Some(None),
            _ => match read_i64(&item) {
                Some(v) => Some(Some(v)),
                None => None,
            },
        },
    }
}

pub(crate) fn opt_bytes_field(r: &FlexReader<'_>, name: &str) -> (x: Option<Option<Vec<u8>>>)
    requires
        r.value() is Record,
    ensures
        x is Some <==> opt_bytes_entry(entries_at(*r), name@) is Some,
        x matches Some(v) ==> opt_bytes_entry(entries_at(*r), name@) == Some(opt_bytes_view(v)),
{
    reveal(opt_bytes_entry);
    match find_field(r, name) {
        Field::Missing => Some(None),
        Field::Repeated => None,
        Field::At(item) => match item.kind() {
            FlexKind::Null => Some(None),
            _ => match read_bytes(&item) {
                Some(v) => Some(Some(v)),
                None => None,
            },
        },
    }
}

pub(crate) fn opt_texts_field(r: &FlexReader<'_>, name: &str) -> (x: Option<Option<Vec<String>>>)
    requires
        r.value() is Record,
    ensures
        x is Some <==> opt_texts_entry(entries_at(*r), name@) is Some,
        x matches Some(v) ==> opt_texts_entry(entries_at(*r), name@) == Some(opt_texts_view(v)),
{
    reveal(opt_texts_entry);
    match find_field(r, name) {
        Field::Missing => Some(None),
        Field::Repeated => None,
        Field::At(item) => match item.kind() {
            FlexKind::Null => Some(None),
            _ => match read_texts(&item) {
                Some(v) => Some(Some(v)),
                None => None,
            },
        },
    }
}

pub(crate) fn opt_pairs_field(r: &FlexReader<'_>, name: &str) -> (x: Option<Option<Vec<(String, String)>>>)
    requires
        r.value() is Record,
    ensures
        x is Some <==> opt_pairs_entry(entries_at(*r), name@) is Some,
        x matches Some(v) ==> opt_pairs_entry(entries_at(*r), name@) == Some(opt_pairs_view(v)),
{
    reveal(opt_pairs_entry);
    match find_field(r, name) {
        Field::Missing => Some(None),
        Field::Repeated => None,
        Field::At(item) => match item.kind() {
            FlexKind::Null => Some(None),
            _ => match read_pairs(&item) {
                Some(v) => Some(Some(v)),
                None => None,
            },
        },
    }
}

// ---------------------------------------------------------------------------
// Writing
// ---------------------------------------------------------------------------

/// A key can be written next.
pub open spec fn in_record(frames: Seq<FlexFrame>) -> bool {
    &&& frames.len() > 1
    &&& frames.last() matches FlexFrame::Record(_, pending) && pending is None
}

/// The frames after a key and its value were written.
pub open spec fn with_entry(frames: Seq<FlexFrame>, name: Seq<char>, v: Flex) -> Seq<FlexFrame> {
    frames.drop_last().push(
        match frames.last() {
            FlexFrame::Record(entries, _) => FlexFrame::Record(entries.push((name, v)), None),
            other => other,
        },
    )
}

fn write_u64s(s: &mut FlexbufferSerializer, v: &Vec<u64>) -> (r: Result<(), SerializationError>)
    requires
        flex::room_for(flex::flex_frames(*old(s)), u64s_value(v@)),
    ensures
        r is Ok,
        flex::flex_frames(*final(s)) == flex::with_value(flex::flex_frames(*old(s)), u64s_value(v@)),
{
    let ghost before = flex::flex_frames(*s);
    let ghost all = u64s_value(v@)->Vector_0;
    flex_begin_vector(s)?;
    let mut i: usize = 0;
    assert(all.take(0) =~= Seq::<Flex>::empty());
    while i < v.len()
        invariant
            0 <= i <= v@.len(),
            all == u64s_value(v@)->Vector_0,
            all.len() == v@.len(),
            flex::room_for(before, Flex::Vector(all)),
            flex::flex_frames(*s) == before.push(FlexFrame::Vector(all.take(i as int))),
        decreases v@.len() - i,
    {
        flex_write_u64(s, v[i])?;
        assert(all.take(i + 1) =~= all.take(i as int).push(all[i as int]));
        assert(flex::flex_frames(*s) =~= before.push(FlexFrame::Vector(all.take(i + 1))));
        i = i + 1;
    }
    proof {
        assert(all.take(v@.len() as int) =~= all);
        flex::lemma_vector_room(before, all);
    }
    flex_end_vector(s)?;
    assert(before.push(FlexFrame::Vector(all)).drop_last() =~= before);
    Ok(())
}

fn write_bytes(s: &mut FlexbufferSerializer, v: &Vec<u8>) -> (r: Result<(), SerializationError>)
    requires
        flex::room_for(flex::flex_frames(*old(s)), bytes_value(v@)),
    ensures
        r is Ok,
        flex::flex_frames(*final(s)) == flex::with_value(flex::flex_frames(*old(s)), bytes_value(v@)),
{
    let ghost before = flex::flex_frames(*s);
    let ghost all = bytes_value(v@)->Vector_0;
    flex_begin_vector(s)?;
    let mut i: usize = 0;
    assert(all.take(0) =~= Seq::<Flex>::empty());
    while i < v.len()
        invariant
            0 <= i <= v@.len(),
            all == bytes_value(v@)->Vector_0,
            all.len() == v@.len(),
            flex::room_for(before, Flex::Vector(all)),
            flex::flex_frames(*s) == before.push(FlexFrame::Vector(all.take(i as int))),
        decreases v@.len() - i,
    {
        flex_write_u64(s, v[i] as u64)?;
        assert(all.take(i + 1) =~= all.take(i as int).push(all[i as int]));
        assert(flex::flex_frames(*s) =~= before.push(FlexFrame::Vector(all.take(i + 1))));
        i = i + 1;
    }
    proof {
        assert(all.take(v@.len() as int) =~= all);
        flex::lemma_vector_room(before, all);
    }
    flex_end_vector(s)?;
    assert(before.push(FlexFrame::Vector(all)).drop_last() =~= before);
    Ok(())
}

fn write_texts(s: &mut FlexbufferSerializer, v: &Vec<String>) -> (r: Result<(), SerializationError>)
    requires
        flex::room_for(flex::flex_frames(*old(s)), texts_value(texts_view(v@))),
    ensures
        r is Ok,
        flex::flex_frames(*final(s)) == flex::with_value(flex::flex_frames(*old(s)), texts_value(texts_view(v@))),
{
    let ghost before = flex::flex_frames(*s);
    let ghost all = texts_value(texts_view(v@))->Vector_0;
    flex_begin_vector(s)?;
    let mut i: usize = 0;
    assert(all.take(0) =~= Seq::<Flex>::empty());
    while i < v.len()
        invariant
            0 <= i <= v@.len(),
            all == texts_value(texts_view(v@))->Vector_0,
            all.len() == v@.len(),
            flex::room_for(before, Flex::Vector(all)),
            flex::flex_frames(*s) == before.push(FlexFrame::Vector(all.take(i as int))),
        decreases v@.len() - i,
    {
        flex_write_str(s, v[i].as_str())?;
        assert(all.take(i + 1) =~= all.take(i as int).push(all[i as int]));
        assert(flex::flex_frames(*s) =~= before.push(FlexFrame::Vector(all.take(i + 1))));
        i = i + 1;
    }
    proof {
        assert(all.take(v@.len() as int) =~= all);
        flex::lemma_vector_room(before, all);
    }
    flex_end_vector(s)?;
    assert(before.push(FlexFrame::Vector(all)).drop_last() =~= before);
    Ok(())
}

fn write_opt_u64(s: &mut FlexbufferSerializer, v: Option<u64>) -> (r: Result<
    (),
    SerializationError,
>)
    requires
        flex::room_for(flex::flex_frames(*old(s)), opt_u64_value(v)),
    ensures
        r is Ok,
        flex::flex_frames(*final(s)) == flex::with_value(flex::flex_frames(*old(s)), opt_u64_value(v)),
{
    match v {
        Some(n) => flex_write_u64(s, n),
        None => flex_write_null(s),
    }
}

fn write_pair(s: &mut FlexbufferSerializer, a: &String, b: &String) -> (r: Result<
    (),
    SerializationError,
>)
    requires
        flex::room_for(flex::flex_frames(*old(s)), pair_value((a@, b@))),
    ensures
        r is Ok,
        flex::flex_frames(*final(s)) == flex::with_value(
            flex::flex_frames(*old(s)),
            pair_value((a@, b@)),
        ),
{
    let ghost before = flex::flex_frames(*s);
    flex_begin_vector(s)?;
    flex_write_str(s, a.as_str())?;
    assert(flex::flex_frames(*s) =~= before.push(FlexFrame::Vector(seq![Flex::Text(a@)])));
    flex_write_str(s, b.as_str())?;
    assert(seq![Flex::Text(a@)].push(Flex::Text(b@)) =~= seq![Flex::Text(a@), Flex::Text(b@)]);
    assert(flex::flex_frames(*s) =~= before.push(
        FlexFrame::Vector(seq![Flex::Text(a@), Flex::Text(b@)]),
    ));
    proof {
        flex::lemma_vector_room(before, seq![Flex::Text(a@), Flex::Text(b@)]);
    }
    flex_end_vector(s)?;
    assert(before.push(FlexFrame::Vector(seq![Flex::Text(a@), Flex::Text(b@)])).drop_last() =~= before);
    Ok(())
}

fn write_id_size(s: &mut FlexbufferSerializer, id: u64, size: Option<u64>) -> (r: Result<
    (),
    SerializationError,
>)
    requires
        flex::room_for(flex::flex_frames(*old(s)), id_size_value((id, size))),
    ensures
        r is Ok,
        flex::flex_frames(*final(s)) == flex::with_value(
            flex::flex_frames(*old(s)),
            id_size_value((id, size)),
        ),
{
    let ghost before = flex::flex_frames(*s);
    let ghost items = seq![Flex::UInt(id), opt_u64_value(size)];
    flex_begin_vector(s)?;
    flex_write_u64(s, id)?;
    assert(flex::flex_frames(*s) =~= before.push(FlexFrame::Vector(seq![Flex::UInt(id)])));
    proof {
        flex::lemma_item_room(before, items, 1);
        assert(items.take(1) =~= seq![Flex::UInt(id)]);
    }
    write_opt_u64(s, size)?;
    assert(seq![Flex::UInt(id)].push(opt_u64_value(size)) =~= items);
    assert(flex::flex_frames(*s) =~= before.push(FlexFrame::Vector(items)));
    proof {
        flex::lemma_vector_room(before, items);
    }
    flex_end_vector(s)?;
    assert(before.push(FlexFrame::Vector(items)).drop_last() =~= before);
    Ok(())
}

fn write_pairs(s: &mut FlexbufferSerializer, v: &Vec<(String, String)>) -> (r: Result<(), SerializationError>)
    requires
        flex::room_for(flex::flex_frames(*old(s)), pairs_value(pairs_view(v@))),
    ensures
        r is Ok,
        flex::flex_frames(*final(s)) == flex::with_value(flex::flex_frames(*old(s)), pairs_value(pairs_view(v@))),
{
    let ghost before = flex::flex_frames(*s);
    let ghost all = pairs_value(pairs_view(v@))->Vector_0;
    flex_begin_vector(s)?;
    let mut i: usize = 0;
    assert(all.take(0) =~= Seq::<Flex>::empty());
    while i < v.len()
        invariant
            0 <= i <= v@.len(),
            all == pairs_value(pairs_view(v@))->Vector_0,
            all.len() == v@.len(),
            flex::room_for(before, Flex::Vector(all)),
            flex::flex_frames(*s) == before.push(FlexFrame::Vector(all.take(i as int))),
        decreases v@.len() - i,
    {
        proof {
            flex::lemma_item_room(before, all, i as int);
        }
        write_pair(s, &v[i].0, &v[i].1)?;
        assert(all.take(i + 1) =~= all.take(i as int).push(all[i as int]));
        assert(flex::flex_frames(*s) =~= before.push(FlexFrame::Vector(all.take(i + 1))));
        i = i + 1;
    }
    proof {
        assert(all.take(v@.len() as int) =~= all);
        flex::lemma_vector_room(before, all);
    }
    flex_end_vector(s)?;
    assert(before.push(FlexFrame::Vector(all)).drop_last() =~= before);
    Ok(())
}

fn write_id_sizes(s: &mut FlexbufferSerializer, v: &Vec<(u64, Option<u64>)>) -> (r: Result<(), SerializationError>)
    requires
        flex::room_for(flex::flex_frames(*old(s)), id_sizes_value(v@)),
    ensures
        r is Ok,
        flex::flex_frames(*final(s)) == flex::with_value(flex::flex_frames(*old(s)), id_sizes_value(v@)),
{
    let ghost before = flex::flex_frames(*s);
    let ghost all = id_sizes_value(v@)->Vector_0;
    flex_begin_vector(s)?;
    let mut i: usize = 0;
    assert(all.take(0) =~= Seq::<Flex>::empty());
    while i < v.len()
        invariant
            0 <= i <= v@.len(),
            all == id_sizes_value(v@)->Vector_0,
            all.len() == v@.len(),
            flex::room_for(before, Flex::Vector(all)),
            flex::flex_frames(*s) == before.push(FlexFrame::Vector(all.take(i as int))),
        decreases v@.len() - i,
    {
        proof {
            flex::lemma_item_room(before, all, i as int);
        }
        write_id_size(s, v[i].0, v[i].1)?;
        assert(all.take(i + 1) =~= all.take(i as int).push(all[i as int]));
        assert(flex::flex_frames(*s) =~= before.push(FlexFrame::Vector(all.take(i + 1))));
        i = i + 1;
    }
    proof {
        assert(all.take(v@.len() as int) =~= all);
        flex::lemma_vector_room(before, all);
    }
    flex_end_vector(s)?;
    assert(before.push(FlexFrame::Vector(all)).drop_last() =~= before);
    Ok(())
}

pub(crate) fn put_text(s: &mut FlexbufferSerializer, name: &str, v: &String) -> (r: Result<
    (),
    SerializationError,
>)
    requires
        in_record(flex::flex_frames(*old(s))),
        !name@.contains('\0'),
        flex::fits(with_entry(flex::flex_frames(*old(s)), name@, Flex::Text(v@))),
    ensures
        r is Ok,
        flex::flex_frames(*final(s)) == with_entry(flex::flex_frames(*old(s)), name@, Flex::Text(v@)),
{
    let ghost before = flex::flex_frames(*s);
    flex_write_key(s, name)?;
    let ghost keyed = flex::flex_frames(*s);
    assert(keyed.drop_last() =~= before.drop_last());
    flex_write_str(s, v.as_str())?;
    Ok(())
}

pub(crate) fn put_bool(s: &mut FlexbufferSerializer, name: &str, v: bool) -> (r: Result<
    (),
    SerializationError,
>)
    requires
        in_record(flex::flex_frames(*old(s))),
        !name@.contains('\0'),
        flex::fits(with_entry(flex::flex_frames(*old(s)), name@, Flex::Bool(v))),
    ensures
        r is Ok,
        flex::flex_frames(*final(s)) == with_entry(flex::flex_frames(*old(s)), name@, Flex::Bool(v)),
{
    let ghost before = flex::flex_frames(*s);
    flex_write_key(s, name)?;
    let ghost keyed = flex::flex_frames(*s);
    assert(keyed.drop_last() =~= before.drop_last());
    flex_write_bool(s, v)?;
    Ok(())
}

pub(crate) fn put_u64(s: &mut FlexbufferSerializer, name: &str, v: u64) -> (r: Result<
    (),
    SerializationError,
>)
    requires
        in_record(flex::flex_frames(*old(s))),
        !name@.contains('\0'),
        flex::fits(with_entry(flex::flex_frames(*old(s)), name@, Flex::UInt(v))),
    ensures
        r is Ok,
        flex::flex_frames(*final(s)) == with_entry(flex::flex_frames(*old(s)), name@, Flex::UInt(v)),
{
    let ghost before = flex::flex_frames(*s);
    flex_write_key(s, name)?;
    let ghost keyed = flex::flex_frames(*s);
    assert(keyed.drop_last() =~= before.drop_last());
    flex_write_u64(s, v)?;
    Ok(())
}

pub(crate) fn put_i64(s: &mut FlexbufferSerializer, name: &str, v: i64) -> (r: Result<
    (),
    SerializationError,
>)
    requires
        in_record(flex::flex_frames(*old(s))),
        !name@.contains('\0'),
        flex::fits(with_entry(flex::flex_frames(*old(s)), name@, Flex::Int(v))),
    ensures
        r is Ok,
        flex::flex_frames(*final(s)) == with_entry(flex::flex_frames(*old(s)), name@, Flex::Int(v)),
{
    let ghost before = flex::flex_frames(*s);
    flex_write_key(s, name)?;
    let ghost keyed = flex::flex_frames(*s);
    assert(keyed.drop_last() =~= before.drop_last());
    flex_write_i64(s, v)?;
    Ok(())
}

pub(crate) fn put_bytes(s: &mut FlexbufferSerializer, name: &str, v: &Vec<u8>) -> (r: Result<
    (),
    SerializationError,
>)
    requires
        in_record(flex::flex_frames(*old(s))),
        !name@.contains('\0'),
        flex::fits(with_entry(flex::flex_frames(*old(s)), name@, bytes_value(v@))),
    ensures
        r is Ok,
        flex::flex_frames(*final(s)) == with_entry(flex::flex_frames(*old(s)), name@, bytes_value(v@)),
{
    let ghost before = flex::flex_frames(*s);
    flex_write_key(s, name)?;
    let ghost keyed = flex::flex_frames(*s);
    assert(keyed.drop_last() =~= before.drop_last());
    write_bytes(s, v)?;
    Ok(())
}

pub(crate) fn put_u64s(s: &mut FlexbufferSerializer, name: &str, v: &Vec<u64>) -> (r: Result<
    (),
    SerializationError,
>)
    requires
        in_record(flex::flex_frames(*old(s))),
        !name@.contains('\0'),
        flex::fits(with_entry(flex::flex_frames(*old(s)), name@, u64s_value(v@))),
    ensures
        r is Ok,
        flex::flex_frames(*final(s)) == with_entry(flex::flex_frames(*old(s)), name@, u64s_value(v@)),
{
    let ghost before = flex::flex_frames(*s);
    flex_write_key(s, name)?;
    let ghost keyed = flex::flex_frames(*s);
    assert(keyed.drop_last() =~= before.drop_last());
    write_u64s(s, v)?;
    Ok(())
}

pub(crate) fn put_id_sizes(s: &mut FlexbufferSerializer, name: &str, v: &Vec<(u64, Option<u64>)>) -> (r: Result<
    (),
    SerializationError,
>)
    requires
        in_record(flex::flex_frames(*old(s))),
        !name@.contains('\0'),
        flex::fits(with_entry(flex::flex_frames(*old(s)), name@, id_sizes_value(v@))),
    ensures
        r is Ok,
        flex::flex_frames(*final(s)) == with_entry(flex::flex_frames(*old(s)), name@, id_sizes_value(v@)),
{
    let ghost before = flex::flex_frames(*s);
    flex_write_key(s, name)?;
    let ghost keyed = flex::flex_frames(*s);
    assert(keyed.drop_last() =~= before.drop_last());
    write_id_sizes(s, v)?;
    Ok(())
}

pub(crate) fn put_opt_text(s: &mut FlexbufferSerializer, name: &str, v: &Option<String>) -> (r: Result<
    (),
    SerializationError,
>)
    requires
        in_record(flex::flex_frames(*old(s))),
        !name@.contains('\0'),
        flex::fits(with_entry(flex::flex_frames(*old(s)), name@, opt_text_value(opt_text_view(*v)))),
    ensures
        r is Ok,
        flex::flex_frames(*final(s)) == with_entry(flex::flex_frames(*old(s)), name@, opt_text_value(opt_text_view(*v))),
{
    let ghost before = flex::flex_frames(*s);
    flex_write_key(s, name)?;
    let ghost keyed = flex::flex_frames(*s);
    assert(keyed.drop_last() =~= before.drop_last());
    match v {
        Some(x) => flex_write_str(s, x.as_str()),
        None => flex_write_null(s),
    }?;
    Ok(())
}

pub(crate) fn put_opt_u64(s: &mut FlexbufferSerializer, name: &str, v: Option<u64>) -> (r: Result<
    (),
    SerializationError,
>)
    requires
        in_record(flex::flex_frames(*old(s))),
        !name@.contains('\0'),
        flex::fits(with_entry(flex::flex_frames(*old(s)), name@, opt_u64_value(v))),
    ensures
        r is Ok,
        flex::flex_frames(*final(s)) == with_entry(flex::flex_frames(*old(s)), name@, opt_u64_value(v)),
{
    let ghost before = flex::flex_frames(*s);
    flex_write_key(s, name)?;
    let ghost keyed = flex::flex_frames(*s);
    assert(keyed.drop_last() =~= before.drop_last());
    write_opt_u64(s, v)?;
    Ok(())
}

pub(crate) fn put_opt_i64(s: &mut FlexbufferSerializer, name: &str, v: Option<i64>) -> (r: Result<
    (),
    SerializationError,
>)
    requires
        in_record(flex::flex_frames(*old(s))),
        !name@.contains('\0'),
        flex::fits(with_entry(flex::flex_frames(*old(s)), name@, opt_i64_value(v))),
    ensures
        r is Ok,
        flex::flex_frames(*final(s)) == with_entry(flex::flex_frames(*old(s)), name@, opt_i64_value(v)),
{
    let ghost before = flex::flex_frames(*s);
    flex_write_key(s, name)?;
    let ghost keyed = flex::flex_frames(*s);
    assert(keyed.drop_last() =~= before.drop_last());
    match v {
        Some(x) => flex_write_i64(s, x),
        None => flex_write_null(s),
    }?;
    Ok(())
}

pub(crate) fn put_opt_bytes(s: &mut FlexbufferSerializer, name: &str, v: &Option<Vec<u8>>) -> (r: Result<
    (),
    SerializationError,
>)
    requires
        in_record(flex::flex_frames(*old(s))),
        !name@.contains('\0'),
        flex::fits(with_entry(flex::flex_frames(*old(s)), name@, opt_bytes_value(opt_bytes_view(*v)))),
    ensures
        r is Ok,
        flex::flex_frames(*final(s)) == with_entry(flex::flex_frames(*old(s)), name@, opt_bytes_value(opt_bytes_view(*v))),
{
    let ghost before = flex::flex_frames(*s);
    flex_write_key(s, name)?;
    let ghost keyed = flex::flex_frames(*s);
    assert(keyed.drop_last() =~= before.drop_last());
    match v {
        Some(x) => write_bytes(s, x),
        None => flex_write_null(s),
    }?;
    Ok(())
}

pub(crate) fn put_opt_texts(s: &mut FlexbufferSerializer, name: &str, v: &Option<Vec<String>>) -> (r: Result<
    (),
    SerializationError,
>)
    requires
        in_record(flex::flex_frames(*old(s))),
        !name@.contains('\0'),
        flex::fits(with_entry(flex::flex_frames(*old(s)), name@, opt_texts_value(opt_texts_view(*v)))),
    ensures
        r is Ok,
        flex::flex_frames(*final(s)) == with_entry(flex::flex_frames(*old(s)), name@, opt_texts_value(opt_texts_view(*v))),
{
    let ghost before = flex::flex_frames(*s);
    flex_write_key(s, name)?;
    let ghost keyed = flex::flex_frames(*s);
    assert(keyed.drop_last() =~= before.drop_last());
    match v {
        Some(x) => write_texts(s, x),
        None => flex_write_null(s),
    }?;
    Ok(())
}

pub(crate) fn put_opt_pairs(s: &mut FlexbufferSerializer, name: &str, v: &Option<Vec<(String, String)>>) -> (r: Result<
    (),
    SerializationError,
>)
    requires
        in_record(flex::flex_frames(*old(s))),
        !name@.contains('\0'),
        flex::fits(with_entry(flex::flex_frames(*old(s)), name@, opt_pairs_value(opt_pairs_view(*v)))),
    ensures
        r is Ok,
        flex::flex_frames(*final(s)) == with_entry(flex::flex_frames(*old(s)), name@, opt_pairs_value(opt_pairs_view(*v))),
{
    let ghost before = flex::flex_frames(*s);
    flex_write_key(s, name)?;
    let ghost keyed = flex::flex_frames(*s);
    assert(keyed.drop_last() =~= before.drop_last());
    match v {
        Some(x) => write_pairs(s, x),
        None => flex_write_null(s),
    }?;
    Ok(())
}

} // verus!
