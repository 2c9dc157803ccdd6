//! FlexBuffer documents: the values they hold, where those values lie in the
//! bytes, and the calls into the `flexbuffers` crate that write and read them.
//!
//! A document is read from its last byte backwards. Every value has a type
//! code, a byte width and an address; a container holds its items in slots of
//! its own width, and an item that does not fit in a slot is stored before the
//! container, the slot holding the distance back to it.
//!
//! The crate's reader trusts the distances it finds. Some that leave the buffer it
//! takes for nothing, others stop the program: a `FlexReader` looks for those before it
//! reads what it has come to. What it never comes to does not matter.

use flexbuffers::{
    FlexBufferType, FlexbufferSerializer, Reader, ReaderError, SerializationError,
};
use serde::ser::{SerializeMap, SerializeSeq, Serializer};
use vstd::prelude::*;

verus! {

#[verifier::external_type_specification]
#[verifier::external_body]
pub struct ExFlexbufferSerializer(flexbuffers::FlexbufferSerializer);

#[verifier::external_type_specification]
#[verifier::external_body]
pub struct ExSerializationError(flexbuffers::SerializationError);

#[verifier::external_type_specification]
#[verifier::external_body]
#[verifier::reject_recursive_types(B)]
pub struct ExReader<B>(flexbuffers::Reader<B>);

// ---------------------------------------------------------------------------
// Values
// ---------------------------------------------------------------------------

/// A value that a document holds. The entries of a record are listed in the
/// order in which they were written or, when read back, are stored.
pub enum Flex {
    Null,
    Bool(bool),
    UInt(u64),
    Int(i64),
    Key(Seq<char>),
    Text(Seq<char>),
    Blob(Seq<u8>),
    Vector(Seq<Flex>),
    Record(Seq<(Seq<char>, Flex)>),
    /// A value of a kind that is not used here.
    Other,
    /// Something that cannot be read.
    Fault,
}

/// No key occurs twice.
pub open spec fn distinct_keys(entries: Seq<(Seq<char>, Flex)>) -> bool {
    forall|i: int, j: int|
        0 <= i < j < entries.len() ==> (#[trigger] entries[i]).0 != (#[trigger] entries[j]).0
}

/// No record inside `v` has a key twice.
pub open spec fn storable(v: Flex) -> bool
    decreases v,
{
    match v {
        Flex::Vector(items) => forall|i: int|
            0 <= i < items.len() ==> storable(#[trigger] items[i]),
        Flex::Record(entries) => distinct_keys(entries) && forall|i: int|
            0 <= i < entries.len() ==> storable((#[trigger] entries[i]).1),
        _ => true,
    }
}

pub proof fn lemma_item_storable(items: Seq<Flex>, k: int)
    requires
        storable(Flex::Vector(items)),
        0 <= k < items.len(),
    ensures
        storable(items[k]),
{
    let v = Flex::Vector(items);
    match v {
        Flex::Vector(a) => {
            assert(a == items);
            assert(storable(a[k]));
        },
        _ => {},
    }
}

/// `w` is `v` up to the order of the entries in each record.
pub open spec fn same_value(v: Flex, w: Flex) -> bool
    decreases v,
{
    match (v, w) {
        (Flex::Vector(a), Flex::Vector(b)) => a.len() == b.len() && forall|i: int|
            0 <= i < a.len() ==> same_value(#[trigger] a[i], b[i]),
        (Flex::Record(a), Flex::Record(b)) => {
            &&& a.len() == b.len()
            &&& distinct_keys(b)
            &&& forall|i: int|
                0 <= i < a.len() ==> exists|j: int|
                    0 <= j < b.len() && (#[trigger] b[j]).0 == (#[trigger] a[i]).0 && same_value(
                        a[i].1,
                        b[j].1,
                    )
            &&& forall|j: int|
                0 <= j < b.len() ==> exists|i: int|
                    0 <= i < a.len() && (#[trigger] b[j]).0 == (#[trigger] a[i]).0 && same_value(
                        a[i].1,
                        b[j].1,
                    )
        },
        (Flex::Vector(_), _) => false,
        (Flex::Record(_), _) => false,
        _ => v == w,
    }
}

/// `v` has no record in it, and nothing that cannot be read.
pub open spec fn flat(v: Flex) -> bool
    decreases v,
{
    match v {
        Flex::Vector(items) => forall|i: int| 0 <= i < items.len() ==> flat(#[trigger] items[i]),
        Flex::Record(_) => false,
        Flex::Fault => false,
        _ => true,
    }
}

/// Everything in `v` can be read, so that it can be passed over.
pub open spec fn passable(v: Flex) -> bool
    decreases v,
{
    match v {
        Flex::Vector(items) => forall|i: int|
            0 <= i < items.len() ==> passable(#[trigger] items[i]),
        Flex::Record(entries) => forall|i: int|
            0 <= i < entries.len() ==> passable((#[trigger] entries[i]).1),
        Flex::Fault => false,
        _ => true,
    }
}

pub proof fn lemma_flat_passable(v: Flex)
    requires
        flat(v),
    ensures
        passable(v),
    decreases v,
{
    if let Flex::Vector(a) = v {
        assert forall|i: int| 0 <= i < a.len() implies passable(#[trigger] a[i]) by {
            lemma_flat_passable(a[i]);
        }
    }
}

pub proof fn lemma_flat_same(v: Flex, w: Flex)
    requires
        flat(v),
        same_value(v, w),
    ensures
        w == v,
    decreases v,
{
    if let Flex::Vector(a) = v {
        if let Flex::Vector(b) = w {
            assert forall|i: int| 0 <= i < a.len() implies a[i] == b[i] by {
                lemma_flat_same(a[i], b[i]);
            }
            assert(a =~= b);
        }
    }
}

pub proof fn lemma_flat_storable(v: Flex)
    requires
        flat(v),
    ensures
        storable(v),
    decreases v,
{
    if let Flex::Vector(a) = v {
        assert forall|i: int| 0 <= i < a.len() implies storable(#[trigger] a[i]) by {
            lemma_flat_storable(a[i]);
        }
    }
}

// ---------------------------------------------------------------------------
// Positions
// ---------------------------------------------------------------------------

pub const CODE_NULL: u8 = 0;

pub const CODE_INT: u8 = 1;

pub const CODE_UINT: u8 = 2;

pub const CODE_FLOAT: u8 = 3;

pub const CODE_KEY: u8 = 4;

pub const CODE_STRING: u8 = 5;

pub const CODE_MAP: u8 = 9;

pub const CODE_VECTOR: u8 = 10;

pub const CODE_BLOB: u8 = 25;

pub const CODE_BOOL: u8 = 26;

pub const CODE_VECTOR_BOOL: u8 = 36;

/// Where a reader stands: the document, the type code and byte width of the
/// value, and the address at which its data begins.
pub struct FlexCursor {
    pub bytes: Seq<u8>,
    pub code: u8,
    pub width: int,
    pub address: int,
}

/// The unsigned number in the `width` bytes from `at`, low byte first.
pub open spec fn uint_at(b: Seq<u8>, at: int, width: int) -> int {
    if width == 1 {
        b[at] as int
    } else if width == 2 {
        b[at] + 0x100 * b[at + 1]
    } else if width == 4 {
        b[at] + 0x100 * b[at + 1] + 0x1_0000 * b[at + 2] + 0x100_0000 * b[at + 3]
    } else {
        b[at] + 0x100 * b[at + 1] + 0x1_0000 * b[at + 2] + 0x100_0000 * b[at + 3] + 0x1_0000_0000
            * b[at + 4] + 0x100_0000_0000 * b[at + 5] + 0x1_0000_0000_0000 * b[at + 6]
            + 0x100_0000_0000_0000 * b[at + 7]
    }
}

/// The signed number in the `width` bytes from `at`, in two's complement.
pub open spec fn int_at(b: Seq<u8>, at: int, width: int) -> int {
    let u = uint_at(b, at, width);
    let m: int = if width == 1 {
        0x100
    } else if width == 2 {
        0x1_0000
    } else if width == 4 {
        0x1_0000_0000
    } else {
        0x1_0000_0000_0000_0000
    };
    if 2 * u >= m {
        u - m
    } else {
        u
    }
}

pub open spec fn is_width(w: int) -> bool {
    w == 1 || w == 2 || w == 4 || w == 8
}

/// The bytes that `n` slots of `width` bytes take.
pub open spec fn span(width: int, n: int) -> int {
    if width == 1 {
        n
    } else if width == 2 {
        2 * n
    } else if width == 4 {
        4 * n
    } else {
        8 * n
    }
}

pub open spec fn is_code(code: u8) -> bool {
    code <= CODE_BOOL || code == CODE_VECTOR_BOOL
}

/// Stored in the slot itself.
pub open spec fn is_inline(code: u8) -> bool {
    code <= CODE_FLOAT || code == CODE_BOOL
}

pub open spec fn is_container(code: u8) -> bool {
    CODE_MAP <= code < CODE_BLOB || code == CODE_VECTOR_BOOL
}

/// The number of items of a vector whose code fixes it, 0 for any other code.
pub open spec fn fixed_count(code: u8) -> int {
    if 16 <= code <= 18 {
        2
    } else if 19 <= code <= 21 {
        3
    } else if 22 <= code <= 24 {
        4
    } else {
        0
    }
}

/// A map or a vector that stores a type byte for each item.
pub open spec fn has_type_bytes(code: u8) -> bool {
    code == CODE_MAP || code == CODE_VECTOR
}

/// The code of the items of a vector without type bytes.
pub open spec fn item_code(code: u8) -> u8 {
    if code == 11 || code == 16 || code == 19 || code == 22 {
        CODE_INT
    } else if code == 12 || code == 17 || code == 20 || code == 23 {
        CODE_UINT
    } else if code == 14 || code == 15 {
        CODE_KEY
    } else if code == CODE_VECTOR_BOOL {
        CODE_BOOL
    } else {
        CODE_FLOAT
    }
}

/// The code that a number stored away from its slot is read under.
pub open spec fn direct_code(code: u8) -> u8 {
    if code == 6 {
        CODE_INT
    } else if code == 7 {
        CODE_UINT
    } else if code == 8 {
        CODE_FLOAT
    } else {
        code
    }
}

/// The code in the upper six bits of a type byte.
pub open spec fn byte_code(t: u8) -> u8 {
    (t / 4) as u8
}

/// The width in the lower two bits of a type byte.
pub open spec fn byte_width(t: u8) -> int {
    if t % 4 == 0 {
        1
    } else if t % 4 == 1 {
        2
    } else if t % 4 == 2 {
        4
    } else {
        8
    }
}

/// How far back a slot leads. A distance is held in a `usize`: what that has no room for
/// is cut off.
pub open spec fn distance_at(b: Seq<u8>, at: int, slot_width: int) -> int {
    uint_at(b, at, slot_width) % (usize::MAX + 1)
}

/// What a slot of `slot_width` bytes at `at` leads to.
pub open spec fn slot_target(b: Seq<u8>, at: int, code: u8, width: int, slot_width: int) -> FlexCursor {
    FlexCursor {
        bytes: b,
        code: direct_code(code),
        width,
        address: if is_inline(code) {
            at
        } else {
            at - distance_at(b, at, slot_width)
        },
    }
}

/// Where a reader stands that leads nowhere.
pub open spec fn null_cursor() -> FlexCursor {
    FlexCursor { bytes: Seq::empty(), code: CODE_NULL, width: 1, address: 0 }
}

pub open spec fn slot_in_bounds(b: Seq<u8>, at: int, code: u8, slot_width: int) -> bool {
    &&& is_code(code)
    &&& 0 <= at
    &&& at + slot_width <= b.len()
    &&& is_inline(code) || distance_at(b, at, slot_width) <= at
}

impl FlexCursor {
    /// The number of items of a container, or of bytes of a string or a blob. It stands
    /// before the data; where there is no room for it, it is 0.
    pub open spec fn count(self) -> int {
        if fixed_count(self.code) > 0 {
            fixed_count(self.code)
        } else if self.width <= self.address {
            uint_at(self.bytes, self.address - self.width, self.width)
        } else {
            0
        }
    }

    pub open spec fn type_byte(self, i: int) -> u8 {
        self.bytes[self.address + span(self.width, self.count()) + i]
    }

    pub open spec fn child_code(self, i: int) -> u8 {
        if has_type_bytes(self.code) {
            byte_code(self.type_byte(i))
        } else {
            item_code(self.code)
        }
    }

    pub open spec fn child_width(self, i: int) -> int {
        if has_type_bytes(self.code) {
            byte_width(self.type_byte(i))
        } else {
            self.width
        }
    }

    pub open spec fn child_slot(self, i: int) -> int {
        self.address + span(self.width, i)
    }

    /// The `i`-th item of a container, a null where its type or its distance is not
    /// valid.
    pub open spec fn child(self, i: int) -> FlexCursor {
        if slot_in_bounds(self.bytes, self.child_slot(i), self.child_code(i), self.width) {
            slot_target(
                self.bytes,
                self.child_slot(i),
                self.child_code(i),
                self.child_width(i),
                self.width,
            )
        } else {
            null_cursor()
        }
    }

    /// Where the distance back to a map's keys is stored.
    pub open spec fn keys_slot(self) -> int {
        self.address - span(self.width, 3)
    }

    pub open spec fn keys_address(self) -> int {
        self.keys_slot() - uint_at(self.bytes, self.keys_slot(), self.width)
    }

    pub open spec fn keys_width(self) -> int {
        uint_at(self.bytes, self.address - span(self.width, 2), self.width)
    }

    pub open spec fn key_slot(self, i: int) -> int {
        self.keys_address() + span(self.keys_width(), i)
    }

    pub open spec fn key_address(self, i: int) -> int {
        self.key_slot(i) - uint_at(self.bytes, self.key_slot(i), self.keys_width())
    }

    /// The data of the value lies inside the document.
    pub open spec fn data_in_bounds(self) -> bool {
        self.address + (if self.code == CODE_STRING || self.code == CODE_BLOB {
            self.count()
        } else {
            self.width
        }) <= self.bytes.len()
    }

    /// A value that holds no other value can be read: a boolean or a blob must lie inside
    /// the document, a floating point number must have a width that such a number can
    /// have. A number outside the document is read as 0, a string as the empty one.
    pub open spec fn leaf_in_bounds(self) -> bool {
        &&& 0 <= self.address <= self.bytes.len()
        &&& self.code == CODE_BOOL || self.code == CODE_BLOB ==> self.data_in_bounds()
        &&& self.code == CODE_FLOAT ==> self.width >= 4
        &&& self.code == CODE_STRING ==> self.address + self.count() <= usize::MAX
        &&& self.code == CODE_INT || self.code == CODE_UINT ==> self.address + self.width
            <= usize::MAX
    }

    /// The count, the slots and the type bytes of a container lie inside the
    /// document.
    pub open spec fn slots_in_bounds(self) -> bool {
        &&& 0 <= self.address <= self.bytes.len()
        &&& self.address + span(self.width, self.count()) + (if has_type_bytes(self.code) {
            self.count()
        } else {
            0
        }) <= self.bytes.len()
    }

    /// The keys of a map lie inside the document.
    pub open spec fn keys_in_bounds(self) -> bool {
        &&& 0 < self.keys_slot()
        &&& uint_at(self.bytes, self.keys_slot(), self.width) <= self.keys_slot()
        &&& is_width(self.keys_width())
        &&& self.key_slot(self.count()) <= self.bytes.len()
        &&& forall|i: int| 0 <= i < self.count() ==> 0 <= #[trigger] self.key_address(i)
    }

    /// The value here can be read, whatever it holds in turn.
    pub open spec fn in_bounds(self) -> bool {
        &&& is_width(self.width)
        &&& if is_container(self.code) {
            self.slots_in_bounds() && (self.code == CODE_MAP ==> self.keys_in_bounds())
        } else {
            self.leaf_in_bounds()
        }
    }
}

/// The address of the first zero byte from `from` on, or `at` when there is none.
pub open spec fn key_end(b: Seq<u8>, at: int, from: int) -> int
    decreases b.len() - from,
{
    if from >= b.len() {
        at
    } else if b[from] == 0 {
        from
    } else {
        key_end(b, at, from + 1)
    }
}

/// The text of some bytes, empty where they are not UTF-8.
pub open spec fn text_of(s: Seq<u8>) -> Seq<char> {
    if vstd::utf8::valid_utf8(s) {
        vstd::utf8::decode_utf8(s)
    } else {
        Seq::empty()
    }
}

/// The key that begins at `at`: the text up to the next zero byte.
pub open spec fn key_at(b: Seq<u8>, at: int) -> Seq<char> {
    text_of(b.subrange(at, key_end(b, at, at)))
}

/// Whether a number is not zero, as its bytes show.
pub open spec fn bool_at(b: Seq<u8>, at: int, width: int) -> bool {
    exists|i: int| at <= i < at + width && #[trigger] b[i] != 0
}

impl FlexCursor {
    /// The bytes of a string or a blob.
    pub open spec fn data(self) -> Seq<u8> {
        self.bytes.subrange(self.address, self.address + self.count())
    }

    /// The text of a string or a key.
    pub open spec fn text(self) -> Seq<char> {
        if self.code == CODE_STRING {
            if self.data_in_bounds() {
                text_of(self.data())
            } else {
                Seq::empty()
            }
        } else {
            key_at(self.bytes, self.address)
        }
    }

    pub open spec fn key(self, i: int) -> Seq<char> {
        key_at(self.bytes, self.key_address(i))
    }

    pub open spec fn unsigned(self) -> u64 {
        if self.data_in_bounds() {
            uint_at(self.bytes, self.address, self.width) as u64
        } else {
            0
        }
    }

    pub open spec fn signed(self) -> i64 {
        if self.data_in_bounds() {
            int_at(self.bytes, self.address, self.width) as i64
        } else {
            0
        }
    }

    pub open spec fn leaf_value(self) -> Flex {
        if self.code == CODE_NULL {
            Flex::Null
        } else if self.code == CODE_INT {
            Flex::Int(self.signed())
        } else if self.code == CODE_UINT {
            Flex::UInt(self.unsigned())
        } else if self.code == CODE_BOOL {
            Flex::Bool(bool_at(self.bytes, self.address, self.width))
        } else if self.code == CODE_KEY {
            Flex::Key(self.text())
        } else if self.code == CODE_STRING {
            Flex::Text(self.text())
        } else if self.code == CODE_BLOB {
            Flex::Blob(self.data())
        } else {
            Flex::Other
        }
    }

    /// The value that is read from here, where containers are followed `depth` levels deep.
    pub open spec fn value(self, depth: nat) -> Flex
        decreases depth,
    {
        if !self.in_bounds() {
            Flex::Fault
        } else if !is_container(self.code) {
            self.leaf_value()
        } else if depth == 0 {
            Flex::Fault
        } else if self.code == CODE_MAP {
            Flex::Record(
                Seq::new(
                    self.count() as nat,
                    |i: int| (self.key(i), self.child(i).value((depth - 1) as nat)),
                ),
            )
        } else {
            Flex::Vector(
                Seq::new(
                    self.count() as nat,
                    |i: int| self.child(i).value((depth - 1) as nat),
                ),
            )
        }
    }
}

/// Where the value of a whole document begins, if its last bytes name one.
pub open spec fn document_root(b: Seq<u8>) -> Option<FlexCursor> {
    let end = b.len() as int;
    if end < 3 || !is_width(b[end - 1] as int) || !is_code(byte_code(b[end - 2])) || end - 2
        < b[end - 1] || !slot_in_bounds(
        b,
        end - 2 - b[end - 1],
        byte_code(b[end - 2]),
        b[end - 1] as int,
    ) {
        None
    } else {
        Some(
            slot_target(
                b,
                end - 2 - b[end - 1],
                byte_code(b[end - 2]),
                byte_width(b[end - 2]),
                b[end - 1] as int,
            ),
        )
    }
}

// ---------------------------------------------------------------------------
// Bounds
// ---------------------------------------------------------------------------

fn read_uint(b: &[u8], at: usize, width: usize) -> (r: u64)
    requires
        is_width(width as int),
        at + width <= b@.len(),
    ensures
        r == uint_at(b@, at as int, width as int),
{
    if width == 1 {
        b[at] as u64
    } else if width == 2 {
        b[at] as u64 + 0x100 * b[at + 1] as u64
    } else if width == 4 {
        b[at] as u64 + 0x100 * b[at + 1] as u64 + 0x1_0000 * b[at + 2] as u64 + 0x100_0000 * b[at
            + 3] as u64
    } else {
        b[at] as u64 + 0x100 * b[at + 1] as u64 + 0x1_0000 * b[at + 2] as u64 + 0x100_0000 * b[at
            + 3] as u64 + 0x1_0000_0000 * b[at + 4] as u64 + 0x100_0000_0000 * b[at + 5] as u64
            + 0x1_0000_0000_0000 * b[at + 6] as u64 + 0x100_0000_0000_0000 * b[at + 7] as u64
    }
}

/// The bytes that `n` slots of `width` bytes take, where they end by `limit`.
fn span_within(width: usize, n: u64, limit: usize) -> (r: Option<usize>)
    requires
        is_width(width as int),
    ensures
        r is Some <==> span(width as int, n as int) <= limit,
        r matches Some(k) ==> k == span(width as int, n as int),
{
    let total: u128 = if width == 1 {
        n as u128
    } else if width == 2 {
        2 * n as u128
    } else if width == 4 {
        4 * n as u128
    } else {
        8 * n as u128
    };
    if total <= limit as u128 {
        Some(total as usize)
    } else {
        None
    }
}

fn has_code(code: u8) -> (r: bool)
    ensures
        r == is_code(code),
{
    code <= CODE_BOOL || code == CODE_VECTOR_BOOL
}

fn inline_code(code: u8) -> (r: bool)
    ensures
        r == is_inline(code),
{
    code <= CODE_FLOAT || code == CODE_BOOL
}

fn container_code(code: u8) -> (r: bool)
    ensures
        r == is_container(code),
{
    (CODE_MAP <= code && code < CODE_BLOB) || code == CODE_VECTOR_BOOL
}

fn width_in_byte(t: u8) -> (r: usize)
    ensures
        r == byte_width(t),
        is_width(r as int),
{
    if t % 4 == 0 {
        1
    } else if t % 4 == 1 {
        2
    } else if t % 4 == 2 {
        4
    } else {
        8
    }
}

/// What a `usize` holds of a number.
fn cut_to_usize(n: u64) -> (r: usize)
    ensures
        r == n as int % (usize::MAX + 1),
{
    (n as u128 % (usize::MAX as u128 + 1)) as usize
}

/// Follows a slot: the code and address of what it leads to, or `None` where
/// that leaves the document.
fn follow_slot(b: &[u8], at: usize, code: u8, width: usize, slot_width: usize) -> (r: Option<
    (u8, usize),
>)
    requires
        is_width(slot_width as int),
        at + slot_width <= b@.len(),
    ensures
        r is Some <==> slot_in_bounds(b@, at as int, code, slot_width as int),
        r matches Some((c, a)) ==> (FlexCursor {
            bytes: b@,
            code: c,
            width: width as int,
            address: a as int,
        }) == slot_target(b@, at as int, code, width as int, slot_width as int),
{
    if !has_code(code) {
        None
    } else if inline_code(code) {
        Some((code, at))
    } else {
        let distance: usize = cut_to_usize(read_uint(b, at, slot_width));
        if distance > at {
            None
        } else {
            let direct: u8 = if code == 6 {
                CODE_INT
            } else if code == 7 {
                CODE_UINT
            } else if code == 8 {
                CODE_FLOAT
            } else {
                code
            };
            Some((direct, at - distance))
        }
    }
}

fn leaf_fits(b: &[u8], code: u8, width: usize, address: usize) -> (r: bool)
    requires
        is_width(width as int),
        !is_container(code),
    ensures
        r == (FlexCursor {
            bytes: b@,
            code,
            width: width as int,
            address: address as int,
        }).leaf_in_bounds(),
{
    if address > b.len() {
        false
    } else if code == CODE_BOOL {
        width <= b.len() - address
    } else if code == CODE_BLOB {
        width > address || read_uint(b, address - width, width) <= (b.len() - address) as u64
    } else if code == CODE_FLOAT {
        width >= 4
    } else if code == CODE_STRING {
        width > address || read_uint(b, address - width, width) <= (usize::MAX - address) as u64
    } else if code == CODE_INT || code == CODE_UINT {
        width <= usize::MAX - address
    } else {
        true
    }
}

fn keys_fit(b: &[u8], width: usize, address: usize, count: usize) -> (r: bool)
    requires
        is_width(width as int),
        address <= b@.len(),
        count == (FlexCursor {
            bytes: b@,
            code: CODE_MAP,
            width: width as int,
            address: address as int,
        }).count(),
    ensures
        r == (FlexCursor {
            bytes: b@,
            code: CODE_MAP,
            width: width as int,
            address: address as int,
        }).keys_in_bounds(),
{
    let ghost c = FlexCursor {
        bytes: b@,
        code: CODE_MAP,
        width: width as int,
        address: address as int,
    };
    let prefix: usize = if width == 1 {
        3
    } else if width == 2 {
        6
    } else if width == 4 {
        12
    } else {
        24
    };
    if address <= prefix {
        return false;
    }
    let keys_slot: usize = address - prefix;
    let distance: u64 = read_uint(b, keys_slot, width);
    if distance > keys_slot as u64 {
        return false;
    }
    let keys_address: usize = keys_slot - distance as usize;
    let keys_width_field: u64 = read_uint(b, keys_slot + width, width);
    if keys_width_field != 1 && keys_width_field != 2 && keys_width_field != 4 && keys_width_field
        != 8 {
        return false;
    }
    let keys_width: usize = keys_width_field as usize;
    match span_within(keys_width, count as u64, b.len() - keys_address) {
        None => {
            return false;
        },
        Some(_) => {},
    }
    let mut i: usize = 0;
    let mut at: usize = keys_address;
    while i < count
        invariant
            c == (FlexCursor {
                bytes: b@,
                code: CODE_MAP,
                width: width as int,
                address: address as int,
            }),
            count == c.count(),
            b@.len() <= usize::MAX,
            keys_address == c.keys_address(),
            keys_width == c.keys_width(),
            is_width(keys_width as int),
            c.key_slot(count as int) <= b@.len(),
            0 <= i <= count,
            at == c.key_slot(i as int),
            forall|k: int| 0 <= k < i ==> 0 <= #[trigger] c.key_address(k),
        decreases count - i,
    {
        assert(at + keys_width == c.key_slot(i + 1));
        assert(at + keys_width <= b@.len());
        if read_uint(b, at, keys_width) > at as u64 {
            assert(c.key_address(i as int) < 0);
            return false;
        }
        at = at + keys_width;
        i = i + 1;
    }
    true
}

/// The count of a container, as it is stored.
fn stored_count(b: &[u8], code: u8, width: usize, address: usize) -> (n: u64)
    requires
        is_width(width as int),
        address <= b@.len(),
    ensures
        n == (FlexCursor {
            bytes: b@,
            code,
            width: width as int,
            address: address as int,
        }).count(),
{
    if code >= 16 && code <= 18 {
        2
    } else if code >= 19 && code <= 21 {
        3
    } else if code >= 22 && code <= 24 {
        4
    } else if width > address {
        0
    } else {
        read_uint(b, address - width, width)
    }
}

/// Whether the value at a position can be read.
fn can_read(b: &[u8], code: u8, width: usize, address: usize) -> (r: bool)
    requires
        is_width(width as int),
    ensures
        r == (FlexCursor {
            bytes: b@,
            code,
            width: width as int,
            address: address as int,
        }).in_bounds(),
{
    let ghost c = FlexCursor { bytes: b@, code, width: width as int, address: address as int };
    if !container_code(code) {
        return leaf_fits(b, code, width, address);
    }
    if address > b.len() {
        return false;
    }
    let count_field: u64 = stored_count(b, code, width, address);
    let room: usize = b.len() - address;
    let slots: usize = match span_within(width, count_field, room) {
        None => {
            return false;
        },
        Some(k) => k,
    };
    let count: usize = count_field as usize;
    if (code == CODE_MAP || code == CODE_VECTOR) && count > room - slots {
        return false;
    }
    assert(c.slots_in_bounds());
    code != CODE_MAP || keys_fit(b, width, address, count)
}

// ---------------------------------------------------------------------------
// Reading
// ---------------------------------------------------------------------------

/// Where a reader stands, as its fields hold it.
pub uninterp spec fn flex_cursor(r: flexbuffers::Reader<&[u8]>) -> FlexCursor;

/// What a reader can be asked for.
#[derive(Clone, Copy, PartialEq, Eq, Structural, Debug)]
pub enum FlexKind {
    Null,
    Bool,
    UInt,
    Int,
    Key,
    Text,
    Blob,
    Vector,
    Record,
    Other,
    Fault,
}

pub open spec fn kind_of(code: u8) -> FlexKind {
    if code == CODE_NULL {
        FlexKind::Null
    } else if code == CODE_BOOL {
        FlexKind::Bool
    } else if code == CODE_UINT {
        FlexKind::UInt
    } else if code == CODE_INT {
        FlexKind::Int
    } else if code == CODE_KEY {
        FlexKind::Key
    } else if code == CODE_STRING {
        FlexKind::Text
    } else if code == CODE_BLOB {
        FlexKind::Blob
    } else if code == CODE_MAP {
        FlexKind::Record
    } else if is_container(code) {
        FlexKind::Vector
    } else {
        FlexKind::Other
    }
}

/// Why a document names no root.
#[derive(Clone, Copy, PartialEq, Eq, Structural, Debug)]
pub enum RootFault {
    /// The document is too short, or the root leads out of it.
    OutOfBounds,
    /// The last byte is no width.
    InvalidWidth,
    /// The byte before it names no type.
    InvalidType,
}

/// Why a document without a root has none: its length is looked at first, then its last
/// byte, then the one before it.
pub open spec fn root_fault(b: Seq<u8>) -> RootFault {
    let end = b.len() as int;
    if end < 3 {
        RootFault::OutOfBounds
    } else if !is_width(b[end - 1] as int) {
        RootFault::InvalidWidth
    } else if !is_code(byte_code(b[end - 2])) {
        RootFault::InvalidType
    } else {
        RootFault::OutOfBounds
    }
}

/// What the reader says of a document without a root.
pub open spec fn fault_text(f: RootFault) -> Seq<char> {
    "Error reading flexbuffer: "@ + match f {
        RootFault::OutOfBounds => "FlexbufferOutOfBounds"@,
        RootFault::InvalidWidth => "InvalidRootWidth"@,
        RootFault::InvalidType => "InvalidPackedType"@,
    }
}

impl RootFault {
    /// The fault in words.
    pub fn message(&self) -> (r: String)
        ensures
            r@ == fault_text(*self),
    {
        let mut s: String = "Error reading flexbuffer: ".to_owned();
        s.push_str(
            match self {
                RootFault::OutOfBounds => "FlexbufferOutOfBounds",
                RootFault::InvalidWidth => "InvalidRootWidth",
                RootFault::InvalidType => "InvalidPackedType",
            },
        );
        s
    }
}

/// Calls `flexbuffers::Reader::get_root`: a reader at the value that the last
/// bytes name, and an error where they name none, which tells what is wrong with them.
#[verifier::external_body]
pub(crate) fn flex_root<'a>(bytes: &'a [u8]) -> (r: Result<Reader<&'a [u8]>, RootFault>)
    ensures
        match r {
            Ok(reader) => document_root(bytes@) == Some(flex_cursor(reader)),
            Err(fault) => document_root(bytes@) is None && fault == root_fault(bytes@),
        },
{
    match Reader::get_root(bytes) {
        Ok(reader) => Ok(reader),
        Err(ReaderError::InvalidRootWidth) => Err(RootFault::InvalidWidth),
        Err(ReaderError::InvalidPackedType) => Err(RootFault::InvalidType),
        Err(_) => Err(RootFault::OutOfBounds),
    }
}

/// Calls `flexbuffers::Reader::flexbuffer_type`: the type that the reader's
/// code stands for, the vector types taken together.
#[verifier::external_body]
fn reader_kind(r: &Reader<&[u8]>) -> (k: FlexKind)
    ensures
        k == kind_of(flex_cursor(*r).code),
{
    match r.flexbuffer_type() {
        FlexBufferType::Null => FlexKind::Null,
        FlexBufferType::Bool => FlexKind::Bool,
        FlexBufferType::UInt => FlexKind::UInt,
        FlexBufferType::Int => FlexKind::Int,
        FlexBufferType::Key => FlexKind::Key,
        FlexBufferType::String => FlexKind::Text,
        FlexBufferType::Blob => FlexKind::Blob,
        FlexBufferType::Map => FlexKind::Record,
        t if t.is_vector() => FlexKind::Vector,
        _ => FlexKind::Other,
    }
}

/// Calls `flexbuffers::Reader::as_bool` on a boolean: true where any of its
/// bytes is not zero.
#[verifier::external_body]
fn reader_bool(r: &Reader<&[u8]>) -> (v: bool)
    requires
        flex_cursor(*r).in_bounds(),
        flex_cursor(*r).code == CODE_BOOL,
    ensures
        v == bool_at(flex_cursor(*r).bytes, flex_cursor(*r).address, flex_cursor(*r).width),
{
    r.as_bool()
}

/// Calls `flexbuffers::Reader::as_u64` on an unsigned number: the number in its
/// bytes, 0 where they lie outside the document.
#[verifier::external_body]
fn reader_u64(r: &Reader<&[u8]>) -> (v: u64)
    requires
        flex_cursor(*r).in_bounds(),
        flex_cursor(*r).code == CODE_UINT,
    ensures
        v == flex_cursor(*r).unsigned(),
{
    r.as_u64()
}

/// Calls `flexbuffers::Reader::as_i64` on a signed number: the number in its
/// bytes, 0 where they lie outside the document.
#[verifier::external_body]
fn reader_i64(r: &Reader<&[u8]>) -> (v: i64)
    requires
        flex_cursor(*r).in_bounds(),
        flex_cursor(*r).code == CODE_INT,
    ensures
        v == flex_cursor(*r).signed(),
{
    r.as_i64()
}

/// Calls `flexbuffers::Reader::as_blob` on a blob: the counted bytes.
#[verifier::external_body]
fn reader_blob(r: &Reader<&[u8]>) -> (v: Vec<u8>)
    requires
        flex_cursor(*r).in_bounds(),
        flex_cursor(*r).code == CODE_BLOB,
    ensures
        v@ == flex_cursor(*r).data(),
{
    r.as_blob().0.to_vec()
}

/// Calls `flexbuffers::Reader::as_str` on a string or a key: the text of the
/// counted bytes, or of those up to the next zero byte, and no text at all
/// where they are not UTF-8 or lie outside the document.
#[verifier::external_body]
fn reader_text(r: &Reader<&[u8]>) -> (v: String)
    requires
        flex_cursor(*r).in_bounds(),
        flex_cursor(*r).code == CODE_STRING || flex_cursor(*r).code == CODE_KEY,
    ensures
        v@ == flex_cursor(*r).text(),
{
    r.as_str().to_string()
}

/// Calls `flexbuffers::Reader::length` on a container: the count that its type
/// fixes or that stands before its data, 0 where there is no room for it.
#[verifier::external_body]
fn reader_count(r: &Reader<&[u8]>) -> (n: usize)
    requires
        flex_cursor(*r).in_bounds(),
        is_container(flex_cursor(*r).code),
    ensures
        n == flex_cursor(*r).count(),
{
    r.length()
}

/// Calls `flexbuffers::VectorReader::idx` on a container's items: a reader at
/// what the `i`-th slot leads to, at a null where it leads nowhere.
#[verifier::external_body]
fn reader_item<'a>(r: &Reader<&'a [u8]>, i: usize) -> (item: Reader<&'a [u8]>)
    requires
        flex_cursor(*r).in_bounds(),
        is_container(flex_cursor(*r).code),
        i < flex_cursor(*r).count(),
    ensures
        flex_cursor(item) == flex_cursor(*r).child(i as int),
{
    r.as_vector().idx(i)
}

/// Calls `flexbuffers::MapReader::keys_vector` on a map: the text of its `i`-th
/// key, and no text at all where that is not UTF-8.
#[verifier::external_body]
fn reader_key(r: &Reader<&[u8]>, i: usize) -> (key: String)
    requires
        flex_cursor(*r).in_bounds(),
        flex_cursor(*r).code == CODE_MAP,
        i < flex_cursor(*r).count(),
    ensures
        key@ == flex_cursor(*r).key(i as int),
{
    r.as_map().keys_vector().idx(i).as_str().to_string()
}

/// The value of a whole document.
pub open spec fn document_value(b: Seq<u8>) -> Flex {
    match document_root(b) {
        Some(c) => c.value(b.len()),
        None => Flex::Fault,
    }
}

/// What a value can be asked for.
pub open spec fn value_kind(v: Flex) -> FlexKind {
    match v {
        Flex::Null => FlexKind::Null,
        Flex::Bool(_) => FlexKind::Bool,
        Flex::UInt(_) => FlexKind::UInt,
        Flex::Int(_) => FlexKind::Int,
        Flex::Key(_) => FlexKind::Key,
        Flex::Text(_) => FlexKind::Text,
        Flex::Blob(_) => FlexKind::Blob,
        Flex::Vector(_) => FlexKind::Vector,
        Flex::Record(_) => FlexKind::Record,
        Flex::Other => FlexKind::Other,
        Flex::Fault => FlexKind::Fault,
    }
}

/// A reader that knows where it stands, and so whether what stands there can be read.
pub struct FlexReader<'a> {
    reader: Reader<&'a [u8]>,
    bytes: &'a [u8],
    code: u8,
    width: usize,
    address: usize,
    depth: usize,
    sound: bool,
}

impl<'a> FlexReader<'a> {
    spec fn cursor(self) -> FlexCursor {
        FlexCursor {
            bytes: self.bytes@,
            code: self.code,
            width: self.width as int,
            address: self.address as int,
        }
    }

    #[verifier::type_invariant]
    spec fn well_formed(self) -> bool {
        &&& flex_cursor(self.reader) == self.cursor()
        &&& is_width(self.width as int)
        &&& self.sound == (self.cursor().in_bounds() && (is_container(self.code) ==> self.depth
            > 0))
    }

    /// How many levels of containers are followed from here.
    pub closed spec fn depth(self) -> nat {
        self.depth as nat
    }

    /// The value that stands here.
    pub closed spec fn value(self) -> Flex {
        self.cursor().value(self.depth as nat)
    }

    fn at(
        reader: Reader<&'a [u8]>,
        bytes: &'a [u8],
        code: u8,
        width: usize,
        address: usize,
        depth: usize,
    ) -> (r: FlexReader<'a>)
        requires
            is_width(width as int),
            flex_cursor(reader) == (FlexCursor {
                bytes: bytes@,
                code,
                width: width as int,
                address: address as int,
            }),
        ensures
            r.value() == flex_cursor(reader).value(depth as nat),
            r.depth() == depth,
    {
        let sound: bool = can_read(bytes, code, width, address) && (!container_code(code) || depth
            > 0);
        FlexReader { reader, bytes, code, width, address, depth, sound }
    }

    /// A reader at the root of a document.
    pub(crate) fn open(b: &'a [u8]) -> (r: Result<FlexReader<'a>, RootFault>)
        ensures
            match r {
                Ok(reader) => document_root(b@) is Some && reader.value() == document_value(b@),
                Err(fault) => document_root(b@) is None && fault == root_fault(b@),
            },
    {
        let reader: Reader<&'a [u8]> = match flex_root(b) {
            Err(fault) => {
                return Err(fault);
            },
            Ok(reader) => reader,
        };
        let end: usize = b.len();
        let slot_width: usize = b[end - 1] as usize;
        let t: u8 = b[end - 2];
        let width: usize = width_in_byte(t);
        match follow_slot(b, end - 2 - slot_width, t / 4, width, slot_width) {
            None => Err(RootFault::OutOfBounds),
            Some((code, address)) => Ok(FlexReader::at(reader, b, code, width, address, end)),
        }
    }

    /// What the value here can be asked for.
    pub(crate) fn kind(&self) -> (k: FlexKind)
        ensures
            k == value_kind(self.value()),
    {
        proof {
            use_type_invariant(self);
        }
        if self.sound {
            reader_kind(&self.reader)
        } else {
            FlexKind::Fault
        }
    }

    pub(crate) fn bool_value(&self) -> (v: bool)
        requires
            self.value() is Bool,
        ensures
            self.value() == Flex::Bool(v),
    {
        proof {
            use_type_invariant(self);
        }
        reader_bool(&self.reader)
    }

    pub(crate) fn u64_value(&self) -> (v: u64)
        requires
            self.value() is UInt,
        ensures
            self.value() == Flex::UInt(v),
    {
        proof {
            use_type_invariant(self);
        }
        reader_u64(&self.reader)
    }

    pub(crate) fn i64_value(&self) -> (v: i64)
        requires
            self.value() is Int,
        ensures
            self.value() == Flex::Int(v),
    {
        proof {
            use_type_invariant(self);
        }
        reader_i64(&self.reader)
    }

    pub(crate) fn blob_value(&self) -> (v: Vec<u8>)
        requires
            self.value() is Blob,
        ensures
            self.value() == Flex::Blob(v@),
    {
        proof {
            use_type_invariant(self);
        }
        reader_blob(&self.reader)
    }

    /// The text of a string or a key.
    pub(crate) fn text_value(&self) -> (v: String)
        requires
            self.value() is Text || self.value() is Key,
        ensures
            self.value() == Flex::Text(v@) || self.value() == Flex::Key(v@),
    {
        proof {
            use_type_invariant(self);
        }
        reader_text(&self.reader)
    }

    /// The number of items of a vector, or of entries of a record.
    pub(crate) fn count(&self) -> (n: usize)
        requires
            self.value() is Vector || self.value() is Record,
        ensures
            self.value() matches Flex::Vector(items) ==> n == items.len(),
            self.value() matches Flex::Record(entries) ==> n == entries.len(),
            self.depth() > 0,
    {
        proof {
            use_type_invariant(self);
        }
        reader_count(&self.reader)
    }

    /// A reader at an item of a vector, or at the value of an entry of a record.
    pub(crate) fn item(&self, i: usize) -> (r: FlexReader<'a>)
        requires
            self.value() is Vector || self.value() is Record,
            self.value() matches Flex::Vector(items) ==> i < items.len(),
            self.value() matches Flex::Record(entries) ==> i < entries.len(),
        ensures
            self.value() matches Flex::Vector(items) ==> r.value() == items[i as int],
            self.value() matches Flex::Record(entries) ==> r.value() == entries[i as int].1,
            r.depth() < self.depth(),
    {
        proof {
            use_type_invariant(self);
        }
        let (b, code, width): (&'a [u8], u8, usize) = (self.bytes, self.code, self.width);
        let ghost c = self.cursor();
        let count: u64 = stored_count(b, code, width, self.address);
        let slots: usize = match span_within(width, count, b.len() - self.address) {
            Some(k) => k,
            None => 0,
        };
        assert(slots == span(width as int, c.count()));
        let before: usize = match span_within(width, i as u64, slots) {
            Some(k) => k,
            None => 0,
        };
        assert(before == span(width as int, i as int));
        let (item, item_width): (u8, usize) = if code == CODE_MAP || code == CODE_VECTOR {
            let t: u8 = b[self.address + slots + i];
            (t / 4, width_in_byte(t))
        } else if code == 11 || code == 16 || code == 19 || code == 22 {
            (CODE_INT, width)
        } else if code == 12 || code == 17 || code == 20 || code == 23 {
            (CODE_UINT, width)
        } else if code == 14 || code == 15 {
            (CODE_KEY, width)
        } else if code == CODE_VECTOR_BOOL {
            (CODE_BOOL, width)
        } else {
            (CODE_FLOAT, width)
        };
        assert(item == c.child_code(i as int));
        assert(item_width == c.child_width(i as int));
        let reader: Reader<&'a [u8]> = reader_item(&self.reader, i);
        match follow_slot(b, self.address + before, item, item_width, width) {
            None => {
                let none: &'a [u8] = vstd::slice::slice_subrange(b, 0, 0);
                assert(none@ =~= Seq::empty());
                FlexReader::at(reader, none, CODE_NULL, 1, 0, self.depth - 1)
            },
            Some((child_code, child_address)) => FlexReader::at(
                reader,
                b,
                child_code,
                item_width,
                child_address,
                self.depth - 1,
            ),
        }
    }

    /// The key of an entry of a record.
    pub(crate) fn key(&self, i: usize) -> (key: String)
        requires
            self.value() matches Flex::Record(entries) && i < entries.len(),
        ensures
            self.value() matches Flex::Record(entries) ==> key@ == entries[i as int].0,
    {
        proof {
            use_type_invariant(self);
        }
        reader_key(&self.reader, i)
    }

    /// Whether everything in the value here can be read.
    pub(crate) fn can_pass(&self) -> (r: bool)
        ensures
            r == passable(self.value()),
        decreases self.depth(),
    {
        match self.kind() {
            FlexKind::Fault => false,
            FlexKind::Vector | FlexKind::Record => {
                let n: usize = self.count();
                let mut i: usize = 0;
                while i < n
                    invariant
                        self.value() is Vector || self.value() is Record,
                        self.value() matches Flex::Vector(items) ==> n == items.len() && forall|
                            k: int,
                        |
                            0 <= k < i ==> passable(#[trigger] items[k]),
                        self.value() matches Flex::Record(entries) ==> n == entries.len() && forall|
                            k: int,
                        |
                            0 <= k < i ==> passable((#[trigger] entries[k]).1),
                        0 <= i <= n,
                    decreases n - i,
                {
                    if !self.item(i).can_pass() {
                        return false;
                    }
                    i = i + 1;
                }
                true
            },
            _ => true,
        }
    }
}

// ---------------------------------------------------------------------------
// Writing
// ---------------------------------------------------------------------------

/// A value that is being written: the whole document, or a container inside it
/// with what it holds so far and, in a record, the key that waits for its value.
pub enum FlexFrame {
    Top(Option<Flex>),
    Vector(Seq<Flex>),
    Record(Seq<(Seq<char>, Flex)>, Option<Seq<char>>),
}

/// The frames that a serializer has open, outermost first.
pub uninterp spec fn flex_frames(s: flexbuffers::FlexbufferSerializer) -> Seq<FlexFrame>;

/// The bytes that a serializer hands out for a document of the given value.
pub uninterp spec fn flex_document(v: Flex) -> Seq<u8>;

/// A value can be written next.
pub open spec fn takes_value(frames: Seq<FlexFrame>) -> bool {
    &&& frames.len() > 0
    &&& match frames.last() {
        FlexFrame::Top(v) => v is None,
        FlexFrame::Vector(_) => true,
        FlexFrame::Record(_, key) => key is Some,
    }
}

/// The frames after `v` was written.
pub open spec fn with_value(frames: Seq<FlexFrame>, v: Flex) -> Seq<FlexFrame> {
    frames.drop_last().push(
        match frames.last() {
            FlexFrame::Top(_) => FlexFrame::Top(Some(v)),
            FlexFrame::Vector(items) => FlexFrame::Vector(items.push(v)),
            FlexFrame::Record(entries, Some(key)) => FlexFrame::Record(
                entries.push((key, v)),
                None,
            ),
            FlexFrame::Record(entries, None) => FlexFrame::Record(entries, None),
        },
    )
}

/// The items are numbers, and they and their count stay below a limit. They are stored in
/// slots that hold the largest of them and the count, without type bytes.
pub open spec fn numbers_below(items: Seq<Flex>, limit: int) -> bool {
    &&& items.len() < limit
    &&& forall|i: int|
        0 <= i < items.len() ==> ((#[trigger] items[i]) matches Flex::UInt(n) && n < limit)
}

/// No fewer bytes than a value takes in a document of less than four gibibytes, with the
/// slot and the type byte that lead to it: a slot takes at most 8 bytes, a count at most
/// 8, what aligns it at most 7, a text its bytes in UTF-8 and one more. A record has two such
/// vectors, one with two slots more, and covers what a document has behind its root.
#[verifier::opaque]
pub open spec fn weight(v: Flex) -> nat
    decreases v,
{
    match v {
        Flex::Text(s) => 25 + vstd::utf8::encode_utf8(s).len(),
        Flex::Key(s) => 25 + vstd::utf8::encode_utf8(s).len(),
        Flex::Blob(b) => 25 + b.len(),
        Flex::Vector(items) => 24 + items_weight(items),
        Flex::Record(entries) => 64 + entries_weight(entries),
        _ => 9,
    }
}

pub open spec fn items_weight(items: Seq<Flex>) -> nat
    decreases items,
{
    if numbers_below(items, 0x100) {
        items.len()
    } else if numbers_below(items, 0x1_0000) {
        2 * items.len()
    } else if numbers_below(items, 0x1_0000_0000) {
        4 * items.len()
    } else {
        sum_weight(items, items.len())
    }
}

/// The weight of the first `n` items.
#[verifier::opaque]
pub open spec fn sum_weight(items: Seq<Flex>, n: nat) -> nat
    decreases items, n,
{
    if n == 0 || n > items.len() {
        0
    } else {
        sum_weight(items, (n - 1) as nat) + weight(items[n - 1])
    }
}

/// The weight of the key of an entry.
pub open spec fn key_weight(key: Seq<char>) -> nat {
    9 + 4 * key.len()
}

pub open spec fn entries_weight(entries: Seq<(Seq<char>, Flex)>) -> nat
    decreases entries,
{
    part_weight(entries, entries.len())
}

/// The weight of the first `n` entries.
#[verifier::opaque]
pub open spec fn part_weight(entries: Seq<(Seq<char>, Flex)>, n: nat) -> nat
    decreases entries, n,
{
    if n == 0 || n > entries.len() {
        0
    } else {
        part_weight(entries, (n - 1) as nat) + key_weight(entries[n - 1].0) + weight(
            entries[n - 1].1,
        )
    }
}

pub open spec fn frame_weight(frame: FlexFrame) -> nat {
    match frame {
        FlexFrame::Top(None) => 0,
        FlexFrame::Top(Some(v)) => weight(v),
        FlexFrame::Vector(items) => weight(Flex::Vector(items)),
        FlexFrame::Record(entries, key) => weight(Flex::Record(entries)) + match key {
            Some(key) => key_weight(key),
            None => 0,
        },
    }
}

/// No fewer bytes than were written so far.
#[verifier::opaque]
pub open spec fn written(frames: Seq<FlexFrame>) -> nat
    decreases frames.len(),
{
    if frames.len() == 0 {
        0
    } else {
        written(frames.drop_last()) + frame_weight(frames.last())
    }
}

/// What was written so far stays below four gibibytes.
pub open spec fn fits(frames: Seq<FlexFrame>) -> bool {
    written(frames) < 0x1_0000_0000
}

/// A value can be written next, inside a container, and does not make the document too
/// large.
pub open spec fn room_for(frames: Seq<FlexFrame>, v: Flex) -> bool {
    takes_value(frames) && frames.len() > 1 && fits(with_value(frames, v))
}

proof fn lemma_sum_same(a: Seq<Flex>, b: Seq<Flex>, n: nat)
    requires
        n <= a.len(),
        n <= b.len(),
        forall|i: int| 0 <= i < n ==> a[i] == b[i],
    ensures
        sum_weight(a, n) == sum_weight(b, n),
    decreases n,
{
    reveal(weight);
    reveal(sum_weight);
    reveal(part_weight);
    if n > 0 {
        lemma_sum_same(a, b, (n - 1) as nat);
    }
}

proof fn lemma_weight_min(v: Flex)
    ensures
        weight(v) >= 9,
{
    reveal(weight);
    reveal(sum_weight);
    reveal(part_weight);
}

pub proof fn lemma_sum_grows(items: Seq<Flex>, n: nat, m: nat)
    requires
        n <= m <= items.len(),
    ensures
        sum_weight(items, n) + 9 * (m - n) <= sum_weight(items, m),
    decreases m,
{
    reveal(weight);
    reveal(sum_weight);
    reveal(part_weight);
    if n < m {
        lemma_sum_grows(items, n, (m - 1) as nat);
        lemma_weight_min(items[m - 1]);
        assert(sum_weight(items, m) == sum_weight(items, (m - 1) as nat) + weight(items[m - 1]));
    }
}

/// The first items of a vector weigh no more than all of them.
pub proof fn lemma_items_take(items: Seq<Flex>, n: nat)
    requires
        n <= items.len(),
    ensures
        items_weight(items.take(n as int)) <= items_weight(items),
{
    reveal(weight);
    reveal(sum_weight);
    reveal(part_weight);
    let front = items.take(n as int);
    lemma_sum_same(front, items, n);
    lemma_sum_grows(items, 0, n);
    lemma_sum_grows(items, n, items.len());
    lemma_numbers_take(items, n, 0x100);
    lemma_numbers_take(items, n, 0x1_0000);
    lemma_numbers_take(items, n, 0x1_0000_0000);
    lemma_items_weight(items);
    lemma_items_weight(front);
}

proof fn lemma_numbers_take(items: Seq<Flex>, n: nat, limit: int)
    requires
        n <= items.len(),
    ensures
        numbers_below(items, limit) ==> numbers_below(items.take(n as int), limit),
{
}

/// What items weigh, by the slots that they take.
pub proof fn lemma_items_weight(items: Seq<Flex>)
    ensures
        numbers_below(items, 0x100) ==> items_weight(items) == items.len(),
        !numbers_below(items, 0x100) && numbers_below(items, 0x1_0000) ==> items_weight(items) == 2
            * items.len(),
        !numbers_below(items, 0x100) && !numbers_below(items, 0x1_0000) && numbers_below(
            items,
            0x1_0000_0000,
        ) ==> items_weight(items) == 4 * items.len(),
        !numbers_below(items, 0x100) && !numbers_below(items, 0x1_0000) && !numbers_below(
            items,
            0x1_0000_0000,
        ) ==> items_weight(items) == sum_weight(items, items.len()),
        items_weight(items) <= sum_weight(items, items.len()),
{
    reveal(weight);
    reveal(sum_weight);
    reveal(part_weight);
    lemma_sum_grows(items, 0, items.len());
}

proof fn lemma_part_same(a: Seq<(Seq<char>, Flex)>, b: Seq<(Seq<char>, Flex)>, n: nat)
    requires
        n <= a.len(),
        n <= b.len(),
        forall|i: int| 0 <= i < n ==> a[i] == b[i],
    ensures
        part_weight(a, n) == part_weight(b, n),
    decreases n,
{
    reveal(weight);
    reveal(sum_weight);
    reveal(part_weight);
    if n > 0 {
        lemma_part_same(a, b, (n - 1) as nat);
    }
}

/// The weight of an entry adds to that of the entries before it.
pub broadcast proof fn lemma_entries_push(entries: Seq<(Seq<char>, Flex)>, e: (Seq<char>, Flex))
    ensures
        #[trigger] entries_weight(entries.push(e)) == entries_weight(entries) + key_weight(e.0)
            + weight(e.1),
{
    reveal(weight);
    reveal(sum_weight);
    reveal(part_weight);
    let all = entries.push(e);
    lemma_part_same(entries, all, entries.len());
    assert(part_weight(all, all.len()) == part_weight(all, entries.len()) + key_weight(e.0)
        + weight(e.1));
}

/// What a record and no entries weigh.
pub proof fn lemma_record_weight(entries: Seq<(Seq<char>, Flex)>)
    ensures
        weight(Flex::Record(entries)) == 64 + entries_weight(entries),
        entries_weight(Seq::empty()) == 0,
{
    reveal(weight);
    reveal(sum_weight);
    reveal(part_weight);
}

pub broadcast proof fn lemma_written_push(frames: Seq<FlexFrame>, frame: FlexFrame)
    ensures
        #[trigger] written(frames.push(frame)) == written(frames) + frame_weight(frame),
{
    reveal(written);
    assert(frames.push(frame).drop_last() =~= frames);
}

/// A value adds its weight to what was written, or more: numbers that stand with it in a
/// vector may need larger slots.
pub proof fn lemma_written_value(frames: Seq<FlexFrame>, v: Flex)
    requires
        takes_value(frames),
        !(v is UInt),
    ensures
        written(with_value(frames, v)) >= written(frames) + weight(v),
{
    reveal(weight);
    reveal(sum_weight);
    reveal(part_weight);
    reveal(written);
    broadcast use {lemma_written_push, lemma_entries_push};

    assert(written(frames) == written(frames.drop_last()) + frame_weight(frames.last()));
    match frames.last() {
        FlexFrame::Vector(items) => {
            let all = items.push(v);
            assert(all[items.len() as int] == v);
            lemma_sum_same(items, all, items.len());
            lemma_sum_grows(items, 0, items.len());
            lemma_items_weight(items);
            lemma_items_weight(all);
            assert(items_weight(all) == sum_weight(all, all.len()));
            assert(sum_weight(all, all.len()) == sum_weight(items, items.len()) + weight(v));
            assert(items_weight(all) >= items_weight(items) + weight(v));
            assert(frame_weight(FlexFrame::Vector(all)) >= frame_weight(frames.last()) + weight(v));
        },
        FlexFrame::Record(entries, key) => {
            let all = entries.push((key->0, v));
            lemma_record_weight(entries);
            lemma_record_weight(all);
            assert(frame_weight(FlexFrame::Record(all, None)) == frame_weight(frames.last())
                + weight(v));
        },
        FlexFrame::Top(_) => {},
    }
}

/// Where there is room for a vector, there is while it is being written.
pub proof fn lemma_vector_room(frames: Seq<FlexFrame>, items: Seq<Flex>)
    requires
        room_for(frames, Flex::Vector(items)),
    ensures
        fits(frames.push(FlexFrame::Vector(items))),
{
    reveal(weight);
    reveal(sum_weight);
    reveal(part_weight);
    broadcast use lemma_written_push;

    lemma_written_value(frames, Flex::Vector(items));
}

/// Where there is room for a vector, there is for each item behind those before it.
pub proof fn lemma_item_room(frames: Seq<FlexFrame>, items: Seq<Flex>, i: int)
    requires
        room_for(frames, Flex::Vector(items)),
        0 <= i < items.len(),
    ensures
        room_for(frames.push(FlexFrame::Vector(items.take(i))), items[i]),
{
    reveal(weight);
    reveal(sum_weight);
    reveal(part_weight);
    broadcast use lemma_written_push;

    lemma_vector_room(frames, items);
    lemma_items_take(items, (i + 1) as nat);
    assert(items.take(i).push(items[i]) =~= items.take(i + 1));
    assert(frames.push(FlexFrame::Vector(items.take(i))).drop_last() =~= frames);
}

/// Calls `flexbuffers::FlexbufferSerializer::new`: nothing is written yet.
#[verifier::external_body]
pub(crate) fn flex_writer() -> (s: FlexbufferSerializer)
    ensures
        flex_frames(s) == seq![FlexFrame::Top(None)],
{
    FlexbufferSerializer::new()
}

/// Calls `serialize_map` of `FlexbufferSerializer`: opens a record. It does not
/// fail.
#[verifier::external_body]
pub(crate) fn flex_begin_record(s: &mut FlexbufferSerializer) -> (r: Result<(), SerializationError>)
    requires
        takes_value(flex_frames(*old(s))),
    ensures
        r is Ok,
        flex_frames(*final(s)) == flex_frames(*old(s)).push(FlexFrame::Record(Seq::empty(), None)),
{
    match Serializer::serialize_map(s, None) {
        Ok(_) => Ok(()),
        Err(e) => Err(e),
    }
}

/// Calls `serialize_key` of `FlexbufferSerializer`: the key of the next value.
/// A key holds no zero character. It does not fail.
#[verifier::external_body]
pub(crate) fn flex_write_key(s: &mut FlexbufferSerializer, key: &str) -> (r: Result<
    (),
    SerializationError,
>)
    requires
        flex_frames(*old(s)).len() > 0,
        flex_frames(*old(s)).last() matches FlexFrame::Record(_, pending) && pending is None,
        !key@.contains('\0'),
    ensures
        r is Ok,
        flex_frames(*old(s)).last() matches FlexFrame::Record(entries, _) ==> flex_frames(*final(s))
            == flex_frames(*old(s)).drop_last().push(FlexFrame::Record(entries, Some(key@))),
{
    SerializeMap::serialize_key(&mut &mut *s, key)
}

/// Calls `end` of `FlexbufferSerializer` on a map: the innermost record becomes
/// a value of what holds it. It does not fail. A key that occurs twice would stop the
/// program, and so could a distance of four gibibytes or, at the root, of 64 kibibytes.
#[verifier::external_body]
pub(crate) fn flex_end_record(s: &mut FlexbufferSerializer) -> (r: Result<(), SerializationError>)
    requires
        flex_frames(*old(s)).len() > 1,
        flex_frames(*old(s)).last() matches FlexFrame::Record(entries, pending) && pending is None
            && entries.len() < 256 && distinct_keys(entries),
        fits(flex_frames(*old(s))),
    ensures
        r is Ok,
        flex_frames(*old(s)).last() matches FlexFrame::Record(entries, _) ==> flex_frames(*final(s))
            == with_value(flex_frames(*old(s)).drop_last(), Flex::Record(entries)),
{
    SerializeMap::end(s)
}

/// Calls `serialize_seq` of `FlexbufferSerializer`: opens a vector. It does not
/// fail.
#[verifier::external_body]
pub(crate) fn flex_begin_vector(s: &mut FlexbufferSerializer) -> (r: Result<(), SerializationError>)
    requires
        takes_value(flex_frames(*old(s))),
    ensures
        r is Ok,
        flex_frames(*final(s)) == flex_frames(*old(s)).push(FlexFrame::Vector(Seq::empty())),
{
    match Serializer::serialize_seq(s, None) {
        Ok(_) => Ok(()),
        Err(e) => Err(e),
    }
}

/// Calls `end` of `FlexbufferSerializer` on a sequence: the innermost vector
/// becomes a value of what holds it. It does not fail. A vector at the root could stop the
/// program, and so could a distance of four gibibytes.
#[verifier::external_body]
pub(crate) fn flex_end_vector(s: &mut FlexbufferSerializer) -> (r: Result<(), SerializationError>)
    requires
        flex_frames(*old(s)).len() > 2,
        flex_frames(*old(s)).last() is Vector,
        fits(flex_frames(*old(s))),
    ensures
        r is Ok,
        flex_frames(*old(s)).last() matches FlexFrame::Vector(items) ==> flex_frames(*final(s))
            == with_value(flex_frames(*old(s)).drop_last(), Flex::Vector(items)),
{
    SerializeSeq::end(s)
}

/// Calls `serialize_u64` of `FlexbufferSerializer`. It does not fail.
#[verifier::external_body]
pub(crate) fn flex_write_u64(s: &mut FlexbufferSerializer, v: u64) -> (r: Result<
    (),
    SerializationError,
>)
    requires
        takes_value(flex_frames(*old(s))),
    ensures
        r is Ok,
        flex_frames(*final(s)) == with_value(flex_frames(*old(s)), Flex::UInt(v)),
{
    s.serialize_u64(v)
}

/// Calls `serialize_i64` of `FlexbufferSerializer`. It does not fail.
#[verifier::external_body]
pub(crate) fn flex_write_i64(s: &mut FlexbufferSerializer, v: i64) -> (r: Result<
    (),
    SerializationError,
>)
    requires
        takes_value(flex_frames(*old(s))),
    ensures
        r is Ok,
        flex_frames(*final(s)) == with_value(flex_frames(*old(s)), Flex::Int(v)),
{
    s.serialize_i64(v)
}

/// Calls `serialize_bool` of `FlexbufferSerializer`. It does not fail.
#[verifier::external_body]
pub(crate) fn flex_write_bool(s: &mut FlexbufferSerializer, v: bool) -> (r: Result<
    (),
    SerializationError,
>)
    requires
        takes_value(flex_frames(*old(s))),
    ensures
        r is Ok,
        flex_frames(*final(s)) == with_value(flex_frames(*old(s)), Flex::Bool(v)),
{
    s.serialize_bool(v)
}

/// Calls `serialize_str` of `FlexbufferSerializer`. It does not fail. A string at the root
/// could stop the program.
#[verifier::external_body]
pub(crate) fn flex_write_str(s: &mut FlexbufferSerializer, v: &str) -> (r: Result<
    (),
    SerializationError,
>)
    requires
        takes_value(flex_frames(*old(s))),
        flex_frames(*old(s)).len() > 1,
    ensures
        r is Ok,
        flex_frames(*final(s)) == with_value(flex_frames(*old(s)), Flex::Text(v@)),
{
    s.serialize_str(v)
}

/// Calls `serialize_none` of `FlexbufferSerializer`. It does not fail.
#[verifier::external_body]
pub(crate) fn flex_write_null(s: &mut FlexbufferSerializer) -> (r: Result<(), SerializationError>)
    requires
        takes_value(flex_frames(*old(s))),
    ensures
        r is Ok,
        flex_frames(*final(s)) == with_value(flex_frames(*old(s)), Flex::Null),
{
    s.serialize_none()
}

/// Calls `flexbuffers::FlexbufferSerializer::take_buffer` once a document with a record at
/// its root is complete: bytes that depend on what was written alone, no more of them than
/// it weighs. Where that is less than four gibibytes, so that every distance fits the width
/// measured for it, and no record has a key twice, they can be read and hold the value that
/// was written, the entries of each record in another order.
#[verifier::external_body]
pub(crate) fn flex_take(s: &mut FlexbufferSerializer) -> (bytes: Vec<u8>)
    requires
        flex_frames(*old(s)).len() == 1,
        flex_frames(*old(s))[0] matches FlexFrame::Top(v) && v matches Some(Flex::Record(_)),
        fits(flex_frames(*old(s))),
    ensures
        flex_frames(*old(s))[0] matches FlexFrame::Top(Some(v)) ==> {
            &&& bytes@ == flex_document(v)
            &&& 0 < bytes@.len() <= weight(v)
            &&& storable(v) ==> document_root(bytes@) is Some && same_value(
                v,
                document_value(bytes@),
            )
        },
{
    s.take_buffer()
}

} // verus!
