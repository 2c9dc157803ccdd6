//! A directory of files as one string of bytes, and back.
//!
//! The archive begins with the number of files as four bytes. Each file follows
//! as the length of its path in four bytes, the path, the length of its data in
//! eight bytes, and the data. Numbers are big-endian. Paths are relative, with
//! `/` between their components, and UTF-8.

#[allow(unused_imports)]
use crate::bytes;
use crate::bytes::{push_u32_be, push_u64_be, read_u32_be, read_u64_be};
#[allow(unused_imports)]
use crate::text;
use crate::text::{push_decimal, utf8_text};
use vstd::prelude::*;

verus! {

/// The longest path that is packed.
pub const MAX_RELPATH_LEN: u32 = 1024;

/// The largest file that is packed.
pub const MAX_FILE_DATA_LEN: u64 = 0x4000_0000;

/// The largest archive that is packed or unpacked.
pub const MAX_TOTAL_LEN: u64 = 0x2_0000_0000;

/// A file with its path relative to the directory.
#[derive(Debug, PartialEq, Eq)]
pub struct PackedFile {
    pub relpath: String,
    pub data: Vec<u8>,
}

#[verifier::ext_equal]
pub struct FileView {
    pub path: Seq<u8>,
    pub data: Seq<u8>,
}

impl View for PackedFile {
    type V = FileView;

    open spec fn view(&self) -> FileView {
        FileView { path: path_bytes(self.relpath@), data: self.data@ }
    }
}

/// The bytes of a path.
pub open spec fn path_bytes(relpath: Seq<char>) -> Seq<u8> {
    vstd::utf8::encode_utf8(relpath)
}

pub open spec fn files_view(files: Seq<PackedFile>) -> Seq<FileView> {
    Seq::new(files.len(), |i: int| files[i]@)
}

// ---------------------------------------------------------------------------
// Paths
// ---------------------------------------------------------------------------

/// A component of the path begins at `i`.
pub open spec fn component_at(path: Seq<u8>, i: int) -> bool {
    i == 0 || path[i - 1] == 47
}

/// The component that begins at `i` is `..`.
pub open spec fn parent_at(path: Seq<u8>, i: int) -> bool {
    &&& 0 <= i
    &&& i + 2 <= path.len()
    &&& component_at(path, i)
    &&& path[i] == 46
    &&& path[i + 1] == 46
    &&& i + 2 == path.len() || path[i + 2] == 47
}

/// The path begins with the component `.`.
pub open spec fn begins_with_dot(path: Seq<u8>) -> bool {
    path.len() > 0 && path[0] == 46 && (path.len() == 1 || path[1] == 47)
}

/// The path cannot lead out of the directory: it does not begin at the root,
/// has no component `..`, does not begin with `.`, and holds no zero byte.
pub open spec fn safe_path(path: Seq<u8>) -> bool {
    &&& path.len() > 0 ==> path[0] != 47
    &&& !begins_with_dot(path)
    &&& forall|i: int| 0 <= i < path.len() ==> #[trigger] path[i] != 0
    &&& forall|i: int| 0 <= i < path.len() ==> !#[trigger] parent_at(path, i)
}

/// Whether a relative path stays inside the directory it is joined to.
pub fn is_safe_relpath(p: &str) -> (r: bool)
    ensures
        r == safe_path(path_bytes(p@)),
{
    let b: &[u8] = p.as_bytes();
    let n: usize = b.len();
    if n > 0 && b[0] == 47 {
        return false;
    }
    if n > 0 && b[0] == 46 && (n == 1 || b[1] == 47) {
        return false;
    }
    let mut i: usize = 0;
    while i < n
        invariant
            n == b@.len(),
            0 <= i <= n,
            forall|k: int| 0 <= k < i ==> #[trigger] b@[k] != 0,
            forall|k: int| 0 <= k < i ==> !#[trigger] parent_at(b@, k),
            b@ == path_bytes(p@),
        decreases n - i,
    {
        if b[i] == 0 {
            assert(b@[i as int] == 0);
            return false;
        }
        if (i == 0 || b[i - 1] == 47) && b[i] == 46 && n - i >= 2 && b[i + 1] == 46 && (n - i == 2
            || b[i + 2] == 47) {
            assert(parent_at(b@, i as int));
            return false;
        }
        assert(!parent_at(b@, i as int));
        i = i + 1;
    }
    true
}

/// A path that climbs to a parent directory anywhere, begins at the root or holds a zero
/// byte is not safe, whatever stands before and after.
pub proof fn law_unsafe_paths(before: Seq<u8>, after: Seq<u8>)
    ensures
        !safe_path(seq![46u8, 46]),
        !safe_path(seq![46u8, 46, 47] + after),
        !safe_path(before + seq![47u8, 46, 46]),
        !safe_path(before + seq![47u8, 46, 46, 47] + after),
        !safe_path(seq![47u8] + after),
        !safe_path(before + seq![0u8] + after),
        !safe_path(seq![46u8]),
        !safe_path(seq![46u8, 47] + after),
{
    let n = before.len() as int;
    assert(parent_at(seq![46u8, 46], 0));
    assert(parent_at(seq![46u8, 46, 47] + after, 0));
    assert(parent_at(before + seq![47u8, 46, 46], n + 1));
    assert(parent_at(before + seq![47u8, 46, 46, 47] + after, n + 1));
    assert((before + seq![0u8] + after)[n] == 0);
    assert((seq![47u8] + after)[0] == 47);
    assert((seq![46u8, 47] + after)[0] == 46 && (seq![46u8, 47] + after)[1] == 47);
}

/// A name of a file or directory is a safe path, other than `.` and `..`.
pub proof fn law_names_are_safe(name: Seq<u8>)
    requires
        forall|i: int| 0 <= i < name.len() ==> #[trigger] name[i] != 47 && name[i] != 0,
        name != seq![46u8],
        name != seq![46u8, 46],
    ensures
        safe_path(name),
{
    if begins_with_dot(name) {
        assert(name.len() == 1);
        assert(name =~= seq![46u8]);
    }
    assert forall|i: int| 0 <= i < name.len() implies !#[trigger] parent_at(name, i) by {
        if parent_at(name, i) {
            if i > 0 {
                assert(name[i - 1] != 47);
            }
            if i + 2 < name.len() {
                assert(name[i + 2] != 47);
            }
            assert(name =~= seq![46u8, 46]);
        }
    }
}

/// A safe path below a safe directory is safe, and so every path made of names is.
pub proof fn law_paths_inside_are_safe(dir: Seq<u8>, path: Seq<u8>)
    requires
        dir.len() > 0,
        safe_path(dir),
        safe_path(path),
    ensures
        safe_path(dir + seq![47u8] + path),
{
    let all = dir + seq![47u8] + path;
    let n = dir.len() as int;
    assert(all[0] == dir[0]);
    if begins_with_dot(all) {
        if n > 1 {
            assert(all[1] == dir[1]);
        }
        assert(begins_with_dot(dir));
    }
    assert forall|i: int| 0 <= i < all.len() implies #[trigger] all[i] != 0 by {
        if i < n {
            assert(all[i] == dir[i]);
        } else if i > n {
            assert(all[i] == path[i - n - 1]);
        }
    }
    assert forall|i: int| 0 <= i < all.len() implies !#[trigger] parent_at(all, i) by {
        if parent_at(all, i) {
            if i < n {
                assert(all[i] == dir[i]);
                assert(all[i + 1] == 46);
                assert(i + 1 < n && all[i + 1] == dir[i + 1]);
                if i > 0 {
                    assert(all[i - 1] == dir[i - 1]);
                }
                if i + 2 < n {
                    assert(all[i + 2] == dir[i + 2]);
                }
                assert(parent_at(dir, i));
            } else {
                let k = i - n - 1;
                assert(all[i] == path[k] && all[i + 1] == path[k + 1]);
                if k > 0 {
                    assert(all[i - 1] == path[k - 1]);
                }
                if k + 2 < path.len() {
                    assert(all[i + 2] == path[k + 2]);
                }
                assert(parent_at(path, k));
            }
        }
    }
}

/// The place of a byte in the order of paths: `/` before everything else, so
/// that paths are ordered by their components.
pub open spec fn rank(b: u8) -> int {
    if b == 47 {
        0
    } else {
        b + 1
    }
}

/// The order of paths: the first byte in which they differ decides, and a path
/// comes before those that continue it.
pub open spec fn path_less(a: Seq<u8>, b: Seq<u8>) -> bool
    decreases a.len(),
{
    if b.len() == 0 {
        false
    } else if a.len() == 0 {
        true
    } else if rank(a[0]) != rank(b[0]) {
        rank(a[0]) < rank(b[0])
    } else {
        path_less(a.drop_first(), b.drop_first())
    }
}

proof fn lemma_rank(a: u8, b: u8)
    ensures
        rank(a) == rank(b) <==> a == b,
{
}

pub proof fn lemma_path_order(a: Seq<u8>, b: Seq<u8>)
    ensures
        !(path_less(a, b) && path_less(b, a)),
        path_less(a, b) || path_less(b, a) || a == b,
        !path_less(a, a),
    decreases a.len(),
{
    if a.len() > 0 && b.len() > 0 {
        lemma_path_order(a.drop_first(), b.drop_first());
        if rank(a[0]) == rank(b[0]) && a.drop_first() == b.drop_first() {
            lemma_rank(a[0], b[0]);
            assert(a =~= seq![a[0]] + a.drop_first());
            assert(b =~= seq![b[0]] + b.drop_first());
        }
        lemma_path_order(a.drop_first(), a.drop_first());
    } else if a.len() == 0 && b.len() == 0 {
        assert(a =~= b);
    } else if a.len() > 0 {
        lemma_path_order(a.drop_first(), a.drop_first());
    }
}

pub proof fn lemma_path_transitive(a: Seq<u8>, b: Seq<u8>, c: Seq<u8>)
    requires
        !path_less(b, a),
        !path_less(c, b),
    ensures
        !path_less(c, a),
    decreases a.len(),
{
    if a.len() > 0 && c.len() > 0 && b.len() > 0 {
        if rank(a[0]) == rank(b[0]) && rank(b[0]) == rank(c[0]) {
            lemma_path_transitive(a.drop_first(), b.drop_first(), c.drop_first());
        }
    }
}

proof fn lemma_common_start(start: Seq<u8>, a: Seq<u8>, b: Seq<u8>)
    ensures
        path_less(start + a, start + b) == path_less(a, b),
    decreases start.len(),
{
    if start.len() > 0 {
        lemma_common_start(start.drop_first(), a, b);
        assert((start + a).drop_first() =~= start.drop_first() + a);
        assert((start + b).drop_first() =~= start.drop_first() + b);
    } else {
        assert(start + a =~= a);
        assert(start + b =~= b);
    }
}

/// The order of paths goes component by component: a path comes before those below it; what
/// lies below a directory comes before whatever continues its name; and otherwise the first
/// byte in which two paths differ decides.
pub proof fn law_path_order(start: Seq<u8>, x: u8, y: u8, a: Seq<u8>, b: Seq<u8>)
    ensures
        path_less(start, start + seq![x] + a),
        y != 47 ==> path_less(start + seq![47u8] + a, start + seq![y] + b),
        x < y && x != 47 && y != 47 ==> path_less(start + seq![x] + a, start + seq![y] + b),
{
    let none = Seq::<u8>::empty();
    assert(start + none =~= start);
    assert(start + seq![x] + a =~= start + (seq![x] + a));
    assert(start + seq![47u8] + a =~= start + (seq![47u8] + a));
    assert(start + seq![y] + b =~= start + (seq![y] + b));
    lemma_common_start(start, none, seq![x] + a);
    lemma_common_start(start, seq![47u8] + a, seq![y] + b);
    lemma_common_start(start, seq![x] + a, seq![y] + b);
}

/// Whether the first path comes before the second.
pub fn path_before(a: &str, b: &str) -> (r: bool)
    ensures
        r == path_less(path_bytes(a@), path_bytes(b@)),
{
    let x: &[u8] = a.as_bytes();
    let y: &[u8] = b.as_bytes();
    let mut i: usize = 0;
    assert(x@.skip(0) =~= x@);
    assert(y@.skip(0) =~= y@);
    while i < x.len() && i < y.len()
        invariant
            0 <= i <= x@.len(),
            0 <= i <= y@.len(),
            x@ == path_bytes(a@),
            y@ == path_bytes(b@),
            path_less(x@, y@) == path_less(x@.skip(i as int), y@.skip(i as int)),
        decreases x@.len() - i,
    {
        let (c, d): (u8, u8) = (x[i], y[i]);
        let ghost (s, t) = (x@.skip(i as int), y@.skip(i as int));
        assert(s[0] == c && t[0] == d);
        assert(s.drop_first() =~= x@.skip(i + 1));
        assert(t.drop_first() =~= y@.skip(i + 1));
        if c != d {
            proof {
                lemma_rank(c, d);
            }
            return c == 47 || (d != 47 && c < d);
        }
        i = i + 1;
    }
    i < y.len()
}

// ---------------------------------------------------------------------------
// Packing
// ---------------------------------------------------------------------------

/// No file comes before an earlier one.
pub open spec fn in_path_order(files: Seq<FileView>) -> bool {
    forall|i: int, j: int|
        0 <= i < j < files.len() ==> !path_less((#[trigger] files[j]).path, (#[trigger] files[i]).path)
}

/// Puts files in the order of their paths.
pub fn sort_files(files: Vec<PackedFile>) -> (r: Vec<PackedFile>)
    ensures
        files_view(r@).to_multiset() == files_view(files@).to_multiset(),
        in_path_order(files_view(r@)),
{
    broadcast use vstd::multiset::group_multiset_axioms, vstd::seq_lib::group_to_multiset_ensures;

    let mut rest: Vec<PackedFile> = files;
    let mut sorted: Vec<PackedFile> = Vec::new();
    let ghost all = files_view(files@).to_multiset();
    assert(files_view(sorted@) =~= Seq::<FileView>::empty());
    assert(files_view(sorted@).to_multiset().add(files_view(rest@).to_multiset()) =~= all);
    while rest.len() > 0
        invariant
            files_view(sorted@).to_multiset().add(files_view(rest@).to_multiset()) == all,
            in_path_order(files_view(sorted@)),
        decreases rest@.len(),
    {
        let ghost (sorted0, rest0) = (sorted@, rest@);
        let file: PackedFile = rest.remove(0);
        let mut at: usize = sorted.len();
        while at > 0 && path_before(file.relpath.as_str(), sorted[at - 1].relpath.as_str())
            invariant
                sorted@ == sorted0,
                in_path_order(files_view(sorted@)),
                0 <= at <= sorted@.len(),
                forall|k: int|
                    at <= k < sorted@.len() ==> path_less(file@.path, (#[trigger] sorted@[k])@.path),
            decreases at,
        {
            at = at - 1;
        }
        proof {
            lemma_insert_in_order(sorted0, at as int, file);
            assert(files_view(rest0) =~= files_view(rest@).insert(0, file@));
            vstd::seq_lib::to_multiset_insert(files_view(rest@), 0, file@);
            assert(files_view(sorted0.insert(at as int, file)) =~= files_view(sorted0).insert(
                at as int,
                file@,
            ));
            vstd::seq_lib::to_multiset_insert(files_view(sorted0), at as int, file@);
        }
        sorted.insert(at, file);
        assert(files_view(sorted@).to_multiset().add(files_view(rest@).to_multiset()) =~= all);
    }
    assert(files_view(rest@) =~= Seq::<FileView>::empty());
    assert(files_view(sorted@).to_multiset() =~= all);
    sorted
}

proof fn lemma_insert_in_order(sorted: Seq<PackedFile>, at: int, file: PackedFile)
    requires
        in_path_order(files_view(sorted)),
        0 <= at <= sorted.len(),
        at > 0 ==> !path_less(file@.path, sorted[at - 1]@.path),
        forall|k: int| at <= k < sorted.len() ==> path_less(file@.path, (#[trigger] sorted[k])@.path),
    ensures
        in_path_order(files_view(sorted.insert(at, file))),
{
    let v = files_view(sorted);
    let w = files_view(sorted.insert(at, file));
    assert forall|i: int, j: int| 0 <= i < j < w.len() implies !path_less(
        (#[trigger] w[j]).path,
        (#[trigger] w[i]).path,
    ) by {
        if j < at {
            assert(w[i] == v[i] && w[j] == v[j]);
        } else if j == at {
            assert(w[i] == v[i] && w[j] == file@);
            if i < at - 1 {
                assert(!path_less(v[at - 1].path, v[i].path));
                lemma_path_transitive(v[i].path, v[at - 1].path, file@.path);
            }
        } else if i < at {
            assert(w[i] == v[i] && w[j] == v[j - 1]);
        } else if i == at {
            assert(w[i] == file@ && w[j] == v[j - 1]);
            assert(path_less(file@.path, sorted[j - 1]@.path));
            lemma_path_order(file@.path, v[j - 1].path);
        } else {
            assert(w[i] == v[i - 1] && w[j] == v[j - 1]);
        }
    }
}

/// One file in the archive.
pub open spec fn packed_file(f: FileView) -> Seq<u8> {
    bytes::be_bytes(f.path.len(), 4) + f.path + bytes::be_bytes(f.data.len(), 8) + f.data
}

/// The length of one file in the archive.
pub open spec fn packed_len(f: FileView) -> int {
    12int + f.path.len() + f.data.len()
}

/// The files of an archive, one after the other.
pub open spec fn packed_files(files: Seq<FileView>) -> Seq<u8>
    decreases files.len(),
{
    if files.len() == 0 {
        Seq::empty()
    } else {
        packed_files(files.drop_last()) + packed_file(files.last())
    }
}

/// The archive of some files.
pub open spec fn archive(files: Seq<FileView>) -> Seq<u8> {
    bytes::be_bytes(files.len(), 4) + packed_files(files)
}

/// Why files cannot be packed.
#[derive(Debug, PartialEq, Eq)]
pub enum PackError {
    TooManyFiles,
    RelpathTooLong(u64),
    /// A file is too large: its size and its path.
    FileTooLarge(u64, String),
    ArchiveTooLarge,
}

/// What is wrong with the first file that cannot be packed.
pub enum PackFault {
    RelpathTooLong(u64),
    FileTooLarge(u64, Seq<u8>),
    ArchiveTooLarge,
}

/// Whether an error says what is wrong with a file.
pub open spec fn says(e: PackError, fault: PackFault) -> bool {
    match (e, fault) {
        (PackError::RelpathTooLong(a), PackFault::RelpathTooLong(b)) => a == b,
        (PackError::FileTooLarge(a, p), PackFault::FileTooLarge(b, path)) => a == b && path_bytes(
            p@,
        ) == path,
        (PackError::ArchiveTooLarge, PackFault::ArchiveTooLarge) => true,
        _ => false,
    }
}

/// The first file, in order, that cannot be packed, and why: its path, its data
/// or the archive up to it is too long.
pub open spec fn pack_fault(files: Seq<FileView>) -> Option<PackFault>
    decreases files.len(),
{
    if files.len() == 0 {
        None
    } else {
        match pack_fault(files.drop_last()) {
            Some(e) => Some(e),
            None => file_fault(files.last(), (4 + packed_files(files).len()) as int),
        }
    }
}

/// Why a file cannot be packed that ends the archive at `end`.
pub open spec fn file_fault(f: FileView, end: int) -> Option<PackFault> {
    if f.path.len() > MAX_RELPATH_LEN {
        Some(PackFault::RelpathTooLong(f.path.len() as u64))
    } else if f.data.len() > MAX_FILE_DATA_LEN {
        Some(PackFault::FileTooLarge(f.data.len() as u64, f.path))
    } else if end > MAX_TOTAL_LEN {
        Some(PackFault::ArchiveTooLarge)
    } else {
        None
    }
}

/// An archive that is being written.
pub struct Packer {
    out: Vec<u8>,
    files: Ghost<Seq<FileView>>,
    declared: Ghost<nat>,
}

impl Packer {
    /// The files added so far.
    pub closed spec fn added(self) -> Seq<FileView> {
        self.files@
    }

    /// How many files the archive declares.
    pub closed spec fn declared(self) -> nat {
        self.declared@
    }

    pub closed spec fn well_formed(self) -> bool {
        self.out@ == bytes::be_bytes(self.declared@, 4) + packed_files(self.files@)
    }

    /// Begins an archive of `count` files.
    pub fn new(count: usize) -> (r: Result<Packer, PackError>)
        ensures
            match r {
                Ok(p) => count <= u32::MAX && p.well_formed() && p.declared() == count && p.added()
                    == Seq::<FileView>::empty(),
                Err(e) => count > u32::MAX && e == PackError::TooManyFiles,
            },
    {
        if count > u32::MAX as usize {
            return Err(PackError::TooManyFiles);
        }
        let mut out: Vec<u8> = Vec::new();
        push_u32_be(&mut out, count as u32);
        assert(out@ =~= bytes::be_bytes(count as nat, 4) + packed_files(Seq::empty()));
        Ok(Packer { out, files: Ghost(Seq::empty()), declared: Ghost(count as nat) })
    }

    /// Checks the length of a path, before its file is read.
    pub fn check_relpath(relpath: &str) -> (r: Result<(), PackError>)
        ensures
            match r {
                Ok(_) => path_bytes(relpath@).len() <= MAX_RELPATH_LEN,
                Err(e) => path_bytes(relpath@).len() > MAX_RELPATH_LEN && e
                    == PackError::RelpathTooLong(path_bytes(relpath@).len() as u64),
            },
    {
        let n: usize = relpath.as_bytes().len();
        if n > MAX_RELPATH_LEN as usize {
            Err(PackError::RelpathTooLong(n as u64))
        } else {
            Ok(())
        }
    }

    /// Adds a file to the archive. After an error the archive is not usable.
    pub fn add_file(&mut self, relpath: &str, data: &[u8]) -> (r: Result<(), PackError>)
        requires
            old(self).well_formed(),
        ensures
            final(self).declared() == old(self).declared(),
            ({
                let f = FileView { path: path_bytes(relpath@), data: data@ };
                let end = 4 + packed_files(old(self).added().push(f)).len();
                match r {
                    Ok(_) => {
                        &&& file_fault(f, end as int) is None
                        &&& final(self).well_formed()
                        &&& final(self).added() == old(self).added().push(f)
                    },
                    Err(e) => file_fault(f, end as int) matches Some(fault) && says(e, fault),
                }
            }),
    {
        let ghost f = FileView { path: path_bytes(relpath@), data: data@ };
        let ghost files = self.files@;
        Packer::check_relpath(relpath)?;
        if data.len() as u64 > MAX_FILE_DATA_LEN {
            return Err(PackError::FileTooLarge(data.len() as u64, relpath.to_owned()));
        }
        let path: &[u8] = relpath.as_bytes();
        let ghost before = self.out@;
        push_u32_be(&mut self.out, path.len() as u32);
        self.out.extend_from_slice(path);
        push_u64_be(&mut self.out, data.len() as u64);
        self.out.extend_from_slice(data);
        self.files = Ghost(files.push(f));
        proof {
            assert(files.push(f).drop_last() =~= files);
            assert(self.out@ =~= before + packed_file(f));
            assert(self.out@ =~= bytes::be_bytes(self.declared@, 4) + packed_files(self.files@));
            bytes::lemma_be_bytes_len(self.declared@, 4);
        }
        if self.out.len() as u64 > MAX_TOTAL_LEN {
            return Err(PackError::ArchiveTooLarge);
        }
        Ok(())
    }

    /// The archive.
    pub fn finish(self) -> (out: Vec<u8>)
        requires
            self.well_formed(),
        ensures
            out@ == bytes::be_bytes(self.declared(), 4) + packed_files(self.added()),
    {
        self.out
    }
}

/// The files at some paths, before they are read.
pub open spec fn unread(paths: Seq<String>) -> Seq<FileView> {
    Seq::new(
        paths.len(),
        |i: int| FileView { path: path_bytes(paths[i]@), data: Seq::empty() },
    )
}

/// Whether files are the first ones of a list, now that they were read.
pub open spec fn read_of(list: Seq<FileView>, files: Seq<FileView>) -> bool {
    &&& files.len() <= list.len()
    &&& forall|i: int| 0 <= i < files.len() ==> (#[trigger] files[i]).path == list[i].path
}

/// A directory that is being packed, file by file: there is a file that is to be read next.
pub struct PackRun {
    list: Vec<PackedFile>,
    next: usize,
    packer: Packer,
}

/// How packing goes on.
pub enum PackStep {
    /// Read the next file.
    Read(PackRun),
    /// This is the archive.
    Done(Vec<u8>),
    /// The files cannot be packed.
    Fail(PackError),
}

/// Whether packing goes on with a step, once so many files of a list were added: a path that
/// is too long is refused before its file is read.
pub open spec fn goes_on(list: Seq<FileView>, added: Seq<FileView>, step: PackStep) -> bool {
    if added.len() >= list.len() {
        &&& step matches PackStep::Done(out) && out@ == archive(added)
        &&& added.len() == list.len() <= u32::MAX
        &&& in_path_order(added)
        &&& read_of(list, added)
        &&& pack_fault(added) is None
    } else if list[added.len() as int].path.len() > MAX_RELPATH_LEN {
        step == PackStep::Fail(
            PackError::RelpathTooLong(list[added.len() as int].path.len() as u64),
        )
    } else {
        step matches PackStep::Read(run) && run.list() == list && run.added() == added
    }
}

/// Whether packing a directory with files at these paths begins with a step: the files are
/// taken in the order of their paths.
pub open spec fn begins(paths: Seq<String>, step: PackStep) -> bool {
    if paths.len() > u32::MAX {
        step == PackStep::Fail(PackError::TooManyFiles)
    } else {
        exists|list: Seq<FileView>|
            {
                &&& #[trigger] list.to_multiset() == unread(paths).to_multiset()
                &&& in_path_order(list)
                &&& goes_on(list, Seq::empty(), step)
            }
    }
}

/// The file that is to be read next, with the data that it has.
pub open spec fn next_file(run: PackRun, data: Seq<u8>) -> FileView {
    FileView { path: run.list()[run.added().len() as int].path, data }
}

/// Whether packing goes on with a step once the next file was read.
pub open spec fn adds(run: PackRun, data: Seq<u8>, step: PackStep) -> bool {
    let f = next_file(run, data);
    let added = run.added().push(f);
    match file_fault(f, (4 + packed_files(added).len()) as int) {
        Some(fault) => step matches PackStep::Fail(e) && says(e, fault),
        None => goes_on(run.list(), added, step),
    }
}

fn pack_on(list: Vec<PackedFile>, next: usize, packer: Packer) -> (step: PackStep)
    requires
        next == packer.added().len() <= list@.len() <= u32::MAX,
        packer.well_formed(),
        packer.declared() == list@.len(),
        in_path_order(files_view(list@)),
        read_of(files_view(list@), packer.added()),
        pack_fault(packer.added()) is None,
    ensures
        goes_on(files_view(list@), packer.added(), step),
{
    let ghost all = files_view(list@);
    let ghost added = packer.added();
    if next >= list.len() {
        assert forall|i: int, j: int| 0 <= i < j < added.len() implies !path_less(
            (#[trigger] added[j]).path,
            (#[trigger] added[i]).path,
        ) by {
            assert(all[j].path == added[j].path && all[i].path == added[i].path);
        }
        return PackStep::Done(packer.finish());
    }
    assert(all[next as int] == list@[next as int]@);
    match Packer::check_relpath(list[next].relpath.as_str()) {
        Err(e) => PackStep::Fail(e),
        Ok(_) => PackStep::Read(PackRun { list, next, packer }),
    }
}

/// Begins to pack a directory with files at these paths.
pub fn begin_pack(paths: Vec<String>) -> (step: PackStep)
    ensures
        begins(paths@, step),
{
    let ghost all = unread(paths@);
    let mut files: Vec<PackedFile> = Vec::new();
    let n: usize = paths.len();
    if n > u32::MAX as usize {
        return PackStep::Fail(PackError::TooManyFiles);
    }
    let mut i: usize = 0;
    while i < n
        invariant
            n == paths@.len(),
            all == unread(paths@),
            files@.len() == i,
            files_view(files@) == all.take(i as int),
            0 <= i <= n,
        decreases n - i,
    {
        let ghost before = files@;
        let relpath: String = paths[i].as_str().to_owned();
        let file: PackedFile = PackedFile { relpath, data: Vec::new() };
        assert(file@ =~= all[i as int]);
        files.push(file);
        assert(files_view(files@) =~= files_view(before).push(file@));
        assert(all.take(i + 1) =~= all.take(i as int).push(all[i as int]));
        i = i + 1;
    }
    assert(all.take(n as int) =~= all);
    let list: Vec<PackedFile> = sort_files(files);
    let ghost sorted = files_view(list@);
    proof {
        broadcast use vstd::seq_lib::group_to_multiset_ensures;

        assert(sorted.to_multiset().len() == list@.len());
        assert(all.to_multiset().len() == n);
    }
    match Packer::new(list.len()) {
        Err(e) => PackStep::Fail(e),
        Ok(packer) => {
            let step: PackStep = pack_on(list, 0, packer);
            assert(sorted.to_multiset() == unread(paths@).to_multiset());
            assert(goes_on(sorted, Seq::empty(), step));
            step
        },
    }
}

impl PackRun {
    /// The files of the directory in the order of their paths, before they are read.
    pub closed spec fn list(self) -> Seq<FileView> {
        files_view(self.list@)
    }

    /// The files that were read.
    pub closed spec fn added(self) -> Seq<FileView> {
        self.packer.added()
    }

    #[verifier::type_invariant]
    closed spec fn well_formed(self) -> bool {
        &&& self.next == self.packer.added().len() < self.list@.len() <= u32::MAX
        &&& self.packer.well_formed()
        &&& self.packer.declared() == self.list@.len()
        &&& in_path_order(files_view(self.list@))
        &&& read_of(files_view(self.list@), self.packer.added())
        &&& pack_fault(self.packer.added()) is None
    }

    /// The path of the file that is to be read next.
    pub fn next_path(&self) -> (r: &str)
        ensures
            path_bytes(r@) == self.list()[self.added().len() as int].path,
    {
        proof {
            use_type_invariant(self);
        }
        assert(files_view(self.list@)[self.next as int] == self.list@[self.next as int]@);
        self.list[self.next].relpath.as_str()
    }

    /// Adds the file that was to be read next.
    pub fn add_data(self, data: &[u8]) -> (step: PackStep)
        ensures
            adds(self, data@, step),
    {
        proof {
            use_type_invariant(&self);
        }
        let ghost f = next_file(self, data@);
        let ghost before = self.added();
        let ghost all = self.list();
        let PackRun { list, next, mut packer } = self;
        assert(all[next as int] == list@[next as int]@);
        assert(before.push(f).drop_last() =~= before);
        match packer.add_file(list[next].relpath.as_str(), data) {
            Err(e) => PackStep::Fail(e),
            Ok(_) => pack_on(list, next + 1, packer),
        }
    }
}

/// Packing file by file finds the fault that packing at once finds: each file is judged when
/// it is reached, by itself and by what was packed before it, and the first one that cannot
/// be packed decides. Of one whose path is too long the data does not matter.
pub proof fn law_faults_file_by_file(files: Seq<FileView>, n: int)
    requires
        0 <= n < files.len(),
        pack_fault(files.take(n)) is None,
    ensures
        ({
            let fault = file_fault(files[n], (4 + packed_files(files.take(n + 1)).len()) as int);
            &&& pack_fault(files.take(n + 1)) == fault
            &&& fault is Some ==> pack_fault(files) == fault
            &&& files[n].path.len() > MAX_RELPATH_LEN ==> fault == Some(
                PackFault::RelpathTooLong(files[n].path.len() as u64),
            )
        }),
{
    assert(files.take(n + 1).drop_last() =~= files.take(n));
    if pack_fault(files.take(n + 1)) is Some {
        lemma_fault_stays(files, n + 1);
    }
}

proof fn lemma_packed_grows(files: Seq<FileView>)
    requires
        files.len() > 0,
    ensures
        packed_files(files).len() == packed_files(files.drop_last()).len() + 12
            + files.last().path.len() + files.last().data.len(),
{
    bytes::lemma_be_bytes_len(files.last().path.len(), 4);
    bytes::lemma_be_bytes_len(files.last().data.len(), 8);
}

/// Files are packed whenever they can be: exactly if every path has at most 1024 bytes, every
/// file at most a gibibyte and the archive at most eight.
pub proof fn law_packing_succeeds(files: Seq<FileView>)
    ensures
        pack_fault(files) is None <==> archive(files).len() <= 0x2_0000_0000 && forall|i: int|
            0 <= i < files.len() ==> (#[trigger] files[i]).path.len() <= 1024
                && files[i].data.len() <= 0x4000_0000,
    decreases files.len(),
{
    bytes::lemma_be_bytes_len(files.len(), 4);
    if files.len() > 0 {
        let front = files.drop_last();
        bytes::lemma_be_bytes_len(front.len(), 4);
        law_packing_succeeds(front);
        lemma_packed_grows(files);
        assert(files[files.len() - 1] == files.last());
        assert forall|i: int| 0 <= i < front.len() implies front[i] == #[trigger] files[i] by {}
        if pack_fault(files) is None {
            assert forall|i: int| 0 <= i < files.len() implies (#[trigger] files[i]).path.len()
                <= 1024 && files[i].data.len() <= 0x4000_0000 by {
                if i < front.len() {
                    assert(front[i] == files[i]);
                }
            }
        } else if archive(files).len() <= 0x2_0000_0000 && forall|i: int|
            0 <= i < files.len() ==> (#[trigger] files[i]).path.len() <= 1024
                && files[i].data.len() <= 0x4000_0000 {
            assert forall|i: int| 0 <= i < front.len() implies (#[trigger] front[i]).path.len()
                <= 1024 && front[i].data.len() <= 0x4000_0000 by {
                assert(front[i] == files[i]);
            }
        }
    }
}

/// An error says the fault that there is, with the size and the path that it has.
pub proof fn law_errors_say_the_fault(e: PackError, fault: PackFault)
    requires
        says(e, fault),
    ensures
        e matches PackError::RelpathTooLong(n) ==> fault == PackFault::RelpathTooLong(n),
        e matches PackError::FileTooLarge(n, p) ==> fault == PackFault::FileTooLarge(
            n,
            path_bytes(p@),
        ),
        e is ArchiveTooLarge <==> fault is ArchiveTooLarge,
        !(e is TooManyFiles),
{
}

/// What is said to be wrong with files is wrong with them: there is a file with so long a
/// path, or one with so much data, or the archive is too large.
pub proof fn law_faults_are_true(files: Seq<FileView>)
    ensures
        match pack_fault(files) {
            None => true,
            Some(PackFault::RelpathTooLong(n)) => exists|i: int|
                0 <= i < files.len() && (#[trigger] files[i]).path.len() as u64 == n
                    && files[i].path.len() > 1024,
            Some(PackFault::FileTooLarge(n, path)) => exists|i: int|
                0 <= i < files.len() && (#[trigger] files[i]).data.len() as u64 == n
                    && files[i].path == path && files[i].data.len() > 0x4000_0000,
            Some(PackFault::ArchiveTooLarge) => archive(files).len() > 0x2_0000_0000,
        },
    decreases files.len(),
{
    bytes::lemma_be_bytes_len(files.len(), 4);
    if files.len() > 0 {
        let front = files.drop_last();
        bytes::lemma_be_bytes_len(front.len(), 4);
        law_faults_are_true(front);
        lemma_packed_grows(files);
        assert(files[files.len() - 1] == files.last());
        match pack_fault(front) {
            Some(PackFault::RelpathTooLong(n)) => {
                let i = choose|i: int|
                    0 <= i < front.len() && (#[trigger] front[i]).path.len() as u64 == n
                        && front[i].path.len() > 1024;
                assert(files[i] == front[i]);
            },
            Some(PackFault::FileTooLarge(n, path)) => {
                let i = choose|i: int|
                    0 <= i < front.len() && (#[trigger] front[i]).data.len() as u64 == n
                        && front[i].path == path && front[i].data.len() > 0x4000_0000;
                assert(files[i] == front[i]);
            },
            _ => {},
        }
    }
}

/// Packing file by file reads each file whose path is short enough, goes on as long as what
/// was read can be packed, and ends with the archive of all that was read.
pub proof fn law_files_are_read_and_packed(run: PackRun, data: Seq<u8>, step: PackStep)
    requires
        adds(run, data, step),
        run.added().len() < run.list().len(),
        pack_fault(run.added()) is None,
    ensures
        ({
            let files = run.added().push(next_file(run, data));
            let n = files.len() as int;
            &&& step matches PackStep::Fail(e) ==> pack_fault(files) is Some || (n
                < run.list().len() && run.list()[n].path.len() > 1024)
            &&& step matches PackStep::Done(out) ==> n == run.list().len() && out@ == archive(files)
            &&& pack_fault(files) is None && n < run.list().len() && run.list()[n].path.len() <= 1024
                ==> (step matches PackStep::Read(next) && next.list() == run.list()
                && next.added() == files)
            &&& pack_fault(files) is None && n == run.list().len() ==> step is Done
        }),
{
    let files = run.added().push(next_file(run, data));
    assert(files.drop_last() =~= run.added());
}

/// Packing a directory begins with the file that comes first, and fails at once only if there
/// are more files than four bytes can count or the first path is too long.
pub proof fn law_packing_begins(paths: Seq<String>, step: PackStep)
    requires
        begins(paths, step),
    ensures
        step is Fail ==> paths.len() > u32::MAX || exists|i: int|
            0 <= i < paths.len() && path_bytes((#[trigger] paths[i])@).len() > 1024,
        step matches PackStep::Done(out) ==> paths.len() == 0 && out@ == archive(Seq::empty()),
        step matches PackStep::Read(run) ==> run.list().len() == paths.len() && run.added().len()
            == 0 && run.list().to_multiset() == unread(paths).to_multiset() && in_path_order(
            run.list(),
        ),
        paths.len() > u32::MAX ==> step == PackStep::Fail(PackError::TooManyFiles),
{
    broadcast use vstd::multiset::group_multiset_axioms, vstd::seq_lib::group_to_multiset_ensures;

    if paths.len() <= u32::MAX {
        let list = choose|list: Seq<FileView>|
            {
                &&& #[trigger] list.to_multiset() == unread(paths).to_multiset()
                &&& in_path_order(list)
                &&& goes_on(list, Seq::empty(), step)
            };
        let all = unread(paths);
        assert(list.len() == list.to_multiset().len());
        assert(all.len() == all.to_multiset().len());
        if step is Fail {
            assert(list.contains(list[0]));
            assert(all.to_multiset().count(list[0]) > 0);
            assert(all.contains(list[0]));
            let i = choose|i: int| 0 <= i < all.len() && all[i] == list[0];
            assert(path_bytes(paths[i]@) == all[i].path);
        }
    }
}

/// Every path of a directory is on the list of files to read, and the file that is read next
/// is the one at the path that is next on the list, with the data that was read.
pub proof fn law_every_path_is_listed(
    paths: Seq<String>,
    list: Seq<FileView>,
    i: int,
    run: PackRun,
    data: Seq<u8>,
)
    requires
        list.to_multiset() == unread(paths).to_multiset(),
        0 <= i < paths.len(),
    ensures
        list.len() == paths.len(),
        exists|j: int|
            0 <= j < list.len() && (#[trigger] list[j]).path == path_bytes(paths[i]@)
                && list[j].data.len() == 0,
        next_file(run, data).path == run.list()[run.added().len() as int].path,
        next_file(run, data).data == data,
{
    broadcast use vstd::multiset::group_multiset_axioms, vstd::seq_lib::group_to_multiset_ensures;

    let all = unread(paths);
    assert(list.len() == list.to_multiset().len());
    assert(all.len() == all.to_multiset().len());
    assert(all.contains(all[i]));
    assert(list.to_multiset().count(all[i]) > 0);
    assert(list.contains(all[i]));
    let j = choose|j: int| 0 <= j < list.len() && list[j] == all[i];
    assert(list[j].path == path_bytes(paths[i]@));
}

/// Packs files, in the order of their paths.
pub fn pack_dir(files: Vec<PackedFile>) -> (r: Result<Vec<u8>, PackError>)
    ensures
        exists|sorted: Seq<FileView>|
            {
                &&& #[trigger] sorted.to_multiset() == files_view(files@).to_multiset()
                &&& in_path_order(sorted)
                &&& match r {
                    Ok(out) => {
                        &&& out@ == archive(sorted)
                        &&& files@.len() <= u32::MAX
                        &&& pack_fault(sorted) is None
                    },
                    Err(PackError::TooManyFiles) => files@.len() > u32::MAX,
                    Err(e) => files@.len() <= u32::MAX && (pack_fault(sorted) matches Some(fault)
                        && says(e, fault)),
                }
            },
{
    let sorted: Vec<PackedFile> = sort_files(files);
    proof {
        broadcast use vstd::seq_lib::group_to_multiset_ensures;

        assert(files_view(sorted@).to_multiset().len() == sorted@.len());
        assert(files_view(files@).to_multiset().len() == files@.len());
    }
    let ghost view = files_view(sorted@);
    assert(view.to_multiset() == files_view(files@).to_multiset());
    let mut packer: Packer = Packer::new(sorted.len())?;
    let mut i: usize = 0;
    assert(view.take(0) =~= Seq::<FileView>::empty());
    while i < sorted.len()
        invariant
            view.to_multiset() == files_view(files@).to_multiset(),
            in_path_order(view),
            files@.len() <= u32::MAX,
            view == files_view(sorted@),
            0 <= i <= sorted@.len(),
            packer.well_formed(),
            packer.declared() == sorted@.len(),
            packer.added() == view.take(i as int),
            pack_fault(view.take(i as int)) is None,
        decreases sorted@.len() - i,
    {
        let ghost f = view[i as int];
        assert(view.take(i + 1) =~= view.take(i as int).push(f));
        assert(view.take(i + 1).drop_last() =~= view.take(i as int));
        match packer.add_file(sorted[i].relpath.as_str(), sorted[i].data.as_slice()) {
            Ok(_) => {},
            Err(e) => {
                proof {
                    assert(pack_fault(view.take(i + 1)) is Some);
                    lemma_fault_stays(view, i + 1);
                }
                return Err(e);
            },
        }
        i = i + 1;
    }
    assert(view.take(sorted@.len() as int) =~= view);
    Ok(packer.finish())
}

proof fn lemma_fault_stays(files: Seq<FileView>, n: int)
    requires
        0 <= n <= files.len(),
        pack_fault(files.take(n)) is Some,
    ensures
        pack_fault(files) == pack_fault(files.take(n)),
    decreases files.len() - n,
{
    if n < files.len() {
        assert(files.take(n + 1).drop_last() =~= files.take(n));
        lemma_fault_stays(files, n + 1);
    } else {
        assert(files.take(n) =~= files);
    }
}

// ---------------------------------------------------------------------------
// Unpacking
// ---------------------------------------------------------------------------

/// Why an archive is malformed.
#[derive(Debug, PartialEq, Eq)]
pub enum UnpackError {
    ArchiveTooLarge,
    Truncated,
    RelpathLength(u32),
    RelpathNotUtf8,
    UnsafeRelpath(String),
    DataTooLarge(u64),
    TrailingBytes,
}

/// How an archive ends.
pub enum UnpackEnd {
    Done,
    ArchiveTooLarge,
    Truncated,
    RelpathLength(u32),
    RelpathNotUtf8,
    UnsafeRelpath(Seq<u8>),
    DataTooLarge(u64),
    TrailingBytes,
}

/// The first file that some bytes begin with, or what is wrong with it.
pub open spec fn first_file(b: Seq<u8>) -> Result<FileView, UnpackEnd> {
    let path_len = bytes::be_value(b.take(4)) as int;
    let path = b.subrange(4, 4 + path_len);
    let data_len = bytes::be_value(b.subrange(4 + path_len, 12 + path_len)) as int;
    if b.len() < 4 {
        Err(UnpackEnd::Truncated)
    } else if path_len == 0 || path_len > MAX_RELPATH_LEN {
        Err(UnpackEnd::RelpathLength(path_len as u32))
    } else if b.len() < 4 + path_len {
        Err(UnpackEnd::Truncated)
    } else if !vstd::utf8::valid_utf8(path) {
        Err(UnpackEnd::RelpathNotUtf8)
    } else if !safe_path(path) {
        Err(UnpackEnd::UnsafeRelpath(path))
    } else if b.len() < 12 + path_len {
        Err(UnpackEnd::Truncated)
    } else if data_len > MAX_FILE_DATA_LEN {
        Err(UnpackEnd::DataTooLarge(data_len as u64))
    } else if b.len() < 12 + path_len + data_len {
        Err(UnpackEnd::Truncated)
    } else {
        Ok(FileView { path, data: b.subrange(12 + path_len, 12 + path_len + data_len) })
    }
}

/// The next `n` files that some bytes hold, up to the first malformed one, and
/// how they end.
pub open spec fn next_files(b: Seq<u8>, n: nat) -> (Seq<FileView>, UnpackEnd)
    decreases n,
{
    if n == 0 {
        (
            Seq::empty(),
            if b.len() == 0 {
                UnpackEnd::Done
            } else {
                UnpackEnd::TrailingBytes
            },
        )
    } else {
        match first_file(b) {
            Err(end) => (Seq::empty(), end),
            Ok(f) => {
                let (rest, end) = next_files(b.skip(packed_len(f)), (n - 1) as nat);
                (seq![f] + rest, end)
            },
        }
    }
}

/// The files of an archive, up to the first malformed one, and how it ends. Of one that is
/// too large no file is looked at.
pub open spec fn unpacked(b: Seq<u8>) -> (Seq<FileView>, UnpackEnd) {
    if b.len() > MAX_TOTAL_LEN {
        (Seq::empty(), UnpackEnd::ArchiveTooLarge)
    } else if b.len() < 4 {
        (Seq::empty(), UnpackEnd::Truncated)
    } else {
        next_files(b.skip(4), bytes::be_value(b.take(4)))
    }
}

/// What an archive holds: its files up to the first malformed one, and whether
/// there is one. The files are to be written in order; a malformed archive
/// leaves those before the fault.
#[derive(Debug)]
pub struct Unpacked {
    pub files: Vec<PackedFile>,
    pub end: Result<(), UnpackError>,
}

pub open spec fn ends_as(r: Result<(), UnpackError>, end: UnpackEnd) -> bool {
    match (r, end) {
        (Ok(_), UnpackEnd::Done) => true,
        (Err(UnpackError::ArchiveTooLarge), UnpackEnd::ArchiveTooLarge) => true,
        (Err(UnpackError::Truncated), UnpackEnd::Truncated) => true,
        (Err(UnpackError::RelpathLength(a)), UnpackEnd::RelpathLength(b)) => a == b,
        (Err(UnpackError::RelpathNotUtf8), UnpackEnd::RelpathNotUtf8) => true,
        (Err(UnpackError::UnsafeRelpath(p)), UnpackEnd::UnsafeRelpath(path)) => path_bytes(p@)
            == path,
        (Err(UnpackError::DataTooLarge(a)), UnpackEnd::DataTooLarge(b)) => a == b,
        (Err(UnpackError::TrailingBytes), UnpackEnd::TrailingBytes) => true,
        _ => false,
    }
}

/// An archive is unpacked without an error exactly if it is whole, and an error tells how it
/// ends.
pub proof fn law_errors_tell_the_end(r: Result<(), UnpackError>, end: UnpackEnd)
    requires
        ends_as(r, end),
    ensures
        r is Ok <==> end is Done,
        r matches Err(UnpackError::RelpathLength(n)) ==> end == UnpackEnd::RelpathLength(n),
        r matches Err(UnpackError::UnsafeRelpath(p)) ==> end == UnpackEnd::UnsafeRelpath(
            path_bytes(p@),
        ),
        r matches Err(UnpackError::DataTooLarge(n)) ==> end == UnpackEnd::DataTooLarge(n),
        r matches Err(UnpackError::Truncated) <==> end is Truncated,
        r matches Err(UnpackError::RelpathNotUtf8) <==> end is RelpathNotUtf8,
        r matches Err(UnpackError::TrailingBytes) <==> end is TrailingBytes,
        r matches Err(UnpackError::ArchiveTooLarge) <==> end is ArchiveTooLarge,
{
}

fn sub_slice(b: &[u8], from: usize, to: usize) -> (r: Vec<u8>)
    requires
        from <= to <= b@.len(),
    ensures
        r@ == b@.subrange(from as int, to as int),
{
    let part: &[u8] = vstd::slice::slice_subrange(b, from, to);
    let mut r: Vec<u8> = Vec::new();
    r.extend_from_slice(part);
    assert(r@ =~= b@.subrange(from as int, to as int));
    r
}

/// Reads the file that begins at `at`.
fn read_file(buf: &[u8], at: usize) -> (r: Result<PackedFile, UnpackError>)
    requires
        at <= buf@.len(),
    ensures
        match r {
            Ok(file) => first_file(buf@.skip(at as int)) == Ok::<FileView, UnpackEnd>(file@),
            Err(e) => first_file(buf@.skip(at as int)) matches Err(end) && ends_as(
                Err::<(), UnpackError>(e),
                end,
            ),
        },
{
    let ghost b = buf@.skip(at as int);
    let room: usize = buf.len() - at;
    if room < 4 {
        return Err(UnpackError::Truncated);
    }
    let path_len: u32 = read_u32_be(buf, at);
    assert(buf@.subrange(at as int, at + 4) =~= b.take(4));
    if path_len == 0 || path_len > MAX_RELPATH_LEN {
        return Err(UnpackError::RelpathLength(path_len));
    }
    let n: usize = path_len as usize;
    if room - 4 < n {
        return Err(UnpackError::Truncated);
    }
    let path: Vec<u8> = sub_slice(buf, at + 4, at + 4 + n);
    assert(path@ =~= b.subrange(4, 4 + n));
    let relpath: String = match utf8_text(path.as_slice()) {
        None => {
            return Err(UnpackError::RelpathNotUtf8);
        },
        Some(s) => s,
    };
    if !is_safe_relpath(relpath.as_str()) {
        return Err(UnpackError::UnsafeRelpath(relpath));
    }
    if room - 4 - n < 8 {
        return Err(UnpackError::Truncated);
    }
    let data_len: u64 = read_u64_be(buf, at + 4 + n);
    assert(buf@.subrange(at + 4 + n, at + 12 + n) =~= b.subrange(4 + n, 12 + n));
    if data_len > MAX_FILE_DATA_LEN {
        return Err(UnpackError::DataTooLarge(data_len));
    }
    let m: usize = data_len as usize;
    if room - 12 - n < m {
        return Err(UnpackError::Truncated);
    }
    let data: Vec<u8> = sub_slice(buf, at + 12 + n, at + 12 + n + m);
    assert(data@ =~= b.subrange(12 + n, 12 + n + m));
    Ok(PackedFile { relpath, data })
}

/// Unpacks an archive.
pub fn unpack_dir(buf: &[u8]) -> (r: Unpacked)
    ensures
        files_view(r.files@) == unpacked(buf@).0,
        ends_as(r.end, unpacked(buf@).1),
{
    let mut files: Vec<PackedFile> = Vec::new();
    if buf.len() as u64 > MAX_TOTAL_LEN {
        assert(files_view(files@) =~= Seq::<FileView>::empty());
        return Unpacked { files, end: Err(UnpackError::ArchiveTooLarge) };
    }
    if buf.len() < 4 {
        assert(files_view(files@) =~= Seq::<FileView>::empty());
        return Unpacked { files, end: Err(UnpackError::Truncated) };
    }
    assert(buf@.subrange(0, 4) =~= buf@.take(4));
    let count: u32 = read_u32_be(buf, 0);
    let mut at: usize = 4;
    let mut left: u32 = count;
    let ghost whole = unpacked(buf@);
    assert(files_view(files@) + next_files(buf@.skip(4), count as nat).0 =~= whole.0);
    while left > 0
        invariant
            4 <= at <= buf@.len(),
            whole == unpacked(buf@),
            files_view(files@) + next_files(buf@.skip(at as int), left as nat).0 == whole.0,
            next_files(buf@.skip(at as int), left as nat).1 == whole.1,
        decreases left,
    {
        let ghost b = buf@.skip(at as int);
        match read_file(buf, at) {
            Err(e) => {
                assert(files_view(files@) =~= whole.0);
                return Unpacked { files, end: Err(e) };
            },
            Ok(file) => {
                let ghost before = files_view(files@);
                let ghost f = file@;
                let size: usize = 12 + file.relpath.as_str().as_bytes().len() + file.data.len();
                assert(size == packed_len(f) && size <= b.len());
                assert(buf.len() <= usize::MAX);
                files.push(file);
                at = at + size;
                left = left - 1;
                proof {
                    assert(b.skip(size as int) =~= buf@.skip(at as int));
                    let rest = next_files(buf@.skip(at as int), left as nat).0;
                    assert(before + (seq![f] + rest) =~= files_view(files@) + rest);
                }
            },
        }
    }
    assert(files_view(files@) =~= whole.0);
    if at < buf.len() {
        Unpacked { files, end: Err(UnpackError::TrailingBytes) }
    } else {
        Unpacked { files, end: Ok(()) }
    }
}

/// A file that can be unpacked.
pub open spec fn unpackable(f: FileView) -> bool {
    &&& 0 < f.path.len() <= MAX_RELPATH_LEN
    &&& f.data.len() <= MAX_FILE_DATA_LEN
    &&& vstd::utf8::valid_utf8(f.path)
    &&& safe_path(f.path)
}

proof fn lemma_packed_first(f: FileView, rest: Seq<FileView>)
    ensures
        packed_files(seq![f] + rest) == packed_file(f) + packed_files(rest),
    decreases rest.len(),
{
    let all = seq![f] + rest;
    if rest.len() == 0 {
        assert(all.drop_last() =~= Seq::<FileView>::empty());
        assert(all.last() == f);
        assert(packed_files(all.drop_last()) =~= Seq::<u8>::empty());
        assert(packed_files(all) =~= packed_file(f));
        assert(packed_file(f) + packed_files(rest) =~= packed_file(f));
    } else {
        lemma_packed_first(f, rest.drop_last());
        assert(all.drop_last() =~= seq![f] + rest.drop_last());
        assert(packed_files(all) =~= packed_file(f) + packed_files(rest));
    }
}

proof fn lemma_first_file(f: FileView, tail: Seq<u8>)
    requires
        unpackable(f),
    ensures
        first_file(packed_file(f) + tail) == Ok::<FileView, UnpackEnd>(f),
        (packed_file(f) + tail).skip(packed_len(f)) == tail,
{
    let b = packed_file(f) + tail;
    let (n, m) = (f.path.len() as int, f.data.len() as int);
    bytes::lemma_powers();
    bytes::lemma_be_bytes_len(f.path.len(), 4);
    bytes::lemma_be_bytes_len(f.data.len(), 8);
    bytes::law_be_value_of_bytes(f.path.len(), 4);
    bytes::law_be_value_of_bytes(f.data.len(), 8);
    assert(b.take(4) =~= bytes::be_bytes(f.path.len(), 4));
    assert(b.subrange(4, 4 + n) =~= f.path);
    assert(b.subrange(4 + n, 12 + n) =~= bytes::be_bytes(f.data.len(), 8));
    assert(b.subrange(12 + n, 12 + n + m) =~= f.data);
    assert(b.skip(12 + n + m) =~= tail);
}

proof fn lemma_next_files(files: Seq<FileView>)
    requires
        forall|i: int| 0 <= i < files.len() ==> unpackable(#[trigger] files[i]),
    ensures
        next_files(packed_files(files), files.len()) == (files, UnpackEnd::Done),
    decreases files.len(),
{
    if files.len() == 0 {
        assert(next_files(packed_files(files), 0).0 =~= files);
    } else {
        let (f, rest) = (files[0], files.drop_first());
        assert(files =~= seq![f] + rest);
        lemma_packed_first(f, rest);
        lemma_first_file(f, packed_files(rest));
        assert forall|i: int| 0 <= i < rest.len() implies unpackable(#[trigger] rest[i]) by {
            assert(rest[i] == files[i + 1]);
        }
        lemma_next_files(rest);
    }
}

/// Unpacking an archive gives back the files that were packed.
pub proof fn law_unpack_archive(files: Seq<FileView>)
    requires
        files.len() <= u32::MAX,
        archive(files).len() <= MAX_TOTAL_LEN,
        forall|i: int| 0 <= i < files.len() ==> unpackable(#[trigger] files[i]),
    ensures
        unpacked(archive(files)) == (files, UnpackEnd::Done),
{
    let b = archive(files);
    bytes::lemma_powers();
    bytes::lemma_be_bytes_len(files.len(), 4);
    bytes::law_be_value_of_bytes(files.len(), 4);
    assert(b.take(4) =~= bytes::be_bytes(files.len(), 4));
    assert(b.skip(4) =~= packed_files(files));
    lemma_next_files(files);
}

/// An archive with bytes after its last file is malformed.
pub proof fn law_trailing_bytes(files: Seq<FileView>, tail: Seq<u8>)
    requires
        files.len() <= u32::MAX,
        forall|i: int| 0 <= i < files.len() ==> unpackable(#[trigger] files[i]),
        tail.len() > 0,
        archive(files).len() + tail.len() <= MAX_TOTAL_LEN,
    ensures
        unpacked(archive(files) + tail).1 == UnpackEnd::TrailingBytes,
{
    let b = archive(files) + tail;
    bytes::lemma_powers();
    bytes::lemma_be_bytes_len(files.len(), 4);
    bytes::law_be_value_of_bytes(files.len(), 4);
    assert(b.take(4) =~= bytes::be_bytes(files.len(), 4));
    assert(b.skip(4) =~= packed_files(files) + tail);
    lemma_next_files_tail(files, tail);
}

proof fn lemma_next_files_tail(files: Seq<FileView>, tail: Seq<u8>)
    requires
        forall|i: int| 0 <= i < files.len() ==> unpackable(#[trigger] files[i]),
        tail.len() > 0,
    ensures
        next_files(packed_files(files) + tail, files.len()).1 == UnpackEnd::TrailingBytes,
    decreases files.len(),
{
    if files.len() > 0 {
        let (f, rest) = (files[0], files.drop_first());
        assert(files =~= seq![f] + rest);
        lemma_packed_first(f, rest);
        assert(packed_files(files) + tail =~= packed_file(f) + (packed_files(rest) + tail));
        lemma_first_file(f, packed_files(rest) + tail);
        assert forall|i: int| 0 <= i < rest.len() implies unpackable(#[trigger] rest[i]) by {
            assert(rest[i] == files[i + 1]);
        }
        lemma_next_files_tail(rest, tail);
    }
}

proof fn lemma_bad_first(f: FileView, tail: Seq<u8>)
    requires
        f.path.len() <= u32::MAX,
        f.data.len() <= u64::MAX,
        !unpackable(f),
    ensures
        first_file(packed_file(f) + tail) is Err,
{
    let b = packed_file(f) + tail;
    let n = f.path.len() as int;
    bytes::lemma_powers();
    bytes::lemma_be_bytes_len(f.path.len(), 4);
    bytes::lemma_be_bytes_len(f.data.len(), 8);
    bytes::law_be_value_of_bytes(f.path.len(), 4);
    bytes::law_be_value_of_bytes(f.data.len(), 8);
    assert(b.take(4) =~= bytes::be_bytes(f.path.len(), 4));
    assert(b.subrange(4, 4 + n) =~= f.path);
    assert(b.subrange(4 + n, 12 + n) =~= bytes::be_bytes(f.data.len(), 8));
}

proof fn lemma_bad_file(files: Seq<FileView>, f: FileView, tail: Seq<u8>, n: nat)
    requires
        forall|i: int| 0 <= i < files.len() ==> unpackable(#[trigger] files[i]),
        f.path.len() <= u32::MAX,
        f.data.len() <= u64::MAX,
        !unpackable(f),
        n > files.len(),
    ensures
        next_files(packed_files(files) + (packed_file(f) + tail), n).0 == files,
        !(next_files(packed_files(files) + (packed_file(f) + tail), n).1 is Done),
    decreases files.len(),
{
    let rest = packed_file(f) + tail;
    if files.len() == 0 {
        assert(packed_files(files) + rest =~= rest);
        lemma_bad_first(f, tail);
        assert(next_files(rest, n).0 =~= files);
        assert(!(next_files(rest, n).1 is Done));
    } else {
        let (first, more) = (files[0], files.drop_first());
        assert(files =~= seq![first] + more);
        lemma_packed_first(first, more);
        assert(packed_files(files) + rest =~= packed_file(first) + (packed_files(more) + rest));
        lemma_first_file(first, packed_files(more) + rest);
        assert forall|i: int| 0 <= i < more.len() implies unpackable(#[trigger] more[i]) by {
            assert(more[i] == files[i + 1]);
        }
        lemma_bad_file(more, f, tail, (n - 1) as nat);
    }
}

/// A file that must not be unpacked, because its path leads out of the directory, is empty,
/// too long or no text, or because it is too large, ends the unpacking: the files before it
/// are given, it and what follows are not, and the archive is malformed.
pub proof fn law_bad_file_ends_unpacking(
    files: Seq<FileView>,
    f: FileView,
    tail: Seq<u8>,
    count: u32,
)
    requires
        forall|i: int| 0 <= i < files.len() ==> unpackable(#[trigger] files[i]),
        f.path.len() <= u32::MAX,
        f.data.len() <= u64::MAX,
        f.path.len() == 0 || f.path.len() > 1024 || f.data.len() > 0x4000_0000
            || !vstd::utf8::valid_utf8(f.path) || !safe_path(f.path),
        count > files.len(),
        (bytes::be_bytes(count as nat, 4) + (packed_files(files) + (packed_file(f) + tail))).len()
            <= MAX_TOTAL_LEN,
    ensures
        ({
            let b = bytes::be_bytes(count as nat, 4) + (packed_files(files) + (packed_file(f)
                + tail));
            &&& unpacked(b).0 == files
            &&& !(unpacked(b).1 is Done)
        }),
{
    let rest = packed_files(files) + (packed_file(f) + tail);
    let b = bytes::be_bytes(count as nat, 4) + rest;
    bytes::lemma_powers();
    bytes::lemma_be_bytes_len(count as nat, 4);
    bytes::law_be_value_of_bytes(count as nat, 4);
    assert(b.take(4) =~= bytes::be_bytes(count as nat, 4));
    assert(b.skip(4) =~= rest);
    lemma_bad_file(files, f, tail, count as nat);
}

proof fn lemma_cut_first(f: FileView, n: int)
    requires
        unpackable(f),
        0 <= n < packed_file(f).len(),
    ensures
        first_file(packed_file(f).take(n)) == Err::<FileView, UnpackEnd>(UnpackEnd::Truncated),
{
    let b = packed_file(f).take(n);
    let (p, m) = (f.path.len() as int, f.data.len() as int);
    bytes::lemma_powers();
    bytes::lemma_be_bytes_len(f.path.len(), 4);
    bytes::lemma_be_bytes_len(f.data.len(), 8);
    bytes::law_be_value_of_bytes(f.path.len(), 4);
    bytes::law_be_value_of_bytes(f.data.len(), 8);
    if n >= 4 {
        assert(b.take(4) =~= bytes::be_bytes(f.path.len(), 4));
        if n >= 4 + p {
            assert(b.subrange(4, 4 + p) =~= f.path);
            if n >= 12 + p {
                assert(b.subrange(4 + p, 12 + p) =~= bytes::be_bytes(f.data.len(), 8));
            }
        }
    }
}

proof fn lemma_cut_files(files: Seq<FileView>, n: int)
    requires
        forall|i: int| 0 <= i < files.len() ==> unpackable(#[trigger] files[i]),
        0 <= n < packed_files(files).len(),
    ensures
        next_files(packed_files(files).take(n), files.len()).1 == UnpackEnd::Truncated,
    decreases files.len(),
{
    if files.len() > 0 {
        let (f, rest) = (files[0], files.drop_first());
        assert(files =~= seq![f] + rest);
        lemma_packed_first(f, rest);
        let size = packed_file(f).len() as int;
        let cut = packed_files(files).take(n);
        if n < size {
            assert(cut =~= packed_file(f).take(n));
            lemma_cut_first(f, n);
        } else {
            assert(cut =~= packed_file(f) + packed_files(rest).take(n - size));
            lemma_first_file(f, packed_files(rest).take(n - size));
            assert forall|i: int| 0 <= i < rest.len() implies unpackable(#[trigger] rest[i]) by {
                assert(rest[i] == files[i + 1]);
            }
            lemma_cut_files(rest, n - size);
        }
    }
}

/// An archive that was cut short anywhere is malformed.
pub proof fn law_cut_archive(files: Seq<FileView>, n: int)
    requires
        files.len() <= u32::MAX,
        archive(files).len() <= MAX_TOTAL_LEN,
        forall|i: int| 0 <= i < files.len() ==> unpackable(#[trigger] files[i]),
        0 <= n < archive(files).len(),
    ensures
        unpacked(archive(files).take(n)).1 == UnpackEnd::Truncated,
{
    let b = archive(files).take(n);
    bytes::lemma_powers();
    bytes::lemma_be_bytes_len(files.len(), 4);
    bytes::law_be_value_of_bytes(files.len(), 4);
    if n >= 4 {
        assert(b.take(4) =~= bytes::be_bytes(files.len(), 4));
        assert(b.skip(4) =~= packed_files(files).take(n - 4));
        lemma_cut_files(files, n - 4);
    }
}

/// An archive that is too large is refused, and none of its files is unpacked.
pub proof fn law_no_large_archive(b: Seq<u8>)
    requires
        b.len() > MAX_TOTAL_LEN,
    ensures
        unpacked(b).0.len() == 0,
        unpacked(b).1 == UnpackEnd::ArchiveTooLarge,
{
}

/// Every file that an archive yields stays inside the directory.
pub proof fn law_unpacked_paths_are_safe(b: Seq<u8>, n: nat)
    ensures
        forall|i: int|
            0 <= i < next_files(b, n).0.len() ==> unpackable(#[trigger] next_files(b, n).0[i]),
    decreases n,
{
    if n > 0 {
        if let Ok(f) = first_file(b) {
            let rest = b.skip(packed_len(f));
            law_unpacked_paths_are_safe(rest, (n - 1) as nat);
            let (files, more) = (next_files(b, n).0, next_files(rest, (n - 1) as nat).0);
            assert forall|i: int| 0 <= i < files.len() implies unpackable(#[trigger] files[i]) by {
                if i > 0 {
                    assert(files[i] == more[i - 1]);
                }
            }
        }
    }
}

/// The archive does not depend on the order in which the files were found: two
/// orderings by path of the same files, no two of one path, are the same.
pub proof fn law_pack_order(a: Seq<FileView>, b: Seq<FileView>)
    requires
        a.to_multiset() == b.to_multiset(),
        in_path_order(a),
        in_path_order(b),
        forall|i: int, j: int|
            0 <= i < j < a.len() ==> (#[trigger] a[i]).path != (#[trigger] a[j]).path,
    ensures
        a == b,
    decreases a.len(),
{
    broadcast use vstd::multiset::group_multiset_axioms, vstd::seq_lib::group_to_multiset_ensures;

    assert(a.len() == a.to_multiset().len());
    assert(b.len() == b.to_multiset().len());
    if a.len() == 0 {
        assert(a =~= b);
    } else {
        let (x, y) = (a.last(), b.last());
        assert(a.contains(x) && b.contains(y));
        assert(b.to_multiset().count(x) > 0);
        assert(a.to_multiset().count(y) > 0);
        assert(b.contains(x) && a.contains(y));
        let i = choose|i: int| 0 <= i < b.len() && b[i] == x;
        let j = choose|j: int| 0 <= j < a.len() && a[j] == y;
        let last = a.len() - 1;
        if x != y {
            assert(i < last && j < last);
            assert(!path_less(a[last].path, a[j].path));
            assert(!path_less(b[last].path, b[i].path));
            lemma_path_order(x.path, y.path);
            assert(a[j].path != a[last].path);
        }
        assert(a.remove(last) =~= a.drop_last());
        assert(b.remove(last) =~= b.drop_last());
        vstd::seq_lib::to_multiset_remove(a, last);
        vstd::seq_lib::to_multiset_remove(b, last);
        let (p, q) = (a.drop_last(), b.drop_last());
        assert forall|i: int, j: int| 0 <= i < j < p.len() implies !path_less(
            (#[trigger] p[j]).path,
            (#[trigger] p[i]).path,
        ) && p[i].path != p[j].path by {
            assert(p[i] == a[i] && p[j] == a[j]);
        }
        assert forall|i: int, j: int| 0 <= i < j < q.len() implies !path_less(
            (#[trigger] q[j]).path,
            (#[trigger] q[i]).path,
        ) by {
            assert(q[i] == b[i] && q[j] == b[j]);
        }
        law_pack_order(p, q);
        assert(a =~= p.push(x));
        assert(b =~= q.push(y));
    }
}

// ---------------------------------------------------------------------------
// Messages
// ---------------------------------------------------------------------------

/// What the `Debug` form of a path is.
pub uninterp spec fn path_debug(p: Seq<char>) -> Seq<char>;

/// Formats `std::path::Path` with `{:?}`: the path in quotes, with what would
/// not be readable escaped.
#[verifier::external_body]
pub(crate) fn quoted_path(p: &str) -> (r: String)
    ensures
        r@ == path_debug(p@),
{
    format!("{:?}", std::path::Path::new(p))
}

/// The path of something inside a directory.
pub open spec fn inside(dir: Seq<char>, relpath: Seq<char>) -> Seq<char> {
    if dir.len() == 0 || dir.last() == '/' {
        dir + relpath
    } else {
        dir.push('/') + relpath
    }
}

fn inside_dir(dir: &str, relpath: &str) -> (r: String)
    ensures
        r@ == inside(dir@, relpath@),
{
    let mut s: String = dir.to_owned();
    let n: usize = dir.unicode_len();
    if n > 0 && dir.get_char(n - 1) != '/' {
        s.push('/');
    }
    s.push_str(relpath);
    s
}

/// What is wrong with the files of a directory.
pub open spec fn pack_message(dir: Seq<char>, e: PackError) -> Seq<char> {
    match e {
        PackError::TooManyFiles => "too many files"@,
        PackError::RelpathTooLong(n) => "relpath length "@ + text::decimal(n as nat)
            + " exceeds cap"@,
        PackError::FileTooLarge(n, p) => "file too large: "@ + text::decimal(n as nat)
            + " bytes ("@ + path_debug(inside(dir, p@)) + ")"@,
        PackError::ArchiveTooLarge => "packed size exceeds cap of "@ + text::decimal(
            MAX_TOTAL_LEN as nat,
        ) + " bytes"@,
    }
}

impl PackError {
    /// The error in words, about the files of a directory.
    pub fn message(&self, dir: &str) -> (r: String)
        ensures
            r@ == pack_message(dir@, *self),
    {
        match self {
            PackError::TooManyFiles => "too many files".to_owned(),
            PackError::RelpathTooLong(n) => {
                let mut s: String = "relpath length ".to_owned();
                push_decimal(&mut s, *n as u128);
                s.push_str(" exceeds cap");
                s
            },
            PackError::FileTooLarge(n, p) => {
                let mut s: String = "file too large: ".to_owned();
                push_decimal(&mut s, *n as u128);
                s.push_str(" bytes (");
                let path: String = inside_dir(dir, p.as_str());
                let quoted: String = quoted_path(path.as_str());
                s.push_str(quoted.as_str());
                s.push_str(")");
                s
            },
            PackError::ArchiveTooLarge => {
                let mut s: String = "packed size exceeds cap of ".to_owned();
                push_decimal(&mut s, MAX_TOTAL_LEN as u128);
                s.push_str(" bytes");
                s
            },
        }
    }
}

pub open spec fn unpack_message(e: UnpackError) -> Seq<char> {
    match e {
        UnpackError::ArchiveTooLarge => "packed size exceeds cap of "@ + text::decimal(
            MAX_TOTAL_LEN as nat,
        ) + " bytes"@,
        UnpackError::Truncated => "failed to fill whole buffer"@,
        UnpackError::RelpathLength(n) => "malformed relpath length: "@ + text::decimal(n as nat),
        UnpackError::RelpathNotUtf8 => "relpath not UTF-8"@,
        UnpackError::UnsafeRelpath(p) => "unsafe relpath rejected: "@ + path_debug(p@),
        UnpackError::DataTooLarge(n) => "file data too large: "@ + text::decimal(n as nat),
        UnpackError::TrailingBytes => "trailing bytes after declared file count"@,
    }
}

impl UnpackError {
    /// The error in words.
    pub fn message(&self) -> (r: String)
        ensures
            r@ == unpack_message(*self),
    {
        match self {
            UnpackError::ArchiveTooLarge => {
                let mut s: String = "packed size exceeds cap of ".to_owned();
                push_decimal(&mut s, MAX_TOTAL_LEN as u128);
                s.push_str(" bytes");
                s
            },
            UnpackError::Truncated => "failed to fill whole buffer".to_owned(),
            UnpackError::RelpathLength(n) => {
                let mut s: String = "malformed relpath length: ".to_owned();
                push_decimal(&mut s, *n as u128);
                s
            },
            UnpackError::RelpathNotUtf8 => "relpath not UTF-8".to_owned(),
            UnpackError::UnsafeRelpath(p) => {
                let mut s: String = "unsafe relpath rejected: ".to_owned();
                let quoted: String = quoted_path(p.as_str());
                s.push_str(quoted.as_str());
                s
            },
            UnpackError::DataTooLarge(n) => {
                let mut s: String = "file data too large: ".to_owned();
                push_decimal(&mut s, *n as u128);
                s
            },
            UnpackError::TrailingBytes => "trailing bytes after declared file count".to_owned(),
        }
    }
}

} // verus!
