use raftmeta::snapshot_payload::{
    is_safe_relpath, pack_dir, unpack_dir, PackError, PackedFile, Packer, UnpackError,
    MAX_FILE_DATA_LEN, MAX_RELPATH_LEN, MAX_TOTAL_LEN,
};

fn file(relpath: &str, data: &[u8]) -> PackedFile {
    PackedFile { relpath: relpath.into(), data: data.to_vec() }
}

fn read(files: &[PackedFile], relpath: &str) -> Vec<u8> {
    files.iter().find(|f| f.relpath == relpath).expect("file").data.clone()
}

#[test]
fn pack_unpack_round_trips_flat_dir() {
    let bytes = pack_dir(vec![
        file("MANIFEST-000001", b"manifest-bytes"),
        file("000003.sst", b"sst-bytes"),
        file("OPTIONS", b"options"),
    ])
    .unwrap();

    let dst = unpack_dir(&bytes);
    assert_eq!(dst.end, Ok(()));
    assert_eq!(dst.files.len(), 3);
    assert_eq!(read(&dst.files, "MANIFEST-000001"), b"manifest-bytes");
    assert_eq!(read(&dst.files, "000003.sst"), b"sst-bytes");
    assert_eq!(read(&dst.files, "OPTIONS"), b"options");
}

#[test]
fn pack_recurses_into_subdirs() {
    let bytes = pack_dir(vec![
        file("files/sub/000001.sst", b"deep"),
        file("top.txt", b"shallow"),
    ])
    .unwrap();
    let dst = unpack_dir(&bytes);
    assert_eq!(dst.end, Ok(()));
    assert_eq!(read(&dst.files, "files/sub/000001.sst"), b"deep");
    assert_eq!(read(&dst.files, "top.txt"), b"shallow");
}

#[test]
fn pack_is_deterministic_across_filesystem_orderings() {
    let bytes1 = pack_dir(vec![
        file("z-last", b"last"),
        file("a-first", b"first"),
        file("m-middle", b"middle"),
    ])
    .unwrap();
    let bytes2 = pack_dir(vec![
        file("m-middle", b"middle"),
        file("a-first", b"first"),
        file("z-last", b"last"),
    ])
    .unwrap();
    assert_eq!(bytes1, bytes2, "pack must be deterministic");
    let names: Vec<String> = unpack_dir(&bytes1).files.into_iter().map(|f| f.relpath).collect();
    assert_eq!(names, vec!["a-first", "m-middle", "z-last"]);
}

fn archive_of(path: &[u8]) -> Vec<u8> {
    let mut buf: Vec<u8> = Vec::new();
    buf.extend_from_slice(&1u32.to_be_bytes());
    buf.extend_from_slice(&(path.len() as u32).to_be_bytes());
    buf.extend_from_slice(path);
    buf.extend_from_slice(&0u64.to_be_bytes());
    buf
}

#[test]
fn unpack_rejects_parent_dir_traversal() {
    let dst = unpack_dir(&archive_of(b"../escape"));
    let err = dst.end.unwrap_err();
    assert!(
        err.message().contains("unsafe relpath"),
        "expected unsafe-relpath rejection, got {}",
        err.message()
    );
    assert_eq!(err.message(), "unsafe relpath rejected: \"../escape\"");
    assert!(dst.files.is_empty());
}

#[test]
fn unpack_rejects_absolute_path() {
    let err = unpack_dir(&archive_of(b"/etc/passwd")).end.unwrap_err();
    assert!(err.message().contains("unsafe"));
}

#[test]
fn unpack_rejects_trailing_bytes() {
    let mut bytes = pack_dir(vec![file("x", b"y")]).unwrap();
    bytes.push(0x42);
    let dst = unpack_dir(&bytes);
    let err = dst.end.unwrap_err();
    assert!(err.message().contains("trailing"));
    assert_eq!(err, UnpackError::TrailingBytes);
}

#[test]
fn unpack_rejects_oversize_relpath() {
    let mut buf: Vec<u8> = Vec::new();
    buf.extend_from_slice(&1u32.to_be_bytes());
    buf.extend_from_slice(&(MAX_RELPATH_LEN + 1).to_be_bytes());
    let err = unpack_dir(&buf).end.unwrap_err();
    assert!(err.message().contains("relpath length"));
    assert_eq!(err.message(), "malformed relpath length: 1025");
}

#[test]
fn pack_empty_dir_produces_zero_count_header() {
    let bytes = pack_dir(vec![]).unwrap();
    assert_eq!(bytes, vec![0, 0, 0, 0]);
    let dst = unpack_dir(&bytes);
    assert_eq!(dst.end, Ok(()));
    assert!(dst.files.is_empty());
}

#[test]
fn an_archive_is_laid_out_as_documented() {
    let bytes = pack_dir(vec![file("ab", &[9, 8, 7])]).unwrap();
    assert_eq!(
        bytes,
        vec![0, 0, 0, 1, 0, 0, 0, 2, b'a', b'b', 0, 0, 0, 0, 0, 0, 0, 3, 9, 8, 7]
    );
}

#[test]
fn components_order_before_longer_names() {
    let bytes = pack_dir(vec![file("a.b", b"1"), file("a/b", b"2"), file("a", b"3")]).unwrap();
    let names: Vec<String> = unpack_dir(&bytes).files.into_iter().map(|f| f.relpath).collect();
    let mut expected: Vec<std::path::PathBuf> =
        vec!["a.b".into(), "a/b".into(), "a".into()];
    expected.sort();
    let expected: Vec<String> =
        expected.into_iter().map(|p| p.to_str().unwrap().to_string()).collect();
    assert_eq!(names, expected);
}

#[test]
fn relpaths_are_judged_as_the_path_type_judges_them() {
    for good in ["a", "a/b", "a//b", "a/", "a/./b", "a/.", "..a", "a..", ".hidden"] {
        assert!(is_safe_relpath(good), "{}", good);
    }
    for bad in ["/a", "..", "a/..", "a/../b", "../a", ".", "./a", "a\0b", "/"] {
        assert!(!is_safe_relpath(bad), "{}", bad);
    }
}

#[test]
fn unpack_reports_truncation_bad_text_and_oversized_data() {
    assert_eq!(unpack_dir(&[0, 0, 0]).end, Err(UnpackError::Truncated));
    assert_eq!(unpack_dir(&[0, 0, 0, 1, 0]).end, Err(UnpackError::Truncated));
    let empty_path = unpack_dir(&archive_of(b"")).end.unwrap_err();
    assert_eq!(empty_path, UnpackError::RelpathLength(0));
    let not_text = unpack_dir(&archive_of(&[0xFF, 0xFE])).end.unwrap_err();
    assert_eq!(not_text, UnpackError::RelpathNotUtf8);
    assert_eq!(not_text.message(), "relpath not UTF-8");
    let mut big = archive_of(b"a");
    let n = big.len();
    big[n - 8..].copy_from_slice(&(MAX_FILE_DATA_LEN + 1).to_be_bytes());
    let err = unpack_dir(&big).end.unwrap_err();
    assert_eq!(err, UnpackError::DataTooLarge(MAX_FILE_DATA_LEN + 1));
    assert_eq!(err.message(), "file data too large: 1073741825");
}

#[test]
fn files_before_a_fault_are_kept() {
    let mut bytes = pack_dir(vec![file("a", b"1"), file("b", b"2")]).unwrap();
    bytes.truncate(bytes.len() - 1);
    let dst = unpack_dir(&bytes);
    assert_eq!(dst.end, Err(UnpackError::Truncated));
    assert_eq!(dst.end.unwrap_err().message(), "failed to fill whole buffer");
    assert_eq!(dst.files, vec![file("a", b"1")]);
}

#[test]
fn pack_refuses_a_long_path() {
    let long = "x".repeat(MAX_RELPATH_LEN as usize + 1);
    let err = pack_dir(vec![file(&long, b"")]).unwrap_err();
    assert_eq!(err, PackError::RelpathTooLong(1025));
    assert_eq!(err.message("/d"), "relpath length 1025 exceeds cap");
    let longest = "x".repeat(MAX_RELPATH_LEN as usize);
    assert!(pack_dir(vec![file(&longest, b"")]).is_ok());
}

#[test]
fn pack_messages_are_worded() {
    assert_eq!(PackError::TooManyFiles.message("/d"), "too many files");
    let large = || PackError::FileTooLarge(5, "sub/a.sst".to_string());
    for dir in ["/staging", "/staging/"] {
        assert_eq!(large().message(dir), "file too large: 5 bytes (\"/staging/sub/a.sst\")");
    }
    assert_eq!(large().message(""), "file too large: 5 bytes (\"sub/a.sst\")");
    let cap = format!("packed size exceeds cap of {} bytes", MAX_TOTAL_LEN);
    assert_eq!(PackError::ArchiveTooLarge.message("/d"), cap);
    assert_eq!(UnpackError::ArchiveTooLarge.message(), cap);
    assert_eq!(MAX_TOTAL_LEN, 8 * 1024 * 1024 * 1024);
    assert_eq!(MAX_FILE_DATA_LEN, 1024 * 1024 * 1024);
}

#[test]
fn pack_refuses_a_large_file_and_names_it() {
    let data = vec![0u8; MAX_FILE_DATA_LEN as usize + 1];
    let mut packer = Packer::new(1).unwrap();
    let err = packer.add_file("a/b", &data).unwrap_err();
    assert_eq!(err, PackError::FileTooLarge(MAX_FILE_DATA_LEN + 1, "a/b".to_string()));
}

#[test]
fn a_packer_writes_file_by_file() {
    let mut packer = Packer::new(2).unwrap();
    Packer::check_relpath("a").unwrap();
    packer.add_file("a", b"1").unwrap();
    packer.add_file("b", b"22").unwrap();
    assert_eq!(
        packer.finish(),
        pack_dir(vec![file("b", b"22"), file("a", b"1")]).unwrap()
    );
}
