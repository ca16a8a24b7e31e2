use acsync::archive_unpacker::{select_backend, Backend};

#[test]
fn test_unpack_archive_rar() {
    assert_eq!(select_backend("/archive.rar"), Backend::Rar);
}

#[test]
fn test_unpack_archive_no_extension() {
    assert_eq!(select_backend("/archive"), Backend::Generic);
}

#[test]
fn test_unpack_archive_7z() {
    assert_eq!(select_backend("/archive.7z"), Backend::Generic);
}

#[test]
fn only_the_last_extension_in_lower_case_counts() {
    assert_eq!(select_backend("/a/b.tar.rar"), Backend::Rar);
    assert_eq!(select_backend("/a/b.rar.zip"), Backend::Generic);
    assert_eq!(select_backend("/a/b.RAR"), Backend::Generic);
    assert_eq!(select_backend("/a.rar/b"), Backend::Generic);
    assert_eq!(select_backend("/a/rar"), Backend::Generic);
    assert_eq!(select_backend("/a/.rar"), Backend::Generic);
    assert_eq!(select_backend(""), Backend::Generic);
}
