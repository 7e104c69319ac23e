use guessfs_indexer::identity::{digest_file_name, index_db_file_name};

#[test]
fn file_name_is_the_hex_digest_between_prefix_and_extension() {
    assert_eq!(digest_file_name(&[]), "index_.db");
    assert_eq!(digest_file_name(&[0x00, 0x0f, 0xa0, 0xff, 0x1b]), "index_000fa0ff1b.db");
    assert_eq!(digest_file_name(&[0x09, 0x0a, 0x90, 0x99]), "index_090a9099.db");
}

#[test]
fn file_name_of_a_root_is_named_after_its_sha256() {
    assert_eq!(
        index_db_file_name("abc"),
        "index_ba7816bf8f01cfea414140de5dae2223b00361a396177a9cb410ff61f20015ad.db"
    );
    assert_eq!(
        index_db_file_name(""),
        "index_e3b0c44298fc1c149afbf4c8996fb92427ae41e4649b934ca495991b7852b855.db"
    );
}

#[test]
fn same_root_same_catalog_and_different_roots_differ() {
    assert_eq!(index_db_file_name("C:\\Users"), index_db_file_name("C:\\Users"));
    assert_ne!(index_db_file_name("C:\\Users"), index_db_file_name("C:\\users"));
    assert_ne!(index_db_file_name("/home"), index_db_file_name("/home/"));
}
