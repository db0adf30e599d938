use secure_share::catalog::Catalog;
use secure_share::record::FileMetadata;

fn record(name: &str, extension: &str, content: &[u8]) -> FileMetadata {
    FileMetadata {
        original_name: name.to_string(),
        extension: extension.to_string(),
        encrypted_content: content.to_vec(),
    }
}

fn same(found: Option<&FileMetadata>, name: &str, extension: &str, content: &[u8]) -> bool {
    match found {
        Some(r) => {
            r.original_name == name && r.extension == extension && r.encrypted_content == content
        }
        None => false,
    }
}

#[test]
fn new_catalog_holds_nothing() {
    let catalog = Catalog::new();
    assert!(catalog.get("anything").is_none());
    assert!(catalog.get("").is_none());
    assert!(catalog.get_latest().is_none());
}

#[test]
fn inserted_record_is_found_under_its_identifier() {
    let mut catalog = Catalog::new();
    catalog.insert("id-1".to_string(), record("report", "txt", &[1, 2, 3]));
    assert!(same(catalog.get("id-1"), "report", "txt", &[1, 2, 3]));
    assert!(catalog.get("id-2").is_none());
    assert!(catalog.get("id-").is_none());
    assert!(catalog.get("id-11").is_none());
    assert!(catalog.get("ID-1").is_none());
}

#[test]
fn latest_is_the_most_recent_insert() {
    let mut catalog = Catalog::new();
    catalog.insert("b".to_string(), record("first", "a", &[1]));
    assert!(same(catalog.get_latest(), "first", "a", &[1]));
    catalog.insert("a".to_string(), record("second", "b", &[2]));
    assert!(same(catalog.get_latest(), "second", "b", &[2]));
    catalog.insert("c".to_string(), record("third", "c", &[3]));
    assert!(same(catalog.get_latest(), "third", "c", &[3]));
    assert!(same(catalog.get("b"), "first", "a", &[1]));
    assert!(same(catalog.get("a"), "second", "b", &[2]));
    assert!(same(catalog.get("c"), "third", "c", &[3]));
}

#[test]
fn latest_goes_by_insertion_and_not_by_identifier_order() {
    let mut catalog = Catalog::new();
    catalog.insert("zzz".to_string(), record("z", "", &[26]));
    catalog.insert("aaa".to_string(), record("a", "", &[1]));
    assert!(same(catalog.get_latest(), "a", "", &[1]));
    catalog.insert("mmm".to_string(), record("m", "", &[13]));
    assert!(same(catalog.get_latest(), "m", "", &[13]));
}

#[test]
fn insert_under_a_known_identifier_replaces_the_record() {
    let mut catalog = Catalog::new();
    catalog.insert("one".to_string(), record("old", "txt", &[1, 1]));
    catalog.insert("two".to_string(), record("other", "bin", &[2, 2]));
    catalog.insert("one".to_string(), record("new", "md", &[3, 3, 3]));
    assert!(same(catalog.get("one"), "new", "md", &[3, 3, 3]));
    assert!(same(catalog.get("two"), "other", "bin", &[2, 2]));
    assert!(same(catalog.get_latest(), "new", "md", &[3, 3, 3]));
}

#[test]
fn insert_of_the_same_record_changes_nothing_a_reader_sees() {
    let mut catalog = Catalog::new();
    catalog.insert("one".to_string(), record("report", "txt", &[9, 8, 7]));
    catalog.insert("one".to_string(), record("report", "txt", &[9, 8, 7]));
    assert!(same(catalog.get("one"), "report", "txt", &[9, 8, 7]));
    assert!(same(catalog.get_latest(), "report", "txt", &[9, 8, 7]));
}

#[test]
fn nothing_is_ever_taken_out() {
    let mut catalog = Catalog::new();
    for i in 0u8..50 {
        catalog.insert(format!("id-{}", i), record("n", "e", &[i]));
        for j in 0..=i {
            assert!(same(catalog.get(&format!("id-{}", j)), "n", "e", &[j]));
        }
    }
    for i in 0u8..50 {
        catalog.insert(format!("id-{}", i), record("again", "e", &[i, i]));
    }
    for i in 0u8..50 {
        assert!(same(catalog.get(&format!("id-{}", i)), "again", "e", &[i, i]));
    }
    assert!(same(catalog.get_latest(), "again", "e", &[49, 49]));
}

#[test]
fn record_with_empty_fields_is_stored_whole() {
    let mut catalog = Catalog::new();
    catalog.insert("".to_string(), record("", "", &[]));
    assert!(same(catalog.get(""), "", "", &[]));
    assert!(same(catalog.get_latest(), "", "", &[]));
}

#[test]
fn copy_of_a_record_has_the_same_fields() {
    let source = record("report", "txt", &[1, 2, 3, 4]);
    let copy = source.clone();
    assert_eq!(copy.original_name, "report");
    assert_eq!(copy.extension, "txt");
    assert_eq!(copy.encrypted_content, vec![1, 2, 3, 4]);
    assert_eq!(source.encrypted_content, vec![1, 2, 3, 4]);
}

#[test]
fn receiver_file_names_are_built_from_name_and_extension() {
    let r = record("report", "txt", &[1]);
    assert_eq!(r.decrypted_file_name(), "report.txt");
    assert_eq!(r.encrypted_file_name(), "report.txt_enc");
    let bare = record("file", "", &[]);
    assert_eq!(bare.decrypted_file_name(), "file.");
    assert_eq!(bare.encrypted_file_name(), "file._enc");
}

#[test]
fn reader_finds_nothing_or_the_whole_record() {
    let mut catalog = Catalog::new();
    assert!(catalog.get("id").is_none());
    catalog.insert("id".to_string(), record("report", "txt", &[1, 2, 3]));
    let found = catalog.get("id").unwrap();
    assert!(!found.original_name.is_empty());
    assert!(!found.extension.is_empty());
    assert!(!found.encrypted_content.is_empty());
    assert!(same(catalog.get("id"), "report", "txt", &[1, 2, 3]));
    catalog.insert("id".to_string(), record("notes", "md", &[4, 5]));
    assert!(same(catalog.get("id"), "notes", "md", &[4, 5]));
}
