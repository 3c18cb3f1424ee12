use awmp::naming::{file_name_for, generated_file_name};
use awmp::{finalize, Error, File, Outcome, Part, Parts};

fn finished(name: &str) -> File<impl std::fmt::Debug> {
    let spill = tempfile::NamedTempFile::new().unwrap();
    match finalize(Outcome::File, Some(spill), Some(name.to_string()), "") {
        Part::File(Ok(f)) => f,
        other => panic!("expected a finished file, got {:?}", other),
    }
}

fn too_large<F>(limit: usize) -> Part<F> {
    Part::File(Err(Error::FileTooLarge { limit, file_name: None }))
}

fn texts(pairs: Vec<(&str, &[u8])>) -> Parts<()> {
    Parts::from_parts(
        pairs.into_iter().map(|(k, v)| (k.to_string(), Part::Text(v.to_vec()))).collect(),
    )
}

#[test]
fn take_is_selective_and_keeps_order() {
    let mut parts = Parts::from_parts(vec![
        ("A".to_string(), Part::File(Ok(finished("f1.txt")))),
        ("A".to_string(), too_large(5)),
        ("B".to_string(), Part::File(Ok(finished("f2.txt")))),
    ]);
    let taken = parts.files.take("A");
    assert_eq!(taken.len(), 1);
    assert_eq!(taken[0].sanitized_file_name(), "f1.txt");
    let left = parts.files.take("nothing");
    assert!(left.is_empty());
    let rest = parts.files.into_inner();
    assert_eq!(rest.len(), 2);
    assert_eq!(rest[0].0, "A");
    assert!(matches!(rest[0].1, Err(Error::FileTooLarge { limit: 5, .. })));
    assert_eq!(rest[1].0, "B");
    assert_eq!(rest[1].1.as_ref().unwrap().sanitized_file_name(), "f2.txt");
}

#[test]
fn take_twice_returns_nothing_the_second_time() {
    let mut parts = Parts::from_parts(vec![
        ("A".to_string(), Part::File(Ok(finished("one")))),
        ("A".to_string(), Part::File(Ok(finished("two")))),
    ]);
    let taken = parts.files.take("A");
    assert_eq!(taken.len(), 2);
    assert_eq!(taken[0].sanitized_file_name(), "one");
    assert_eq!(taken[1].sanitized_file_name(), "two");
    assert!(parts.files.take("A").is_empty());
}

#[test]
fn remove_takes_like_take() {
    let mut parts = Parts::from_parts(vec![
        ("x".to_string(), Part::File(Ok(finished("a")))),
        ("y".to_string(), Part::File(Ok(finished("b")))),
    ]);
    let removed = parts.files.remove("y");
    assert_eq!(removed.len(), 1);
    assert_eq!(removed[0].sanitized_file_name(), "b");
    assert_eq!(parts.files.into_inner().len(), 1);
}

#[test]
fn first_skips_errors_and_keeps_entries() {
    let parts = Parts::from_parts(vec![
        ("A".to_string(), too_large(1)),
        ("B".to_string(), Part::File(Ok(finished("b")))),
        ("A".to_string(), Part::File(Ok(finished("a1")))),
        ("A".to_string(), Part::File(Ok(finished("a2")))),
    ]);
    assert_eq!(parts.files.first("A").unwrap().sanitized_file_name(), "a1");
    assert!(parts.files.first("C").is_none());
    assert_eq!(parts.files.into_inner().len(), 4);
}

#[test]
fn from_parts_groups_in_order() {
    let parts = Parts::from_parts(vec![
        ("t1".to_string(), Part::Text(b"one".to_vec())),
        ("f1".to_string(), Part::File(Ok(finished("f")))),
        ("t2".to_string(), Part::Text(b"two".to_vec())),
        ("f2".to_string(), too_large(9)),
    ]);
    let texts = parts.texts.into_inner();
    assert_eq!(texts, vec![("t1".to_string(), b"one".to_vec()), ("t2".to_string(), b"two".to_vec())]);
    let files = parts.files.into_inner();
    assert_eq!(files.len(), 2);
    assert_eq!(files[0].0, "f1");
    assert_eq!(files[1].0, "f2");
}

#[test]
fn query_string_encodes_reserved_characters() {
    let parts = texts(vec![("a b", b"x&y=z"), ("k", b"caf\xc3\xa9 ~*-._")]);
    assert_eq!(parts.texts.to_query_string(), "a+b=x%26y%3Dz&k=caf%C3%A9+%7E*-._");
}

#[test]
fn query_string_omits_invalid_text() {
    let parts = texts(vec![("bad", b"\xff\xfe"), ("good", b"1"), ("worse", b"\xc3")]);
    assert_eq!(parts.texts.to_query_string(), "good=1");
    let empty = texts(vec![]);
    assert_eq!(empty.texts.to_query_string(), "");
    let blank = texts(vec![("", b"")]);
    assert_eq!(blank.texts.to_query_string(), "=");
}

#[test]
fn pairs_skip_invalid_text() {
    let parts = texts(vec![("a", b"1"), ("b", b"\x80"), ("a", b"2")]);
    assert_eq!(parts.texts.as_pairs(), vec![("a", "1"), ("a", "2")]);
}

#[test]
fn hash_map_keeps_first_of_each_name() {
    let parts = texts(vec![("a", b"1"), ("b", b"\x80"), ("a", b"2"), ("c", b"3")]);
    let map = parts.texts.as_hash_map();
    assert_eq!(map.len(), 2);
    assert_eq!(map.get("a"), Some(&"1"));
    assert_eq!(map.get("c"), Some(&"3"));
    assert_eq!(map.get("b"), None);
}

#[test]
fn too_large_messages() {
    let e: Error<()> = Error::FileTooLarge { limit: 1000, file_name: Some("big.bin".to_string()) };
    assert_eq!(e.to_string(), "File is too large (limit: 1000 bytes): big.bin");
    let e: Error<()> = Error::FileTooLarge { limit: 0, file_name: None };
    assert_eq!(e.to_string(), "File is too large (limit: 0 bytes)");
}

#[test]
fn declared_names_are_sanitized() {
    assert_eq!(file_name_for(Some("me.png"), "image/png"), "me.png");
    assert_eq!(file_name_for(Some("../etc/pa:ss*wd?.txt"), ""), "..etcpasswd.txt");
    assert_eq!(file_name_for(Some(".."), ""), "");
}

#[test]
fn names_are_generated_from_content_type() {
    let name = file_name_for(None, "image/png");
    assert_eq!(name.len(), 36);
    assert!(name.ends_with(".png"));
    assert!(name[..32].chars().all(|c| c.is_ascii_digit() || ('a'..='f').contains(&c)));
    let name = file_name_for(None, "application/x-unknown-kind");
    assert_eq!(name.len(), 32);
    let other = file_name_for(None, "application/x-unknown-kind");
    assert_ne!(name, other);
}

#[test]
fn generated_name_joins_id_and_extension() {
    assert_eq!(generated_file_name("abc", Some("txt")), "abc.txt");
    assert_eq!(generated_file_name("abc", None), "abc");
}

#[test]
fn finished_file_without_declared_name() {
    let spill = tempfile::NamedTempFile::new().unwrap();
    let path = spill.path().to_path_buf();
    match finalize(Outcome::File, Some(spill), None, "text/plain") {
        Part::File(Ok(f)) => {
            assert_eq!(f.original_file_name(), None);
            assert!(f.sanitized_file_name().len() > 32);
            assert_eq!(f.into_inner().path(), path.as_path());
        }
        other => panic!("expected a finished file, got {:?}", other),
    }
}
