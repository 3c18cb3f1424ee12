use awmp::{classify, finalize, Accumulator, Action, BufferKind, Error, Outcome, Part, PartsConfig};

struct Fed {
    actions: Vec<Action>,
    file: Vec<u8>,
    outcome: Outcome,
}

fn drive(config: &PartsConfig, kind: BufferKind, chunks: &[&[u8]]) -> Fed {
    let mut acc = Accumulator::new(kind);
    let mut file = Vec::new();
    let mut actions = Vec::new();
    for chunk in chunks {
        assert!(acc.can_take(chunk.len()));
        let action = acc.feed(config, chunk.to_vec());
        match &action {
            Action::Write(b) | Action::Spill(b) => file.extend_from_slice(b),
            _ => {}
        }
        let stop = matches!(action, Action::Stop(_));
        actions.push(action);
        if stop {
            break;
        }
    }
    Fed { actions, file, outcome: acc.finish() }
}

fn repeated(byte: u8, n: usize) -> Vec<u8> {
    vec![byte; n]
}

#[test]
fn text_field_without_limits_keeps_chunks_in_memory() {
    let config = PartsConfig::default();
    let kind = classify(&config, "comment", false);
    assert_eq!(kind, BufferKind::Cursor);
    let fed = drive(&config, kind, &[b"hel", b"lo"]);
    assert!(fed.actions.iter().all(|a| matches!(a, Action::Buffered)));
    let part = finalize::<()>(fed.outcome, None, None, "text/plain");
    match part {
        Part::Text(b) => assert_eq!(b, b"hello".to_vec()),
        other => panic!("expected text, got {:?}", other),
    }
}

#[test]
fn declared_file_name_starts_in_spill_file() {
    let config = PartsConfig::default();
    let kind = classify(&config, "avatar", true);
    assert_eq!(kind, BufferKind::SpillFile);
    let fed = drive(&config, kind, &[b"\x89PNG", b"data"]);
    assert!(matches!(fed.actions[0], Action::Write(_)));
    assert_eq!(fed.file, b"\x89PNGdata".to_vec());
    assert!(matches!(fed.outcome, Outcome::File));
    let spill = tempfile::NamedTempFile::new().unwrap();
    let part = finalize(fed.outcome, Some(spill), Some("me.png".to_string()), "image/png");
    match part {
        Part::File(Ok(f)) => {
            assert_eq!(f.sanitized_file_name(), "me.png");
            assert_eq!(f.original_file_name(), Some("me.png"));
        }
        other => panic!("expected a finished file, got {:?}", other),
    }
}

#[test]
fn text_field_past_text_limit_is_promoted_with_all_bytes() {
    let config = PartsConfig::default().with_text_limit(100);
    let kind = classify(&config, "bio", false);
    assert_eq!(kind, BufferKind::Cursor);
    let first = repeated(b'a', 60);
    let second = repeated(b'b', 40);
    let third = repeated(b'c', 50);
    let fed = drive(&config, kind, &[&first, &second, &third]);
    assert!(matches!(fed.actions[0], Action::Buffered));
    assert!(matches!(fed.actions[1], Action::Buffered));
    match &fed.actions[2] {
        Action::Spill(b) => assert_eq!(b.len(), 150),
        other => panic!("expected a spill, got {:?}", other),
    }
    let mut all = first.clone();
    all.extend_from_slice(&second);
    all.extend_from_slice(&third);
    assert_eq!(fed.file, all);
    assert!(matches!(fed.outcome, Outcome::File));
    let spill = tempfile::NamedTempFile::new().unwrap();
    assert!(matches!(finalize(fed.outcome, Some(spill), None, "text/plain"), Part::File(Ok(_))));
}

#[test]
fn file_past_file_limit_is_too_large() {
    let config = PartsConfig::default().with_file_limit(1000);
    let kind = classify(&config, "upload", true);
    let chunk = repeated(7, 400);
    let fed = drive(&config, kind, &[&chunk, &chunk, &chunk]);
    assert!(matches!(fed.actions[2], Action::Stop(1000)));
    assert_eq!(fed.file.len(), 800);
    assert!(matches!(fed.outcome, Outcome::TooLarge(1000)));
    let part = finalize::<()>(fed.outcome, None, Some("big.bin".to_string()), "");
    match part {
        Part::File(Err(Error::FileTooLarge { limit, file_name })) => {
            assert_eq!(limit, 1000);
            assert_eq!(file_name, Some("big.bin".to_string()));
        }
        other => panic!("expected too large, got {:?}", other),
    }
}

#[test]
fn too_large_without_file_name_has_none() {
    let config = PartsConfig::default().with_file_limit(3);
    let kind = classify(&config, "blob", false);
    assert_eq!(kind, BufferKind::Cursor);
    let config = config.with_file_fields(vec!["blob".to_string()]);
    let kind = classify(&config, "blob", false);
    assert_eq!(kind, BufferKind::SpillFile);
    let fed = drive(&config, kind, &[b"ab", b"cd"]);
    let part = finalize::<()>(fed.outcome, None, None, "");
    assert!(matches!(
        part,
        Part::File(Err(Error::FileTooLarge { limit: 3, file_name: None }))
    ));
}

#[test]
fn promoted_field_past_file_limit_is_too_large() {
    let config = PartsConfig::default().with_text_limit(4).with_file_limit(6);
    let fed = drive(&config, BufferKind::Cursor, &[b"abc", b"de", b"fg"]);
    assert!(matches!(fed.actions[0], Action::Buffered));
    assert!(matches!(fed.actions[1], Action::Spill(_)));
    assert!(matches!(fed.actions[2], Action::Stop(6)));
    assert_eq!(fed.file, b"abcde".to_vec());
    assert!(matches!(fed.outcome, Outcome::TooLarge(6)));
}

#[test]
fn text_limit_above_file_limit_stops_at_promotion() {
    let config = PartsConfig::default().with_text_limit(10).with_file_limit(5);
    let fed = drive(&config, BufferKind::Cursor, &[b"12345678", b"9012"]);
    assert!(matches!(fed.actions[0], Action::Buffered));
    assert!(matches!(fed.actions[1], Action::Stop(5)));
    assert!(fed.file.is_empty());
}

#[test]
fn text_field_without_text_limit_ignores_file_limit() {
    let config = PartsConfig::default().with_file_limit(2);
    let fed = drive(&config, BufferKind::Cursor, &[b"abc", b"def"]);
    match fed.outcome {
        Outcome::Text(b) => assert_eq!(b, b"abcdef".to_vec()),
        other => panic!("expected text, got {:?}", other),
    }
}

#[test]
fn limits_are_exclusive() {
    let config = PartsConfig::default().with_text_limit(5).with_file_limit(5);
    let fed = drive(&config, BufferKind::Cursor, &[b"ab", b"cde"]);
    match fed.outcome {
        Outcome::Text(b) => assert_eq!(b, b"abcde".to_vec()),
        other => panic!("expected text, got {:?}", other),
    }
    let fed = drive(&config, BufferKind::SpillFile, &[b"abcde"]);
    assert!(matches!(fed.outcome, Outcome::File));
    assert_eq!(fed.file, b"abcde".to_vec());
}

#[test]
fn empty_field_and_empty_chunks() {
    let config = PartsConfig::default().with_text_limit(0);
    let fed = drive(&config, BufferKind::Cursor, &[]);
    match fed.outcome {
        Outcome::Text(b) => assert!(b.is_empty()),
        other => panic!("expected text, got {:?}", other),
    }
    let fed = drive(&config, BufferKind::Cursor, &[b"", b"x"]);
    assert!(matches!(fed.actions[0], Action::Buffered));
    match &fed.actions[1] {
        Action::Spill(b) => assert_eq!(b, &b"x".to_vec()),
        other => panic!("expected a spill, got {:?}", other),
    }
}

#[test]
fn feeding_after_stop_keeps_stopping() {
    let config = PartsConfig::default().with_file_limit(1);
    let mut acc = Accumulator::new(BufferKind::SpillFile);
    assert!(matches!(acc.feed(&config, b"ab".to_vec()), Action::Stop(1)));
    assert!(matches!(acc.feed(&config, b"c".to_vec()), Action::Stop(1)));
    assert!(acc.can_take(usize::MAX));
    assert!(matches!(acc.finish(), Outcome::TooLarge(1)));
}

#[test]
fn count_of_bytes_must_fit() {
    let config = PartsConfig::default();
    let mut acc = Accumulator::new(BufferKind::SpillFile);
    assert!(acc.can_take(usize::MAX));
    acc.feed(&config, b"a".to_vec());
    assert!(!acc.can_take(usize::MAX));
    assert!(acc.can_take(usize::MAX - 1));
}

#[test]
fn classification_overrides() {
    let config = PartsConfig::default()
        .with_text_fields(vec!["note".to_string()])
        .with_file_fields(vec!["doc".to_string(), "scan".to_string()]);
    assert_eq!(classify(&config, "note", true), BufferKind::Cursor);
    assert_eq!(classify(&config, "other", true), BufferKind::SpillFile);
    assert_eq!(classify(&config, "scan", false), BufferKind::SpillFile);
    assert_eq!(classify(&config, "other", false), BufferKind::Cursor);
    assert_eq!(classify(&config, "doc", true), BufferKind::SpillFile);
    assert!(config.is_file_field("doc"));
    assert!(!config.is_file_field("note"));
    assert!(config.is_text_field("note"));
}

#[test]
fn builders_set_each_setting() {
    let config = PartsConfig::default();
    assert_eq!(config.text_limit(), None);
    assert_eq!(config.file_limit(), None);
    assert!(config.temp_dir().is_none());
    let config = config.with_text_limit(10).with_file_limit(20).with_temp_dir("/var/tmp/uploads");
    assert_eq!(config.text_limit(), Some(10));
    assert_eq!(config.file_limit(), Some(20));
    assert_eq!(config.temp_dir(), Some(&std::path::PathBuf::from("/var/tmp/uploads")));
}
