use flux_ide::error::ErrorKind;
use flux_ide::error::SinkFailure;
use flux_ide::error::TerminalError;
use flux_ide::event::TerminalInfo;
use flux_ide::registry::SessionRegistry;
use flux_ide::registry::TerminalSession;
use flux_ide::spawn::TerminalSize;

fn session(tag: u8) -> TerminalSession<Vec<u8>, (u16, u16)> {
    TerminalSession { writer: vec![tag], master: (80, 24) }
}

#[test]
fn new_registry_is_empty() {
    let registry: SessionRegistry<Vec<u8>, (u16, u16)> = SessionRegistry::new();
    assert!(registry.list_ids().is_empty());
    assert!(registry.with_master("a", |m: &(u16, u16)| *m).is_err());
}

#[test]
fn insert_lists_ids_in_order_of_registration() {
    let mut registry = SessionRegistry::new();
    assert!(registry.insert("b".to_string(), session(1)).is_none());
    assert!(registry.insert("a".to_string(), session(2)).is_none());
    assert!(registry.insert("c".to_string(), session(3)).is_none());
    assert_eq!(registry.list_ids(), vec!["b".to_string(), "a".to_string(), "c".to_string()]);
    assert!(registry.with_master("a", |m: &(u16, u16)| *m).is_ok());
    assert!(registry.with_master("d", |m: &(u16, u16)| *m).is_err());
}

#[test]
fn insert_under_a_registered_id_replaces_the_session_in_place() {
    let mut registry = SessionRegistry::new();
    registry.insert("a".to_string(), session(1));
    registry.insert("b".to_string(), session(2));
    let replaced = registry.insert("a".to_string(), session(9));
    assert_eq!(replaced.map(|s| s.writer), Some(vec![1]));
    assert_eq!(registry.list_ids(), vec!["a".to_string(), "b".to_string()]);
    let seen = registry.with_writer("a", |w: &mut Vec<u8>| w.clone());
    assert_eq!(seen.ok(), Some(vec![9]));
}

#[test]
fn registered_id_is_listed_exactly_once() {
    let mut registry = SessionRegistry::new();
    registry.insert("x".to_string(), session(1));
    registry.insert("y".to_string(), session(2));
    registry.insert("x".to_string(), session(3));
    let ids = registry.list_ids();
    assert_eq!(ids.iter().filter(|id| id.as_str() == "x").count(), 1);
    assert_eq!(ids.iter().filter(|id| id.as_str() == "y").count(), 1);
}

#[test]
fn remove_hands_back_the_session_and_keeps_the_order_of_the_rest() {
    let mut registry = SessionRegistry::new();
    registry.insert("a".to_string(), session(1));
    registry.insert("b".to_string(), session(2));
    registry.insert("c".to_string(), session(3));
    let removed = registry.remove("b");
    assert_eq!(removed.map(|s| s.writer), Some(vec![2]));
    assert_eq!(registry.list_ids(), vec!["a".to_string(), "c".to_string()]);
    assert!(registry.with_master("b", |m: &(u16, u16)| *m).is_err());
}

#[test]
fn remove_of_an_unknown_id_changes_nothing() {
    let mut registry = SessionRegistry::new();
    registry.insert("a".to_string(), session(1));
    assert!(registry.remove("zzz").is_none());
    assert_eq!(registry.list_ids(), vec!["a".to_string()]);
}

#[test]
fn remove_twice_is_the_same_as_once() {
    let mut registry = SessionRegistry::new();
    registry.insert("a".to_string(), session(1));
    registry.insert("b".to_string(), session(2));
    assert!(registry.remove("a").is_some());
    let after_once = registry.list_ids();
    assert!(registry.remove("a").is_none());
    assert_eq!(registry.list_ids(), after_once);
}

#[test]
fn with_writer_changes_only_the_sink_it_was_asked_for() {
    let mut registry = SessionRegistry::new();
    registry.insert("a".to_string(), session(1));
    registry.insert("b".to_string(), session(2));
    registry.insert("c".to_string(), session(3));
    let outcome = registry.with_writer("b", |w: &mut Vec<u8>| {
        w.extend_from_slice(b"ls\n");
        w.len()
    });
    assert_eq!(outcome.ok(), Some(4));
    assert_eq!(registry.list_ids(), vec!["a".to_string(), "b".to_string(), "c".to_string()]);
    assert_eq!(registry.with_writer("a", |w: &mut Vec<u8>| w.clone()).ok(), Some(vec![1]));
    assert_eq!(
        registry.with_writer("b", |w: &mut Vec<u8>| w.clone()).ok(),
        Some(vec![2, b'l', b's', b'\n'])
    );
    assert_eq!(registry.with_writer("c", |w: &mut Vec<u8>| w.clone()).ok(), Some(vec![3]));
    assert_eq!(registry.with_master("b", |m: &(u16, u16)| *m).ok(), Some((80, 24)));
}

#[test]
fn with_writer_on_an_unknown_id_is_not_found_and_does_not_run() {
    let mut registry = SessionRegistry::new();
    registry.insert("a".to_string(), session(1));
    let mut ran = false;
    let outcome = registry.with_writer("nope", |_w: &mut Vec<u8>| {
        ran = true;
    });
    assert!(!ran);
    match outcome {
        Err(TerminalError::NotFound(id)) => assert_eq!(id, "nope"),
        other => panic!("expected NotFound, got {:?}", other),
    }
    assert_eq!(registry.list_ids(), vec!["a".to_string()]);
}

#[test]
fn with_master_hands_back_what_the_function_returns() {
    let mut registry = SessionRegistry::new();
    registry.insert("a".to_string(), TerminalSession { writer: Vec::<u8>::new(), master: (132u16, 43u16) });
    let outcome = registry.with_master("a", |m: &(u16, u16)| m.0 + m.1);
    assert_eq!(outcome.ok(), Some(175));
}

#[test]
fn with_master_on_an_unknown_id_is_not_found() {
    let registry: SessionRegistry<Vec<u8>, (u16, u16)> = SessionRegistry::new();
    let outcome = registry.with_master("ghost", |m: &(u16, u16)| *m);
    match outcome {
        Err(error) => {
            assert_eq!(error.kind(), ErrorKind::NotFound);
            assert_eq!(error.message(), "Terminal ghost not found");
        }
        Ok(_) => panic!("expected NotFound"),
    }
}

#[test]
fn register_describes_the_session_and_lists_it() {
    let mut registry = SessionRegistry::new();
    let info = registry.register("id-1".to_string(), "/bin/zsh".to_string(), session(1));
    assert_eq!(info, TerminalInfo { id: "id-1".to_string(), shell: "/bin/zsh".to_string() });
    assert_eq!(registry.list_ids(), vec!["id-1".to_string()]);
    assert_eq!(registry.with_writer("id-1", |w: &mut Vec<u8>| w.clone()).ok(), Some(vec![1]));
}

#[test]
fn registry_write_sends_the_data_to_the_named_session_only() {
    let mut registry = SessionRegistry::new();
    registry.insert("a".to_string(), session(1));
    registry.insert("b".to_string(), session(2));
    let reply = registry.write("b", b"pwd\n", |sink: &mut Vec<u8>, data: &[u8]| {
        sink.extend_from_slice(data);
        Ok(())
    });
    assert!(reply.is_ok());
    assert_eq!(registry.with_writer("a", |w: &mut Vec<u8>| w.clone()).ok(), Some(vec![1]));
    assert_eq!(
        registry.with_writer("b", |w: &mut Vec<u8>| w.clone()).ok(),
        Some(vec![2, b'p', b'w', b'd', b'\n'])
    );
}

#[test]
fn registry_write_reports_what_the_sink_reports() {
    let mut registry = SessionRegistry::new();
    registry.insert("a".to_string(), session(1));
    let reply = registry.write("a", b"x", |_sink: &mut Vec<u8>, _data: &[u8]| {
        Err(SinkFailure::Write("disk full".to_string()))
    });
    assert!(matches!(reply, Err(TerminalError::Write(cause)) if cause == "disk full"));
    let reply = registry.write("a", b"x", |_sink: &mut Vec<u8>, _data: &[u8]| {
        Err(SinkFailure::Flush("gone".to_string()))
    });
    assert!(matches!(reply, Err(TerminalError::Flush(cause)) if cause == "gone"));
    assert_eq!(registry.list_ids(), vec!["a".to_string()]);
}

#[test]
fn registry_write_to_an_unknown_id_is_not_found() {
    let mut registry = SessionRegistry::new();
    registry.insert("a".to_string(), session(1));
    let reply = registry.write("b", b"x", |sink: &mut Vec<u8>, data: &[u8]| {
        sink.extend_from_slice(data);
        Ok(())
    });
    assert!(matches!(reply, Err(TerminalError::NotFound(id)) if id == "b"));
    assert_eq!(registry.with_writer("a", |w: &mut Vec<u8>| w.clone()).ok(), Some(vec![1]));
}

#[test]
fn registry_resize_applies_the_size_in_cells() {
    let mut registry = SessionRegistry::new();
    registry.insert("a".to_string(), session(1));
    let mut seen = None;
    let reply = registry.resize("a", 132, 43, |master: &(u16, u16), size: TerminalSize| {
        seen = Some((*master, size));
        Ok(())
    });
    assert!(reply.is_ok());
    assert_eq!(
        seen,
        Some(((80, 24), TerminalSize { rows: 43, cols: 132, pixel_width: 0, pixel_height: 0 }))
    );
}

#[test]
fn registry_resize_reports_failure_and_unknown_ids() {
    let mut registry = SessionRegistry::new();
    registry.insert("a".to_string(), session(1));
    let reply = registry.resize("a", 1, 1, |_master: &(u16, u16), _size: TerminalSize| {
        Err("too small".to_string())
    });
    assert!(matches!(reply, Err(TerminalError::Resize(cause)) if cause == "too small"));
    let reply = registry.resize("zz", 1, 1, |_master: &(u16, u16), _size: TerminalSize| Ok(()));
    assert!(matches!(reply, Err(TerminalError::NotFound(id)) if id == "zz"));
}
