use gbackup::config::{BackupEngineConfig, GBackupAccount, LoadPassword};
use gbackup::error::ExportEngineError;
use gbackup::message::Message;
use gbackup::stdout::StdoutEngine;
use std::collections::HashSet;

fn account(count: usize) -> GBackupAccount {
    GBackupAccount {
        username: "u".to_string(),
        password: LoadPassword::EnvVar { name: "P".to_string() },
        backup: Some(BackupEngineConfig::Stdout { count }),
        export: None,
    }
}

fn message(subject: Option<&[u8]>) -> Message {
    Message { uid: Some(1), body: None, subject: subject.map(|s| s.to_vec()) }
}

#[test]
fn picks_up_to_the_count() {
    let found: HashSet<u32> = [4, 5, 6].iter().copied().collect();
    let some = account(2);
    let picked = StdoutEngine::new(&some).ok().unwrap().filter_for_backup(&found).ok().unwrap();
    assert_eq!(picked.len(), 2);
    assert!(picked.is_subset(&found));
    let all = account(10);
    let picked = StdoutEngine::new(&all).ok().unwrap().filter_for_backup(&found).ok().unwrap();
    assert_eq!(picked, found);
}

#[test]
fn shows_the_subjects() {
    let account = account(2);
    let engine = StdoutEngine::new(&account).ok().unwrap();
    let lines = engine.run_backup(&vec![message(Some(b"one")), message(Some("\u{e9}".as_bytes()))]);
    assert_eq!(
        lines,
        vec![
            "Would back up message w subject: one".to_string(),
            "Would back up message w subject: \u{e9}".to_string(),
        ]
    );
    assert_eq!(engine.run_backup(&vec![]), Vec::<String>::new());
}

#[test]
fn stops_at_a_message_that_has_no_text_to_show() {
    let account = account(2);
    let engine = StdoutEngine::new(&account).ok().unwrap();
    for unshown in [None, Some(&[0xff_u8][..])] {
        let (lines, whole) =
            engine.show(&vec![message(Some(b"one")), message(unshown), message(Some(b"two"))]);
        assert_eq!(lines, vec!["Would back up message w subject: one".to_string()]);
        assert!(!whole);
    }
    let (lines, whole) = engine.show(&vec![message(Some(b""))]);
    assert_eq!(lines, vec!["Would back up message w subject: ".to_string()]);
    assert!(whole);
}

#[test]
fn keeps_nothing_to_export() {
    let account = account(2);
    let engine = StdoutEngine::new(&account).ok().unwrap();
    assert!(matches!(engine.get_all_emails_raw(), Err(ExportEngineError::UnsupportedOp)));
}
