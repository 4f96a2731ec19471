use gbackup::backup::{BackupAction, BackupEvent, BackupRunner};
use gbackup::config::{BackupEngineConfig, GBackupAccount, LoadPassword};
use gbackup::fetch::{gather, FetchRequest, SessionFailure, SessionStep};
use gbackup::message::Message;
use gbackup::sqlite::{CREATE_TABLE, SELECT_UIDS};
use gbackup::store::{StoreAction, StoreEvent};
use std::collections::{BTreeMap, HashSet};

fn account(backup: Option<BackupEngineConfig>) -> GBackupAccount {
    GBackupAccount {
        username: "me@gmail.com".to_string(),
        password: LoadPassword::EnvVar { name: "PW".to_string() },
        backup,
        export: None,
    }
}

fn stdout(count: usize) -> GBackupAccount {
    account(Some(BackupEngineConfig::Stdout { count }))
}

fn sqlite() -> GBackupAccount {
    account(Some(BackupEngineConfig::Sqlite { backup_dir: "/b".to_string() }))
}

fn set(uids: &[u32]) -> HashSet<u32> {
    uids.iter().copied().collect()
}

fn message(uid: Option<u32>, body: Option<&str>, subject: Option<&str>) -> Message {
    Message {
        uid,
        body: body.map(|b| b.as_bytes().to_vec()),
        subject: subject.map(|s| s.as_bytes().to_vec()),
    }
}

fn failure(action: BackupAction) -> String {
    match action {
        BackupAction::Finish(Err(e)) => e.message(),
        _ => panic!("goes on"),
    }
}

fn failed(step: SessionStep, text: &str) -> SessionFailure {
    SessionFailure { step, text: text.to_string() }
}

/// The identifiers that the requests name.
fn asked(requests: &[FetchRequest]) -> Vec<u32> {
    let mut uids: Vec<u32> = requests
        .iter()
        .flat_map(|request| request.uids.split(','))
        .map(|numeral| numeral.parse().unwrap())
        .collect();
    uids.sort();
    uids
}

/// A runner that has listed the mailbox.
fn listed(account: GBackupAccount, workers: usize, found: &[u32]) -> BackupRunner {
    let mut runner = BackupRunner::new(account, workers);
    if matches!(runner.run_backup(BackupEvent::Begin).action, BackupAction::OpenDatabase { .. }) {
        runner.run_backup(BackupEvent::DatabaseOpened(Ok(())));
    }
    runner.run_backup(BackupEvent::SessionOpened(Ok(())));
    runner.run_backup(BackupEvent::Listed(Ok(set(found))));
    runner
}

#[test]
fn session_is_asked_for_with_the_password_of_the_account() {
    let account = stdout(1);
    let request = BackupRunner::new_imap_session(&account);
    assert_eq!(request.password_var, "PW");
    assert_eq!(request.host, "imap.gmail.com");
    assert_eq!(request.port, 993);
    assert_eq!(request.username, "me@gmail.com");
    assert_eq!(request.greeting, "Successfully created IMAP session for me@gmail.com");
}

#[test]
fn fetch_names_its_chunk() {
    let account = stdout(1);
    let request = BackupRunner::do_fetch(&account, &vec![9, 10]);
    assert_eq!(request.uids, "9,10");
    assert_eq!(request.mailbox, "[Gmail]/All Mail");
    assert_eq!(request.items, "BODY.PEEK[]");
    assert_eq!(request.session.username, "me@gmail.com");
}

#[test]
fn failed_steps_of_a_session_are_told_apart() {
    let message = |step| failed(step, "x").error().message();
    assert_eq!(message(SessionStep::Password), "Error loading environment var x");
    assert_eq!(message(SessionStep::Tls), "TLS error x");
    assert_eq!(message(SessionStep::Connect), "IMAP error x");
    assert_eq!(message(SessionStep::Login), "IMAP error x");
    assert_eq!(message(SessionStep::Select), "IMAP error x");
    assert_eq!(message(SessionStep::Fetch), "IMAP error x");
}

#[test]
fn unsolicited_items_are_dropped() {
    let results = vec![
        Ok(vec![message(Some(1), Some("a"), None), message(None, Some("b"), None)]),
        Ok(vec![message(Some(2), None, None), message(Some(3), Some(""), None)]),
    ];
    let uids: Vec<Option<u32>> =
        gather(results).ok().unwrap().into_iter().map(|m| m.uid).collect();
    assert_eq!(uids, vec![Some(1), Some(3)]);
}

#[test]
fn first_failure_of_a_fetch_counts() {
    let results = vec![
        Ok(vec![]),
        Err(failed(SessionStep::Fetch, "one")),
        Err(failed(SessionStep::Tls, "two")),
    ];
    match gather(results) {
        Err(e) => assert_eq!(e.message(), "IMAP error one"),
        Ok(_) => panic!("no failure"),
    }
}

#[test]
fn whole_backup_runs_through() {
    let mut runner = BackupRunner::new(sqlite(), 2);
    let mut report = Vec::new();
    let mut stored = Vec::new();
    let mut event = BackupEvent::Begin;
    loop {
        assert!(runner.awaits(&event));
        let step = runner.run_backup(event);
        report.extend(step.report);
        event = match step.action {
            BackupAction::OpenDatabase { dir, file, schema } => {
                assert_eq!((dir.as_str(), file, schema), ("/b", "backup.sqlite", CREATE_TABLE));
                BackupEvent::DatabaseOpened(Ok(()))
            }
            BackupAction::OpenSession(request) => {
                assert_eq!(request.password_var, "PW");
                BackupEvent::SessionOpened(Ok(()))
            }
            BackupAction::List { mailbox, criterion } => {
                assert_eq!((mailbox, criterion), ("[Gmail]/All Mail", "ALL"));
                BackupEvent::Listed(Ok(set(&[1, 2, 3, 4, 5])))
            }
            BackupAction::ReadUids { query } => {
                assert_eq!(query, SELECT_UIDS);
                BackupEvent::UidsRead(vec![Ok(1), Ok(2), Ok(3), Ok(4)])
            }
            BackupAction::Fetch(requests) => {
                assert_eq!(asked(&requests), vec![5]);
                BackupEvent::Fetched(vec![Ok(vec![
                    message(Some(5), Some("five"), None),
                    message(Some(6), None, None),
                ])])
            }
            BackupAction::Store(StoreAction::Begin { .. }) => {
                BackupEvent::Store(StoreEvent::Begun(Ok(())))
            }
            BackupAction::Store(StoreAction::Insert { uid, body }) => {
                stored.push((uid, body));
                BackupEvent::Store(StoreEvent::Inserted(Ok(1)))
            }
            BackupAction::Store(StoreAction::Commit) => {
                BackupEvent::Store(StoreEvent::Committed(Ok(())))
            }
            BackupAction::Store(StoreAction::Finish(_)) => panic!("not answered by the runner"),
            BackupAction::Unshown => panic!("nothing is shown"),
            BackupAction::Finish(result) => {
                assert!(result.is_ok());
                break;
            }
        };
    }
    assert_eq!(stored, vec![(5, Some(b"five".to_vec()))]);
    let expected = [
        "Found 5 messages in total for account me@gmail.com",
        "Uids that need backing up for account me@gmail.com: {5}",
        "Downloading messages for me@gmail.com with 2 workers",
        "Backing up messages for me@gmail.com",
        "To backup: 1",
        "Backed up 1/1 emails successfully",
    ];
    assert_eq!(report, expected);
}

#[test]
fn nothing_is_fetched_where_nothing_is_missing() {
    let mut runner = listed(sqlite(), 1, &[1]);
    let step = runner.run_backup(BackupEvent::UidsRead(vec![Ok(1)]));
    assert_eq!(
        step.report,
        vec!["Uids that need backing up for account me@gmail.com: {}".to_string()]
    );
    assert!(matches!(step.action, BackupAction::Finish(Ok(()))));
}

#[test]
fn workers_get_the_whole_list() {
    let mut runner = listed(sqlite(), 3, &[1, 2, 3, 4, 5, 6, 7]);
    match runner.run_backup(BackupEvent::UidsRead(vec![Ok(7)])).action {
        BackupAction::Fetch(requests) => {
            assert_eq!(requests.len(), 2);
            assert_eq!(asked(&requests), vec![1, 2, 3, 4, 5, 6]);
        }
        _ => panic!("nothing is fetched"),
    }
}

#[test]
fn subjects_are_shown_at_the_end() {
    let mut runner = BackupRunner::new(stdout(1), 1);
    assert!(matches!(
        runner.run_backup(BackupEvent::Begin).action,
        BackupAction::OpenSession(_)
    ));
    runner.run_backup(BackupEvent::SessionOpened(Ok(())));
    let step = runner.run_backup(BackupEvent::Listed(Ok(set(&[8]))));
    assert_eq!(
        step.report,
        vec![
            "Found 1 messages in total for account me@gmail.com".to_string(),
            "Uids that need backing up for account me@gmail.com: {8}".to_string(),
            "Downloading messages for me@gmail.com with 1 workers".to_string(),
        ]
    );
    let step = runner
        .run_backup(BackupEvent::Fetched(vec![Ok(vec![message(Some(8), Some("b"), Some("s"))])]));
    assert_eq!(
        step.report,
        vec![
            "Backing up messages for me@gmail.com".to_string(),
            "Would back up message w subject: s".to_string(),
        ]
    );
    assert!(matches!(step.action, BackupAction::Finish(Ok(()))));
}

#[test]
fn message_without_a_subject_cannot_be_shown() {
    let mut runner = listed(stdout(1), 1, &[8]);
    let fetched = vec![Ok(vec![message(Some(8), Some("b"), None)])];
    let step = runner.run_backup(BackupEvent::Fetched(fetched));
    assert_eq!(step.report, vec!["Backing up messages for me@gmail.com".to_string()]);
    assert!(matches!(step.action, BackupAction::Unshown));
}

#[test]
fn backup_without_a_setting_fails() {
    let none = account(None);
    let expected = format!(
        "Failed to load backup config for: Can't load engine from the empty backup config for \
         {:?}!",
        none
    );
    let mut runner = BackupRunner::new(none, 1);
    assert_eq!(failure(runner.run_backup(BackupEvent::Begin).action), expected);
    assert!(!runner.awaits(&BackupEvent::Begin));
}

#[test]
fn backup_fails_where_a_step_does() {
    let mut runner = BackupRunner::new(sqlite(), 1);
    runner.run_backup(BackupEvent::Begin);
    assert_eq!(
        failure(runner.run_backup(BackupEvent::DatabaseOpened(Err("gone".to_string()))).action),
        "Error returned by the backup engine: Backup engine issue with Sqlite DB: gone!!"
    );

    let mut runner = BackupRunner::new(stdout(1), 1);
    runner.run_backup(BackupEvent::Begin);
    let refused = failed(SessionStep::Password, "environment variable not found");
    assert_eq!(
        failure(runner.run_backup(BackupEvent::SessionOpened(Err(refused))).action),
        "Error loading environment var environment variable not found"
    );

    let mut runner = BackupRunner::new(stdout(1), 1);
    runner.run_backup(BackupEvent::Begin);
    runner.run_backup(BackupEvent::SessionOpened(Ok(())));
    assert_eq!(
        failure(runner.run_backup(BackupEvent::Listed(Err("lost".to_string()))).action),
        "IMAP error lost"
    );

    let mut runner = listed(sqlite(), 1, &[1]);
    assert_eq!(
        failure(runner.run_backup(BackupEvent::UidsRead(vec![Err("torn".to_string())])).action),
        "Error returned by the backup engine: Backup engine issue with Sqlite DB: torn!!"
    );

    let mut runner = listed(stdout(1), 1, &[1]);
    let broken = vec![Err(failed(SessionStep::Select, "cut"))];
    let step = runner.run_backup(BackupEvent::Fetched(broken));
    assert_eq!(step.report, Vec::<String>::new());
    assert_eq!(failure(step.action), "IMAP error cut");

    let mut runner = listed(sqlite(), 1, &[1]);
    runner.run_backup(BackupEvent::UidsRead(vec![]));
    runner.run_backup(BackupEvent::Fetched(vec![Ok(vec![])]));
    let locked = StoreEvent::Begun(Err("locked".to_string()));
    assert_eq!(
        failure(runner.run_backup(BackupEvent::Store(locked)).action),
        "Error returned by the backup engine: Backup engine issue with Sqlite DB: locked!!"
    );
}

#[test]
fn whole_backup_adds_the_missing_for_any_number_of_workers() {
    let body = |uid: u32| format!("body of {}", uid);
    for workers in 1..6 {
        let mut table = BTreeMap::new();
        table.insert(2, "old".to_string());
        table.insert(9, "gone from the mailbox".to_string());
        let mut pending = table.clone();
        let mut runner = BackupRunner::new(sqlite(), workers);
        let mut event = BackupEvent::Begin;
        loop {
            event = match runner.run_backup(event).action {
                BackupAction::OpenDatabase { .. } => BackupEvent::DatabaseOpened(Ok(())),
                BackupAction::OpenSession(_) => BackupEvent::SessionOpened(Ok(())),
                BackupAction::List { .. } => BackupEvent::Listed(Ok(set(&[1, 2, 3, 4, 5]))),
                BackupAction::ReadUids { .. } => {
                    BackupEvent::UidsRead(table.keys().map(|uid| Ok(*uid)).collect())
                }
                BackupAction::Fetch(requests) => {
                    assert!(requests.len() <= workers);
                    let answer = |request: &FetchRequest| {
                        let uids = request.uids.split(',').map(|n| n.parse::<u32>().unwrap());
                        Ok(uids.map(|uid| message(Some(uid), Some(&body(uid)), None)).collect())
                    };
                    BackupEvent::Fetched(requests.iter().map(answer).collect())
                }
                BackupAction::Store(StoreAction::Begin { .. }) => {
                    BackupEvent::Store(StoreEvent::Begun(Ok(())))
                }
                BackupAction::Store(StoreAction::Insert { uid, body }) => {
                    pending.insert(uid, String::from_utf8(body.unwrap()).unwrap());
                    BackupEvent::Store(StoreEvent::Inserted(Ok(1)))
                }
                BackupAction::Store(StoreAction::Commit) => {
                    table = pending.clone();
                    BackupEvent::Store(StoreEvent::Committed(Ok(())))
                }
                BackupAction::Finish(result) => {
                    assert!(result.is_ok());
                    break;
                }
                _ => panic!("not asked for"),
            };
        }
        let mut expected = BTreeMap::new();
        for uid in [1, 3, 4, 5] {
            expected.insert(uid, body(uid));
        }
        expected.insert(2, "old".to_string());
        expected.insert(9, "gone from the mailbox".to_string());
        assert_eq!(table, expected);
    }
}
