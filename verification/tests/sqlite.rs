use gbackup::config::{BackupEngineConfig, GBackupAccount, LoadPassword};
use gbackup::mbox::MboxEngine;
use gbackup::message::{ExportEmail, Message};
use gbackup::sqlite::{
    SqliteEngine, CREATE_TABLE, DATABASE_FILE, INSERT_EMAIL, SELECT_EMAILS, SELECT_UIDS,
};
use gbackup::store::{StoreAction, StoreEvent, StoreRun};
use rusqlite::Connection;
use std::collections::HashSet;

fn account() -> GBackupAccount {
    GBackupAccount {
        username: "u".to_string(),
        password: LoadPassword::EnvVar { name: "P".to_string() },
        backup: Some(BackupEngineConfig::Sqlite { backup_dir: "/b".to_string() }),
        export: None,
    }
}

fn message(uid: Option<u32>, body: &str) -> Message {
    Message { uid, body: Some(body.as_bytes().to_vec()), subject: None }
}

fn set(uids: &[u32]) -> HashSet<u32> {
    uids.iter().copied().collect()
}

fn open() -> Connection {
    let database = Connection::open_in_memory().unwrap();
    database.execute(CREATE_TABLE, rusqlite::NO_PARAMS).unwrap();
    database
}

/// Backs messages up into a database that refuses the insert with number `refused`.
fn store(
    database: &mut Connection,
    messages: Vec<Message>,
    refused: Option<usize>,
) -> (Vec<String>, Result<(), String>) {
    let account = account();
    let engine = SqliteEngine::new(&account).ok().unwrap();
    let mut run = StoreRun::new(messages);
    let mut report = Vec::new();
    let mut inserts = 0;
    let step = engine.run_backup(&mut run, StoreEvent::Start);
    let statement = match step.action {
        StoreAction::Begin { statement } => statement,
        _ => panic!("nothing begins"),
    };
    let transaction = database.transaction().unwrap();
    let mut event = StoreEvent::Begun(Ok(()));
    loop {
        assert!(run.awaits(&event));
        let step = engine.run_backup(&mut run, event);
        report.extend(step.report);
        event = match step.action {
            StoreAction::Begin { .. } => panic!("begins twice"),
            StoreAction::Insert { uid, body } => {
                inserts += 1;
                if refused == Some(inserts) {
                    StoreEvent::Inserted(Err("refused".to_string()))
                } else {
                    let values: [&dyn rusqlite::ToSql; 2] = [&uid, &body];
                    let done = transaction.execute(statement, &values);
                    StoreEvent::Inserted(done.map_err(|e| e.to_string()))
                }
            }
            StoreAction::Commit => {
                transaction.execute_batch("COMMIT").unwrap();
                StoreEvent::Committed(Ok(()))
            }
            StoreAction::Finish(result) => {
                return (report, result.map_err(|e| e.message()));
            }
        };
    }
}

fn rows(database: &Connection) -> Vec<Result<(u32, Vec<u8>), String>> {
    let mut statement = database.prepare(SELECT_EMAILS).unwrap();
    let rows = statement
        .query_map(rusqlite::NO_PARAMS, |row| Ok((row.get(0)?, row.get(1)?)))
        .unwrap()
        .map(|row| row.map_err(|e| e.to_string()))
        .collect();
    rows
}

fn kept(database: &Connection) -> Vec<(u32, String)> {
    let mut pairs: Vec<(u32, String)> = rows(database)
        .into_iter()
        .map(|row| row.unwrap())
        .map(|(uid, body)| (uid, String::from_utf8(body).unwrap()))
        .collect();
    pairs.sort();
    pairs
}

fn missing(database: &Connection, found: &[u32]) -> HashSet<u32> {
    let account = account();
    let engine = SqliteEngine::new(&account).ok().unwrap();
    let mut statement = database.prepare(SELECT_UIDS).unwrap();
    let uids = statement
        .query_map(rusqlite::NO_PARAMS, |row| row.get::<_, u32>(0))
        .unwrap()
        .map(|row| row.map_err(|e| e.to_string()))
        .collect();
    engine.filter_for_backup(&set(found), &uids).ok().unwrap()
}

fn pairs(list: &[(u32, &str)]) -> Vec<(u32, String)> {
    list.iter().map(|(uid, body)| (*uid, body.to_string())).collect()
}

#[test]
fn backup_is_found_under_a_fixed_name() {
    assert_eq!(DATABASE_FILE, "backup.sqlite");
    assert_eq!(
        CREATE_TABLE.split_whitespace().collect::<Vec<&str>>().join(" "),
        "CREATE TABLE IF NOT EXISTS email ( uid INTEGER PRIMARY KEY, rfc822_body BLOB )"
    );
    assert_eq!(INSERT_EMAIL, "INSERT OR REPLACE INTO email VALUES (?, ?)");
}

#[test]
fn only_missing_messages_are_asked_for() {
    let account = account();
    let engine = SqliteEngine::new(&account).ok().unwrap();
    let missing = engine.filter_for_backup(&set(&[1, 2, 3]), &vec![Ok(2), Ok(7)]);
    assert_eq!(missing.ok().unwrap(), set(&[1, 3]));
}

#[test]
fn unread_row_fails_the_choice() {
    let account = account();
    let engine = SqliteEngine::new(&account).ok().unwrap();
    let rows = vec![Ok(2), Err("first".to_string()), Err("second".to_string())];
    match engine.filter_for_backup(&set(&[1]), &rows) {
        Err(e) => assert_eq!(e.message(), "Backup engine issue with Sqlite DB: first!"),
        Ok(_) => panic!("no failure"),
    }
}

#[test]
fn emails_are_read_in_the_order_of_the_rows() {
    let account = account();
    let engine = SqliteEngine::new(&account).ok().unwrap();
    let emails: Vec<ExportEmail> =
        engine.get_all_emails_raw(vec![Ok((5, b"e".to_vec())), Ok((2, vec![]))]).ok().unwrap();
    let read: Vec<(u32, Vec<u8>)> = emails.into_iter().map(|e| (e.uid, e.raw_data)).collect();
    assert_eq!(read, vec![(5, b"e".to_vec()), (2, vec![])]);
    match engine.get_all_emails_raw(vec![Ok((1, vec![])), Err("bad".to_string())]) {
        Err(e) => assert_eq!(e.message(), "Export engine issue with Sqlite DB: bad!"),
        Ok(_) => panic!("no failure"),
    }
}

#[test]
fn backup_is_read_back() {
    let mut database = open();
    let (report, result) =
        store(&mut database, vec![message(Some(3), "three"), message(Some(1), "one")], None);
    assert_eq!(result, Ok(()));
    assert_eq!(
        report,
        vec!["To backup: 2".to_string(), "Backed up 2/2 emails successfully".to_string()]
    );
    assert_eq!(kept(&database), pairs(&[(1, "one"), (3, "three")]));
    let account = account();
    let engine = SqliteEngine::new(&account).ok().unwrap();
    let emails = engine.get_all_emails_raw(rows(&database)).ok().unwrap();
    assert_eq!(emails.len(), 2);
}

#[test]
fn later_message_replaces_an_earlier_one() {
    let mut database = open();
    store(&mut database, vec![message(Some(1), "old"), message(Some(2), "stays")], None).1.unwrap();
    store(&mut database, vec![message(Some(1), "new"), message(Some(1), "last")], None).1.unwrap();
    assert_eq!(kept(&database), pairs(&[(1, "last"), (2, "stays")]));
}

#[test]
fn keeping_twice_is_keeping_once() {
    let mut database = open();
    let list = || vec![message(Some(1), "a"), message(None, "b"), message(Some(1), "c")];
    store(&mut database, list(), None).1.unwrap();
    let once = kept(&database);
    store(&mut database, list(), None).1.unwrap();
    assert_eq!(kept(&database), once);
}

#[test]
fn database_records_the_statement_of_its_table() {
    let database = open();
    let schema: String = database
        .query_row("SELECT sql FROM sqlite_master", rusqlite::NO_PARAMS, |row| row.get(0))
        .unwrap();
    assert_eq!(
        schema,
        "CREATE TABLE email (\n                uid INTEGER PRIMARY KEY,\n                \
         rfc822_body BLOB\n            )"
    );
}

#[test]
fn message_without_uid_is_not_kept() {
    let mut database = open();
    let (report, result) =
        store(&mut database, vec![message(None, "x"), message(Some(2), "y")], None);
    assert_eq!(result, Ok(()));
    assert_eq!(
        report,
        vec!["To backup: 2".to_string(), "Backed up 1/2 emails successfully".to_string()]
    );
    assert_eq!(kept(&database), pairs(&[(2, "y")]));
}

#[test]
fn failed_backup_leaves_the_database_as_it_was() {
    let mut database = open();
    store(&mut database, vec![message(Some(1), "old")], None).1.unwrap();
    let messages = vec![message(Some(1), "new"), message(Some(2), "two")];
    let (report, result) = store(&mut database, messages, Some(2));
    assert_eq!(result, Err("Backup engine issue with Sqlite DB: refused!".to_string()));
    assert_eq!(report, vec!["To backup: 2".to_string()]);
    assert_eq!(kept(&database), pairs(&[(1, "old")]));
}

#[test]
fn backup_is_incremental() {
    let mut database = open();
    assert_eq!(missing(&database, &[1, 2, 3]), set(&[1, 2, 3]));
    store(&mut database, vec![message(Some(1), "a"), message(Some(2), "b")], None).1.unwrap();
    assert_eq!(missing(&database, &[1, 2, 3]), set(&[3]));
    store(&mut database, vec![message(Some(3), "c")], None).1.unwrap();
    assert_eq!(missing(&database, &[1, 2, 3]), set(&[]));
}

#[test]
fn refused_transaction_or_commit_fails_the_backup() {
    let account = account();
    let engine = SqliteEngine::new(&account).ok().unwrap();
    let mut run = StoreRun::new(vec![]);
    engine.run_backup(&mut run, StoreEvent::Start);
    let step = engine.run_backup(&mut run, StoreEvent::Begun(Err("locked".to_string())));
    assert_eq!(step.report, Vec::<String>::new());
    match step.action {
        StoreAction::Finish(Err(e)) => {
            assert_eq!(e.message(), "Backup engine issue with Sqlite DB: locked!")
        }
        _ => panic!("goes on"),
    }
    let mut run = StoreRun::new(vec![]);
    engine.run_backup(&mut run, StoreEvent::Start);
    let step = engine.run_backup(&mut run, StoreEvent::Begun(Ok(())));
    assert_eq!(step.report, vec!["To backup: 0".to_string()]);
    assert!(matches!(step.action, StoreAction::Commit));
    let step = engine.run_backup(&mut run, StoreEvent::Committed(Err("full".to_string())));
    assert!(step.report.is_empty());
    assert!(matches!(step.action, StoreAction::Finish(Err(_))));
}

#[test]
fn what_is_kept_has_its_entry() {
    let raw = "From: a@b.c\nDate: Fri, 30 Nov 2012 20:57:23 GMT\n\nfirst";
    let mut database = open();
    store(&mut database, vec![message(Some(1), "old"), message(Some(1), raw)], None).1.unwrap();
    let account = account();
    let engine = SqliteEngine::new(&account).ok().unwrap();
    let emails = engine.get_all_emails_raw(rows(&database)).ok().unwrap();
    let entries: Vec<Vec<u8>> =
        emails.iter().map(|email| MboxEngine::entry(email).unwrap().unwrap()).collect();
    let expected = format!("From a@b.c Fri Nov 30 20:57:23 2012\n{}\n", raw);
    assert_eq!(entries, vec![expected.into_bytes()]);
}
