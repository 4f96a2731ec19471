use gbackup::config::{BackupEngineConfig, ExportEngineConfig, GBackupAccount, LoadPassword};
use gbackup::engine::{get_backup_engine, get_export_engine, BackupEngine, ExportEngine};
use gbackup::error::{BackupEngineError, ExportEngineError, GBackupError};
use gbackup::sqlite::SqliteEngine;
use gbackup::stdout::StdoutEngine;
use gbackup::text::{concat3, decimal_text, join};

fn account(
    backup: Option<BackupEngineConfig>,
    export: Option<ExportEngineConfig>,
) -> GBackupAccount {
    GBackupAccount {
        username: "first \"last\"@gmail.com".to_string(),
        password: LoadPassword::EnvVar { name: "GMAIL_PASSWORD".to_string() },
        backup,
        export,
    }
}

fn stdout(count: usize) -> Option<BackupEngineConfig> {
    Some(BackupEngineConfig::Stdout { count })
}

fn sqlite(dir: &str) -> Option<BackupEngineConfig> {
    Some(BackupEngineConfig::Sqlite { backup_dir: dir.to_string() })
}

fn mbox(path: Option<&str>) -> Option<ExportEngineConfig> {
    Some(ExportEngineConfig::Mbox { path: path.map(|p| p.to_string()) })
}

#[test]
fn account_is_shown_as_debug_shows_it() {
    for account in [
        account(None, None),
        account(stdout(20), mbox(None)),
        account(sqlite("/tmp/\u{e9}\n"), mbox(Some("a\\b"))),
    ] {
        assert_eq!(account.show(), format!("{:?}", account));
    }
    assert_eq!(
        account(stdout(0), None).show(),
        "GBackupAccount { username: \"first \\\"last\\\"@gmail.com\", password: EnvVar { name: \
         \"GMAIL_PASSWORD\" }, backup: Some(Stdout { count: 0 }), export: None }"
    );
}

#[test]
fn stdout_engine_needs_its_setting() {
    let fitting = account(stdout(3), None);
    assert_eq!(StdoutEngine::new(&fitting).ok().unwrap().count, 3);
    let other = account(sqlite("d"), None);
    match StdoutEngine::new(&other) {
        Err(BackupEngineError::EngineLoadError(text)) => assert_eq!(
            text,
            format!("Can't init Stdout engine from account config {:?}", other)
        ),
        _ => panic!("no failure"),
    }
}

#[test]
fn sqlite_engine_needs_its_setting() {
    let fitting = account(sqlite("/backup"), None);
    assert_eq!(SqliteEngine::new(&fitting).ok().unwrap().backup_dir, "/backup");
    let other = account(None, None);
    match SqliteEngine::new(&other) {
        Err(e) => assert_eq!(
            e.message(),
            format!(
                "Backup engine failed to load: Can't init Sqlite engine from account config \
                 {:?}!",
                other
            )
        ),
        Ok(_) => panic!("no failure"),
    }
}

#[test]
fn backup_engine_is_the_configured_one() {
    let shown = account(stdout(1), None);
    assert!(matches!(get_backup_engine(&shown), Ok(BackupEngine::Stdout(_))));
    let kept = account(sqlite("d"), None);
    assert!(matches!(get_backup_engine(&kept), Ok(BackupEngine::Sqlite(_))));
    let none = account(None, mbox(None));
    match get_backup_engine(&none) {
        Err(GBackupError::BackupConfigError(text)) => assert_eq!(
            text,
            format!("Can't load engine from the empty backup config for {:?}", none)
        ),
        _ => panic!("no failure"),
    }
}

#[test]
fn export_engine_is_the_configured_one() {
    let exported = account(None, mbox(Some("m")));
    assert!(matches!(get_export_engine(&exported), Ok(ExportEngine::Mbox(_))));
    let none = account(stdout(1), None);
    match get_export_engine(&none) {
        Err(e) => assert_eq!(
            e.message(),
            format!(
                "Failed to load export config for: Can't load engine from the empty export \
                 config for {:?}!",
                none
            )
        ),
        Ok(_) => panic!("no failure"),
    }
}

#[test]
fn messages_for_failures() {
    let e = || "x".to_string();
    assert_eq!(
        BackupEngineError::EngineRunSqliteError(e()).message(),
        "Backup engine issue with Sqlite DB: x!"
    );
    assert_eq!(
        ExportEngineError::SqliteError(e()).message(),
        "Export engine issue with Sqlite DB: x!"
    );
    assert_eq!(
        ExportEngineError::SqliteReadError(e()).message(),
        "Export engine issue while loading data from Sqlite DB: x!"
    );
    assert_eq!(ExportEngineError::UnsupportedOp.message(), "Operation not supported by engine");
    assert_eq!(ExportEngineError::IOErrror(e()).message(), "Export engine IO error: x");
    assert_eq!(
        ExportEngineError::MboxFormatError(e()).message(),
        "Error converting to Mbox fromat: x"
    );
    assert_eq!(
        ExportEngineError::MailParseError(e()).message(),
        "Export engine error parsing email: x"
    );
    assert_eq!(GBackupError::TLSError(e()).message(), "TLS error x");
    assert_eq!(GBackupError::IMAPError(e()).message(), "IMAP error x");
    assert_eq!(GBackupError::VarError(e()).message(), "Error loading environment var x");
    assert_eq!(
        GBackupError::BackupConfigError(e()).message(),
        "Failed to load backup config for: x!"
    );
    assert_eq!(
        GBackupError::BackupError(BackupEngineError::EngineLoadError(e())).message(),
        "Error returned by the backup engine: Backup engine failed to load: x!!"
    );
    assert_eq!(
        GBackupError::ExportError(ExportEngineError::UnsupportedOp).message(),
        "Error returned by the export engine: Operation not supported by engine!"
    );
    assert_eq!(GBackupError::MailParseError(e()).message(), "Error parsing rfc822 data: x!");
}

#[test]
fn export_failures_are_shown_as_debug_shows_them() {
    let e = || "a \"b\"\n".to_string();
    for failure in [
        ExportEngineError::SqliteError(e()),
        ExportEngineError::SqliteReadError(e()),
        ExportEngineError::UnsupportedOp,
        ExportEngineError::IOErrror(e()),
        ExportEngineError::MboxFormatError(e()),
        ExportEngineError::MailParseError(e()),
    ] {
        assert_eq!(failure.show(), format!("{:?}", failure));
    }
    assert_eq!(
        ExportEngineError::MboxFormatError(e()).show(),
        "MboxFormatError(\"a \\\"b\\\"\\n\")"
    );
}

#[test]
fn decimal_numerals() {
    for n in [0u64, 7, 10, 99, 100, 4294967295, u64::MAX] {
        assert_eq!(decimal_text(n), n.to_string());
    }
}

#[test]
fn texts_are_put_together() {
    assert_eq!(concat3("a", "", "c"), "ac");
    assert_eq!(join(&vec!["x".to_string(), "y".to_string(), "z".to_string()], ", "), "x, y, z");
    assert_eq!(join(&vec![], ","), "");
}
