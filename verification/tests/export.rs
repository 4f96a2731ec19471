use gbackup::config::{BackupEngineConfig, ExportEngineConfig, GBackupAccount, LoadPassword};
use gbackup::export::{ExportAction, ExportEvent, ExportRunner};
use gbackup::mbox::{ExportTarget, MboxAction, MboxEvent};
use gbackup::sqlite::{CREATE_TABLE, SELECT_EMAILS};

fn account(
    backup: Option<BackupEngineConfig>,
    export: Option<ExportEngineConfig>,
) -> GBackupAccount {
    GBackupAccount {
        username: "u".to_string(),
        password: LoadPassword::EnvVar { name: "P".to_string() },
        backup,
        export,
    }
}

fn sqlite() -> Option<BackupEngineConfig> {
    Some(BackupEngineConfig::Sqlite { backup_dir: "/b".to_string() })
}

fn mbox() -> Option<ExportEngineConfig> {
    Some(ExportEngineConfig::Mbox { path: Some("/m".to_string()) })
}

fn failure(action: ExportAction) -> String {
    match action {
        ExportAction::Finish(Err(e)) => e.message(),
        _ => panic!("goes on"),
    }
}

const FIRST: &str = "From: a@b.c\nDate: Fri, 30 Nov 2012 20:57:23 GMT\n\nfirst";

#[test]
fn whole_export_ends_in_the_file() {
    let mut runner = ExportRunner::new(account(sqlite(), mbox()));
    let mut written = Vec::new();
    let mut told = 0;
    let mut event = ExportEvent::Begin;
    loop {
        assert!(runner.awaits(&event));
        event = match runner.run_export(event) {
            ExportAction::OpenDatabase { dir, file, schema } => {
                assert_eq!(dir, "/b");
                assert_eq!(file, "backup.sqlite");
                assert_eq!(schema, CREATE_TABLE);
                ExportEvent::DatabaseOpened(Ok(()))
            }
            ExportAction::ReadEmails { query } => {
                assert_eq!(query, SELECT_EMAILS);
                ExportEvent::EmailsRead(vec![
                    Ok((1, FIRST.as_bytes().to_vec())),
                    Ok((2, b"Subject: none\n\n".to_vec())),
                ])
            }
            ExportAction::Export(MboxAction::Open(target)) => {
                assert!(matches!(target, ExportTarget::File(path) if path == "/m"));
                ExportEvent::Export(MboxEvent::Opened(Ok(())))
            }
            ExportAction::Export(MboxAction::Write(bytes)) => {
                written.extend_from_slice(&bytes);
                ExportEvent::Export(MboxEvent::Written(Ok(())))
            }
            ExportAction::Export(MboxAction::Tell(_)) => {
                told += 1;
                ExportEvent::Export(MboxEvent::Told)
            }
            ExportAction::Export(_) => panic!("not answered by the runner"),
            ExportAction::Finish(result) => {
                assert!(result.is_ok());
                break;
            }
        };
    }
    assert_eq!(told, 1);
    assert_eq!(written, format!("From a@b.c Fri Nov 30 20:57:23 2012\n{}\n", FIRST).into_bytes());
}

#[test]
fn export_without_a_backup_setting_fails() {
    let none = account(None, mbox());
    let shown = format!("{:?}", none);
    assert_eq!(
        failure(ExportRunner::new(none).run_export(ExportEvent::Begin)),
        format!(
            "Failed to load backup config for: Can't load engine from the empty backup config \
             for {}!",
            shown
        )
    );
}

#[test]
fn export_without_an_export_setting_fails() {
    let none = account(Some(BackupEngineConfig::Stdout { count: 1 }), None);
    let shown = format!("{:?}", none);
    let expected = format!(
        "Failed to load export config for: Can't load engine from the empty export config for {}!",
        shown
    );
    assert_eq!(failure(ExportRunner::new(none).run_export(ExportEvent::Begin)), expected);
    // The database is opened before the missing setting is noticed.
    let mut runner = ExportRunner::new(account(sqlite(), None));
    assert!(matches!(
        runner.run_export(ExportEvent::Begin),
        ExportAction::OpenDatabase { .. }
    ));
    let message = failure(runner.run_export(ExportEvent::DatabaseOpened(Ok(()))));
    assert!(message.starts_with("Failed to load export config for: "));
}

#[test]
fn export_of_shown_messages_is_not_supported() {
    let mut runner =
        ExportRunner::new(account(Some(BackupEngineConfig::Stdout { count: 1 }), mbox()));
    assert_eq!(
        failure(runner.run_export(ExportEvent::Begin)),
        "Error returned by the export engine: Operation not supported by engine!"
    );
}

#[test]
fn export_fails_where_the_database_does() {
    let mut runner = ExportRunner::new(account(sqlite(), mbox()));
    runner.run_export(ExportEvent::Begin);
    assert_eq!(
        failure(runner.run_export(ExportEvent::DatabaseOpened(Err("gone".to_string())))),
        "Error returned by the backup engine: Backup engine issue with Sqlite DB: gone!!"
    );
    let mut runner = ExportRunner::new(account(sqlite(), mbox()));
    runner.run_export(ExportEvent::Begin);
    runner.run_export(ExportEvent::DatabaseOpened(Ok(())));
    assert_eq!(
        failure(runner.run_export(ExportEvent::EmailsRead(vec![Err("torn".to_string())]))),
        "Error returned by the export engine: Export engine issue with Sqlite DB: torn!!"
    );
}

#[test]
fn export_fails_where_the_file_does() {
    let mut runner = ExportRunner::new(account(sqlite(), mbox()));
    runner.run_export(ExportEvent::Begin);
    runner.run_export(ExportEvent::DatabaseOpened(Ok(())));
    runner.run_export(ExportEvent::EmailsRead(vec![]));
    assert_eq!(
        failure(runner.run_export(ExportEvent::Export(MboxEvent::Opened(Err("ro".to_string()))))),
        "Error returned by the export engine: Export engine IO error: ro!"
    );
    assert!(!runner.awaits(&ExportEvent::Begin));
}
