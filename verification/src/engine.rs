//! Choosing the engines that an account is configured for.

use vstd::prelude::*;
use vstd::string::*;

use crate::config::{
    shown_account, Account, BackupEngineConfig, BackupSetting, ExportEngineConfig, GBackupAccount,
};
use crate::error::{Failure, GBackupError};
use crate::mbox::MboxEngine;
use crate::sqlite::SqliteEngine;
use crate::stdout::StdoutEngine;
use crate::text::concat;

verus! {

/// A way to back up an account.
pub enum BackupEngine<'a> {
    Stdout(Box<StdoutEngine<'a>>),
    Sqlite(Box<SqliteEngine<'a>>),
}

/// A way to export the backup of an account.
pub enum ExportEngine<'a> {
    Mbox(Box<MboxEngine<'a>>),
}

/// Why an account without a backup setting cannot be backed up.
pub open spec fn no_backup(account: Account) -> Failure {
    Failure::BackupConfigError(
        "Can't load engine from the empty backup config for "@ + shown_account(account),
    )
}

/// Why the backup of an account without an export setting cannot be exported.
pub open spec fn no_export(account: Account) -> Failure {
    Failure::ExportConfigError(
        "Can't load engine from the empty export config for "@ + shown_account(account),
    )
}

/// The backup engine that the account is configured for.
pub fn get_backup_engine<'a>(account: &'a GBackupAccount) -> (engine: Result<
    BackupEngine<'a>,
    GBackupError,
>)
    ensures
        match (account@.backup, engine) {
            (
                Some(BackupSetting::Stdout { count }),
                Ok(BackupEngine::Stdout(engine)),
            ) => engine.account == account && engine.count == count,
            (
                Some(BackupSetting::Sqlite { backup_dir }),
                Ok(BackupEngine::Sqlite(engine)),
            ) => engine.account == account && engine.backup_dir@ == backup_dir,
            (None, Err(e)) => e@ == no_backup(account@),
            _ => false,
        },
        engine is Err <==> account.backup is None,
        engine is Err ==> engine->Err_0@ == Failure::BackupConfigError(
            "Can't load engine from the empty backup config for "@ + shown_account(account@),
        ),
        account.backup matches Some(BackupEngineConfig::Stdout { count }) ==> engine->Ok_0 is Stdout
            && engine->Ok_0->Stdout_0.count == count,
        account.backup matches Some(BackupEngineConfig::Sqlite { backup_dir })
            ==> engine->Ok_0 is Sqlite && engine->Ok_0->Sqlite_0.backup_dir@ == backup_dir@,
{
    match &account.backup {
        Some(BackupEngineConfig::Stdout { .. }) => match StdoutEngine::new(account) {
            Ok(engine) => Ok(BackupEngine::Stdout(engine)),
            Err(e) => Err(GBackupError::BackupError(e)),
        },
        Some(BackupEngineConfig::Sqlite { .. }) => match SqliteEngine::new(account) {
            Ok(engine) => Ok(BackupEngine::Sqlite(engine)),
            Err(e) => Err(GBackupError::BackupError(e)),
        },
        None => Err(
            GBackupError::BackupConfigError(
                concat(
                    "Can't load engine from the empty backup config for ",
                    account.show().as_str(),
                ),
            ),
        ),
    }
}

/// The export engine that the account is configured for.
pub fn get_export_engine<'a>(account: &'a GBackupAccount) -> (engine: Result<
    ExportEngine<'a>,
    GBackupError,
>)
    ensures
        match engine {
            Ok(ExportEngine::Mbox(engine)) => account@.export is Some && engine.account == account,
            Err(e) => account@.export is None && e@ == no_export(account@),
        },
        engine is Err <==> account.export is None,
        engine is Err ==> engine->Err_0@ == Failure::ExportConfigError(
            "Can't load engine from the empty export config for "@ + shown_account(account@),
        ),
{
    match &account.export {
        Some(ExportEngineConfig::Mbox { .. }) => Ok(
            ExportEngine::Mbox(Box::new(MboxEngine { account })),
        ),
        None => Err(
            GBackupError::ExportConfigError(
                concat(
                    "Can't load engine from the empty export config for ",
                    account.show().as_str(),
                ),
            ),
        ),
    }
}

/// An account without a setting is told of with the whole account.
pub proof fn missing_setting_is_told_with_the_account(account: Account)
    ensures
        no_backup(account) == Failure::BackupConfigError(
            "Can't load engine from the empty backup config for "@ + shown_account(account),
        ),
        no_export(account) == Failure::ExportConfigError(
            "Can't load engine from the empty export config for "@ + shown_account(account),
        ),
{
}

} // verus!
