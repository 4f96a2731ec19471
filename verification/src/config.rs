//! The configuration: which accounts there are, and what is done with each.

use vstd::prelude::*;
use vstd::string::*;

use crate::text::{concat3, debug_str, decimal, decimal_text, quoted};

verus! {

/// Where the password of an account comes from.
#[derive(Debug)]
pub enum LoadPassword {
    EnvVar { name: String },
}

/// How an account is backed up.
#[derive(Debug)]
pub enum BackupEngineConfig {
    Stdout { count: usize },
    Sqlite { backup_dir: String },
}

/// How the backup of an account is exported.
#[derive(Debug)]
pub enum ExportEngineConfig {
    Mbox { path: Option<String> },
}

/// One account of the configuration.
#[derive(Debug)]
pub struct GBackupAccount {
    pub username: String,
    pub password: LoadPassword,
    pub backup: Option<BackupEngineConfig>,
    pub export: Option<ExportEngineConfig>,
}

/// The whole configuration.
#[derive(Debug)]
pub struct GBackupConfig {
    pub accounts: Vec<GBackupAccount>,
}

/// The model of a [`BackupEngineConfig`].
pub enum BackupSetting {
    Stdout { count: usize },
    Sqlite { backup_dir: Seq<char> },
}

/// The model of an [`ExportEngineConfig`].
pub enum ExportSetting {
    Mbox { path: Option<Seq<char>> },
}

/// The model of a [`GBackupAccount`].
pub struct Account {
    pub username: Seq<char>,
    pub password_var: Seq<char>,
    pub backup: Option<BackupSetting>,
    pub export: Option<ExportSetting>,
}

impl View for BackupEngineConfig {
    type V = BackupSetting;

    open spec fn view(&self) -> BackupSetting {
        match self {
            BackupEngineConfig::Stdout { count } => BackupSetting::Stdout { count: *count },
            BackupEngineConfig::Sqlite { backup_dir } => BackupSetting::Sqlite {
                backup_dir: backup_dir@,
            },
        }
    }
}

impl View for ExportEngineConfig {
    type V = ExportSetting;

    open spec fn view(&self) -> ExportSetting {
        match self {
            ExportEngineConfig::Mbox { path: Some(path) } => ExportSetting::Mbox {
                path: Some(path@),
            },
            ExportEngineConfig::Mbox { path: None } => ExportSetting::Mbox { path: None },
        }
    }
}

impl View for GBackupAccount {
    type V = Account;

    open spec fn view(&self) -> Account {
        Account {
            username: self.username@,
            password_var: match self.password {
                LoadPassword::EnvVar { name } => name@,
            },
            backup: match self.backup {
                Some(backup) => Some(backup@),
                None => None,
            },
            export: match self.export {
                Some(export) => Some(export@),
                None => None,
            },
        }
    }
}

/// How a backup setting is shown in a message.
pub open spec fn shown_backup(backup: Option<BackupSetting>) -> Seq<char> {
    match backup {
        Some(BackupSetting::Stdout { count }) => "Some(Stdout { count: "@ + decimal(count as nat)
            + " })"@,
        Some(BackupSetting::Sqlite { backup_dir }) => "Some(Sqlite { backup_dir: "@ + quoted(
            backup_dir,
        ) + " })"@,
        None => "None"@,
    }
}

/// How an export setting is shown in a message.
pub open spec fn shown_export(export: Option<ExportSetting>) -> Seq<char> {
    match export {
        Some(ExportSetting::Mbox { path: Some(path) }) => "Some(Mbox { path: Some("@ + quoted(path)
            + ") })"@,
        Some(ExportSetting::Mbox { path: None }) => "Some(Mbox { path: None })"@,
        None => "None"@,
    }
}

/// How an account is shown in a message: its fields by name, in the order of their declaration.
pub open spec fn shown_account(account: Account) -> Seq<char> {
    "GBackupAccount { username: "@ + quoted(account.username) + ", password: EnvVar { name: "@
        + quoted(account.password_var) + " }, backup: "@ + shown_backup(account.backup)
        + ", export: "@ + shown_export(account.export) + " }"@
}

fn show_backup(backup: &Option<BackupEngineConfig>) -> (text: String)
    ensures
        text@ == shown_backup(
            match *backup {
                Some(b) => Some(b@),
                None => None,
            },
        ),
{
    match backup {
        Some(BackupEngineConfig::Stdout { count }) => {
            let shown = decimal_text(*count as u64);
            concat3("Some(Stdout { count: ", shown.as_str(), " })")
        },
        Some(BackupEngineConfig::Sqlite { backup_dir }) => {
            let shown = debug_str(backup_dir.as_str());
            concat3("Some(Sqlite { backup_dir: ", shown.as_str(), " })")
        },
        None => "None".to_owned(),
    }
}

fn show_export(export: &Option<ExportEngineConfig>) -> (text: String)
    ensures
        text@ == shown_export(
            match *export {
                Some(e) => Some(e@),
                None => None,
            },
        ),
{
    match export {
        Some(ExportEngineConfig::Mbox { path: Some(path) }) => {
            let shown = debug_str(path.as_str());
            concat3("Some(Mbox { path: Some(", shown.as_str(), ") })")
        },
        Some(ExportEngineConfig::Mbox { path: None }) => "Some(Mbox { path: None })".to_owned(),
        None => "None".to_owned(),
    }
}

impl GBackupAccount {
    /// Shows the account as the messages about its configuration do, which is what `Debug` makes
    /// of it.
    pub fn show(&self) -> (text: String)
        ensures
            text@ == shown_account(self@),
            text@ == "GBackupAccount { username: "@ + quoted(self.username@)
                + ", password: EnvVar { name: "@ + quoted(self@.password_var) + " }, backup: "@ + (
            match self.backup {
                Some(BackupEngineConfig::Stdout { count }) => "Some(Stdout { count: "@ + decimal(
                    count as nat,
                ) + " })"@,
                Some(BackupEngineConfig::Sqlite { backup_dir }) => "Some(Sqlite { backup_dir: "@
                    + quoted(backup_dir@) + " })"@,
                None => "None"@,
            }) + ", export: "@ + (match self.export {
                Some(ExportEngineConfig::Mbox { path: Some(path) }) => "Some(Mbox { path: Some("@
                    + quoted(path@) + ") })"@,
                Some(ExportEngineConfig::Mbox { path: None }) => "Some(Mbox { path: None })"@,
                None => "None"@,
            }) + " }"@,
    {
        let LoadPassword::EnvVar { name } = &self.password;
        let mut text = "GBackupAccount { username: ".to_owned();
        text.append(debug_str(self.username.as_str()).as_str());
        text.append(", password: EnvVar { name: ");
        text.append(debug_str(name.as_str()).as_str());
        text.append(" }, backup: ");
        text.append(show_backup(&self.backup).as_str());
        text.append(", export: ");
        text.append(show_export(&self.export).as_str());
        text.append(" }");
        text
    }
}

/// The model of an account has all that the account has.
pub proof fn model_has_the_whole_account(account: GBackupAccount)
    ensures
        account@.username == account.username@,
        account.password matches LoadPassword::EnvVar { name } && account@.password_var == name@,
        account@.backup is None <==> account.backup is None,
        account.backup matches Some(BackupEngineConfig::Stdout { count }) ==> account@.backup
            == Some(BackupSetting::Stdout { count }),
        account.backup matches Some(BackupEngineConfig::Sqlite { backup_dir }) ==> account@.backup
            == Some(BackupSetting::Sqlite { backup_dir: backup_dir@ }),
        account@.export is None <==> account.export is None,
        account.export matches Some(ExportEngineConfig::Mbox { path: Some(path) })
            ==> account@.export == Some(ExportSetting::Mbox { path: Some(path@) }),
        account.export matches Some(ExportEngineConfig::Mbox { path: None }) ==> account@.export
            == Some(ExportSetting::Mbox { path: None }),
{
}

} // verus!
