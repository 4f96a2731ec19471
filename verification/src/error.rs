//! What can go wrong, and the message for it.
//!
//! The variants that stand for a failure of the database, of the file system, of the network or
//! of the mail parser hold the text that describes that failure.

use vstd::prelude::*;
use vstd::string::*;

use crate::text::{concat, concat3, debug_str, quoted};

verus! {

/// A failure of a backup engine.
#[derive(Debug)]
pub enum BackupEngineError {
    EngineLoadError(String),
    EngineRunSqliteError(String),
}

/// A failure of an export engine.
#[derive(Debug)]
pub enum ExportEngineError {
    SqliteError(String),
    SqliteReadError(String),
    UnsupportedOp,
    IOErrror(String),
    MboxFormatError(String),
    MailParseError(String),
}

/// A failure of a whole run.
#[derive(Debug)]
pub enum GBackupError {
    TLSError(String),
    IMAPError(String),
    VarError(String),
    BackupConfigError(String),
    BackupError(BackupEngineError),
    ExportConfigError(String),
    ExportError(ExportEngineError),
    MailParseError(String),
}

/// The model of a [`BackupEngineError`].
pub enum BackupFailure {
    EngineLoadError(Seq<char>),
    EngineRunSqliteError(Seq<char>),
}

/// The model of an [`ExportEngineError`].
pub enum ExportFailure {
    SqliteError(Seq<char>),
    SqliteReadError(Seq<char>),
    UnsupportedOp,
    IOErrror(Seq<char>),
    MboxFormatError(Seq<char>),
    MailParseError(Seq<char>),
}

/// The model of a [`GBackupError`].
pub enum Failure {
    TLSError(Seq<char>),
    IMAPError(Seq<char>),
    VarError(Seq<char>),
    BackupConfigError(Seq<char>),
    BackupError(BackupFailure),
    ExportConfigError(Seq<char>),
    ExportError(ExportFailure),
    MailParseError(Seq<char>),
}

impl View for BackupEngineError {
    type V = BackupFailure;

    open spec fn view(&self) -> BackupFailure {
        match self {
            BackupEngineError::EngineLoadError(e) => BackupFailure::EngineLoadError(e@),
            BackupEngineError::EngineRunSqliteError(e) => BackupFailure::EngineRunSqliteError(e@),
        }
    }
}

impl View for ExportEngineError {
    type V = ExportFailure;

    open spec fn view(&self) -> ExportFailure {
        match self {
            ExportEngineError::SqliteError(e) => ExportFailure::SqliteError(e@),
            ExportEngineError::SqliteReadError(e) => ExportFailure::SqliteReadError(e@),
            ExportEngineError::UnsupportedOp => ExportFailure::UnsupportedOp,
            ExportEngineError::IOErrror(e) => ExportFailure::IOErrror(e@),
            ExportEngineError::MboxFormatError(e) => ExportFailure::MboxFormatError(e@),
            ExportEngineError::MailParseError(e) => ExportFailure::MailParseError(e@),
        }
    }
}

impl View for GBackupError {
    type V = Failure;

    open spec fn view(&self) -> Failure {
        match self {
            GBackupError::TLSError(e) => Failure::TLSError(e@),
            GBackupError::IMAPError(e) => Failure::IMAPError(e@),
            GBackupError::VarError(e) => Failure::VarError(e@),
            GBackupError::BackupConfigError(e) => Failure::BackupConfigError(e@),
            GBackupError::BackupError(e) => Failure::BackupError(e@),
            GBackupError::ExportConfigError(e) => Failure::ExportConfigError(e@),
            GBackupError::ExportError(e) => Failure::ExportError(e@),
            GBackupError::MailParseError(e) => Failure::MailParseError(e@),
        }
    }
}

/// The message for a failure of a backup engine.
pub open spec fn backup_message(failure: BackupFailure) -> Seq<char> {
    match failure {
        BackupFailure::EngineLoadError(e) => "Backup engine failed to load: "@ + e + "!"@,
        BackupFailure::EngineRunSqliteError(e) => "Backup engine issue with Sqlite DB: "@ + e
            + "!"@,
    }
}

/// The message for a failure of an export engine.
pub open spec fn export_message(failure: ExportFailure) -> Seq<char> {
    match failure {
        ExportFailure::SqliteError(e) => "Export engine issue with Sqlite DB: "@ + e + "!"@,
        ExportFailure::SqliteReadError(e) =>
            "Export engine issue while loading data from Sqlite DB: "@ + e + "!"@,
        ExportFailure::UnsupportedOp => "Operation not supported by engine"@,
        ExportFailure::IOErrror(e) => "Export engine IO error: "@ + e,
        ExportFailure::MboxFormatError(e) => "Error converting to Mbox fromat: "@ + e,
        ExportFailure::MailParseError(e) => "Export engine error parsing email: "@ + e,
    }
}

/// The message for a failure of a run.
pub open spec fn failure_message(failure: Failure) -> Seq<char> {
    match failure {
        Failure::TLSError(e) => "TLS error "@ + e,
        Failure::IMAPError(e) => "IMAP error "@ + e,
        Failure::VarError(e) => "Error loading environment var "@ + e,
        Failure::BackupConfigError(e) => "Failed to load backup config for: "@ + e + "!"@,
        Failure::BackupError(e) => "Error returned by the backup engine: "@ + backup_message(e)
            + "!"@,
        Failure::ExportConfigError(e) => "Failed to load export config for: "@ + e + "!"@,
        Failure::ExportError(e) => "Error returned by the export engine: "@ + export_message(e)
            + "!"@,
        Failure::MailParseError(e) => "Error parsing rfc822 data: "@ + e + "!"@,
    }
}

impl BackupEngineError {
    /// The message that is shown for this failure.
    pub fn message(&self) -> (text: String)
        ensures
            text@ == backup_message(self@),
            text@ == match *self {
                BackupEngineError::EngineLoadError(e) => "Backup engine failed to load: "@ + e@
                    + "!"@,
                BackupEngineError::EngineRunSqliteError(e) =>
                    "Backup engine issue with Sqlite DB: "@ + e@ + "!"@,
            },
    {
        match self {
            BackupEngineError::EngineLoadError(e) => {
                concat3("Backup engine failed to load: ", e.as_str(), "!")
            },
            BackupEngineError::EngineRunSqliteError(e) => {
                concat3("Backup engine issue with Sqlite DB: ", e.as_str(), "!")
            },
        }
    }
}

/// How a failure of an export engine is shown where it is told of: its name, and what it holds in
/// quotes.
pub open spec fn shown_failure(failure: ExportFailure) -> Seq<char> {
    match failure {
        ExportFailure::SqliteError(e) => "SqliteError("@ + quoted(e) + ")"@,
        ExportFailure::SqliteReadError(e) => "SqliteReadError("@ + quoted(e) + ")"@,
        ExportFailure::UnsupportedOp => "UnsupportedOp"@,
        ExportFailure::IOErrror(e) => "IOErrror("@ + quoted(e) + ")"@,
        ExportFailure::MboxFormatError(e) => "MboxFormatError("@ + quoted(e) + ")"@,
        ExportFailure::MailParseError(e) => "MailParseError("@ + quoted(e) + ")"@,
    }
}

impl ExportEngineError {
    /// Shows the failure as it is told of, which is what `Debug` makes of it.
    pub fn show(&self) -> (text: String)
        ensures
            text@ == shown_failure(self@),
            text@ == match *self {
                ExportEngineError::SqliteError(e) => "SqliteError("@ + quoted(e@) + ")"@,
                ExportEngineError::SqliteReadError(e) => "SqliteReadError("@ + quoted(e@) + ")"@,
                ExportEngineError::UnsupportedOp => "UnsupportedOp"@,
                ExportEngineError::IOErrror(e) => "IOErrror("@ + quoted(e@) + ")"@,
                ExportEngineError::MboxFormatError(e) => "MboxFormatError("@ + quoted(e@) + ")"@,
                ExportEngineError::MailParseError(e) => "MailParseError("@ + quoted(e@) + ")"@,
            },
    {
        match self {
            ExportEngineError::SqliteError(e) => {
                concat3("SqliteError(", debug_str(e.as_str()).as_str(), ")")
            },
            ExportEngineError::SqliteReadError(e) => {
                concat3("SqliteReadError(", debug_str(e.as_str()).as_str(), ")")
            },
            ExportEngineError::UnsupportedOp => "UnsupportedOp".to_owned(),
            ExportEngineError::IOErrror(e) => {
                concat3("IOErrror(", debug_str(e.as_str()).as_str(), ")")
            },
            ExportEngineError::MboxFormatError(e) => {
                concat3("MboxFormatError(", debug_str(e.as_str()).as_str(), ")")
            },
            ExportEngineError::MailParseError(e) => {
                concat3("MailParseError(", debug_str(e.as_str()).as_str(), ")")
            },
        }
    }

    /// The message that is shown for this failure.
    pub fn message(&self) -> (text: String)
        ensures
            text@ == export_message(self@),
            text@ == match *self {
                ExportEngineError::SqliteError(e) => "Export engine issue with Sqlite DB: "@ + e@
                    + "!"@,
                ExportEngineError::SqliteReadError(e) =>
                    "Export engine issue while loading data from Sqlite DB: "@ + e@ + "!"@,
                ExportEngineError::UnsupportedOp => "Operation not supported by engine"@,
                ExportEngineError::IOErrror(e) => "Export engine IO error: "@ + e@,
                ExportEngineError::MboxFormatError(e) => "Error converting to Mbox fromat: "@ + e@,
                ExportEngineError::MailParseError(e) => "Export engine error parsing email: "@
                    + e@,
            },
    {
        match self {
            ExportEngineError::SqliteError(e) => {
                concat3("Export engine issue with Sqlite DB: ", e.as_str(), "!")
            },
            ExportEngineError::SqliteReadError(e) => {
                concat3("Export engine issue while loading data from Sqlite DB: ", e.as_str(), "!")
            },
            ExportEngineError::UnsupportedOp => "Operation not supported by engine".to_owned(),
            ExportEngineError::IOErrror(e) => concat("Export engine IO error: ", e.as_str()),
            ExportEngineError::MboxFormatError(e) => {
                concat("Error converting to Mbox fromat: ", e.as_str())
            },
            ExportEngineError::MailParseError(e) => {
                concat("Export engine error parsing email: ", e.as_str())
            },
        }
    }
}

impl GBackupError {
    /// The message that is shown for this failure.
    pub fn message(&self) -> (text: String)
        ensures
            text@ == failure_message(self@),
            text@ == match *self {
                GBackupError::TLSError(e) => "TLS error "@ + e@,
                GBackupError::IMAPError(e) => "IMAP error "@ + e@,
                GBackupError::VarError(e) => "Error loading environment var "@ + e@,
                GBackupError::BackupConfigError(e) => "Failed to load backup config for: "@ + e@
                    + "!"@,
                GBackupError::BackupError(e) => "Error returned by the backup engine: "@
                    + backup_message(e@) + "!"@,
                GBackupError::ExportConfigError(e) => "Failed to load export config for: "@ + e@
                    + "!"@,
                GBackupError::ExportError(e) => "Error returned by the export engine: "@
                    + export_message(e@) + "!"@,
                GBackupError::MailParseError(e) => "Error parsing rfc822 data: "@ + e@ + "!"@,
            },
    {
        match self {
            GBackupError::TLSError(e) => concat("TLS error ", e.as_str()),
            GBackupError::IMAPError(e) => concat("IMAP error ", e.as_str()),
            GBackupError::VarError(e) => concat("Error loading environment var ", e.as_str()),
            GBackupError::BackupConfigError(e) => {
                concat3("Failed to load backup config for: ", e.as_str(), "!")
            },
            GBackupError::BackupError(e) => {
                concat3("Error returned by the backup engine: ", e.message().as_str(), "!")
            },
            GBackupError::ExportConfigError(e) => {
                concat3("Failed to load export config for: ", e.as_str(), "!")
            },
            GBackupError::ExportError(e) => {
                concat3("Error returned by the export engine: ", e.message().as_str(), "!")
            },
            GBackupError::MailParseError(e) => {
                concat3("Error parsing rfc822 data: ", e.as_str(), "!")
            },
        }
    }
}

/// The model of a failure says which failure it is, and the whole text that it holds.
pub proof fn model_has_the_whole_failure(
    backup: BackupEngineError,
    export: ExportEngineError,
    failure: GBackupError,
)
    ensures
        backup matches BackupEngineError::EngineLoadError(e) ==> backup@
            == BackupFailure::EngineLoadError(e@),
        backup matches BackupEngineError::EngineRunSqliteError(e) ==> backup@
            == BackupFailure::EngineRunSqliteError(e@),
        export matches ExportEngineError::SqliteError(e) ==> export@ == ExportFailure::SqliteError(
            e@,
        ),
        export matches ExportEngineError::SqliteReadError(e) ==> export@
            == ExportFailure::SqliteReadError(e@),
        export is UnsupportedOp ==> export@ == ExportFailure::UnsupportedOp,
        export matches ExportEngineError::IOErrror(e) ==> export@ == ExportFailure::IOErrror(e@),
        export matches ExportEngineError::MboxFormatError(e) ==> export@
            == ExportFailure::MboxFormatError(e@),
        export matches ExportEngineError::MailParseError(e) ==> export@
            == ExportFailure::MailParseError(e@),
        failure matches GBackupError::TLSError(e) ==> failure@ == Failure::TLSError(e@),
        failure matches GBackupError::IMAPError(e) ==> failure@ == Failure::IMAPError(e@),
        failure matches GBackupError::VarError(e) ==> failure@ == Failure::VarError(e@),
        failure matches GBackupError::BackupConfigError(e) ==> failure@
            == Failure::BackupConfigError(e@),
        failure matches GBackupError::BackupError(e) ==> failure@ == Failure::BackupError(e@),
        failure matches GBackupError::ExportConfigError(e) ==> failure@
            == Failure::ExportConfigError(e@),
        failure matches GBackupError::ExportError(e) ==> failure@ == Failure::ExportError(e@),
        failure matches GBackupError::MailParseError(e) ==> failure@ == Failure::MailParseError(
            e@,
        ),
{
}

} // verus!
