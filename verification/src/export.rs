//! Exporting the backup of an account.
//!
//! A run is driven from outside: each step says what is to be done next, and the next step is
//! told how that went.

use vstd::pervasive::unreached;
use vstd::prelude::*;
use vstd::string::*;

use crate::config::{Account, BackupSetting, GBackupAccount};
use crate::engine::{
    get_backup_engine, get_export_engine, no_backup, no_export, BackupEngine, ExportEngine,
};
use crate::error::{BackupEngineError, BackupFailure, ExportFailure, Failure, GBackupError};
use crate::mbox::{
    mbox_awaits, mbox_step, mbox_wf, target_of, MboxAction, MboxCommand, MboxEvent, MboxPhase,
    MboxReply, MboxRun, MboxState,
};
use crate::message::{Kept, Rfc822Data};
use crate::reply::{first_error, reply_view};
use crate::sqlite::{email_rows, emails_read, CREATE_TABLE, DATABASE_FILE, SELECT_EMAILS};
use crate::uids::Uid;

verus! {

/// How far an export has come.
pub enum ExportPhase {
    /// Nothing has been asked yet.
    Start,
    /// The database was asked for.
    Opening,
    /// The messages were asked for.
    Reading,
    /// The messages are being written.
    Exporting(MboxRun),
    /// The export is over.
    Done,
}

/// Exports the backup of one account.
pub struct ExportRunner {
    account: GBackupAccount,
    phase: ExportPhase,
}

/// What an export asks for.
pub enum ExportAction {
    /// Open the database of this name in this directory, and execute the statement on it.
    OpenDatabase { dir: String, file: &'static str, schema: &'static str },
    /// Run this query on the database.
    ReadEmails { query: &'static str },
    /// Do this for the export engine.
    Export(MboxAction),
    /// Nothing more.
    Finish(Result<(), GBackupError>),
}

/// How that went.
pub enum ExportEvent {
    /// The export begins.
    Begin,
    /// The database was opened, or why not.
    DatabaseOpened(Result<(), String>),
    /// The rows of the query: the identifier and the raw message, or why a row could not be
    /// read. A query that could not be started counts as such a row.
    EmailsRead(Vec<Result<(Uid, Rfc822Data), String>>),
    /// How it went for the export engine.
    Export(MboxEvent),
}

/// The model of an [`ExportPhase`].
pub enum ExportStage {
    Start,
    Opening,
    Reading,
    Exporting(MboxState),
    Done,
}

/// The model of an [`ExportRunner`].
pub struct ExportState {
    pub account: Account,
    pub stage: ExportStage,
}

/// The model of an [`ExportAction`].
pub enum ExportRequest {
    OpenDatabase { dir: Seq<char>, file: Seq<char>, schema: Seq<char> },
    ReadEmails { query: Seq<char> },
    Export(MboxCommand),
    Finish(Result<(), Failure>),
}

/// The model of an [`ExportEvent`].
pub enum ExportNews {
    Begin,
    DatabaseOpened(Result<(), Seq<char>>),
    EmailsRead(Seq<Result<Kept, Seq<char>>>),
    Export(MboxReply),
}

/// What a step leads to.
pub struct ExportOutcome {
    pub state: ExportState,
    pub request: ExportRequest,
}

impl View for ExportPhase {
    type V = ExportStage;

    open spec fn view(&self) -> ExportStage {
        match self {
            ExportPhase::Start => ExportStage::Start,
            ExportPhase::Opening => ExportStage::Opening,
            ExportPhase::Reading => ExportStage::Reading,
            ExportPhase::Exporting(run) => ExportStage::Exporting(run@),
            ExportPhase::Done => ExportStage::Done,
        }
    }
}

impl View for ExportRunner {
    type V = ExportState;

    closed spec fn view(&self) -> ExportState {
        ExportState { account: self.account@, stage: self.phase@ }
    }
}

impl View for ExportAction {
    type V = ExportRequest;

    open spec fn view(&self) -> ExportRequest {
        match self {
            ExportAction::OpenDatabase { dir, file, schema } => ExportRequest::OpenDatabase {
                dir: dir@,
                file: file@,
                schema: schema@,
            },
            ExportAction::ReadEmails { query } => ExportRequest::ReadEmails { query: query@ },
            ExportAction::Export(action) => ExportRequest::Export(action@),
            ExportAction::Finish(Ok(())) => ExportRequest::Finish(Ok(())),
            ExportAction::Finish(Err(e)) => ExportRequest::Finish(Err(e@)),
        }
    }
}

impl View for ExportEvent {
    type V = ExportNews;

    open spec fn view(&self) -> ExportNews {
        match self {
            ExportEvent::Begin => ExportNews::Begin,
            ExportEvent::DatabaseOpened(reply) => ExportNews::DatabaseOpened(reply_view(*reply)),
            ExportEvent::EmailsRead(rows) => ExportNews::EmailsRead(email_rows(rows@)),
            ExportEvent::Export(event) => ExportNews::Export(event@),
        }
    }
}

/// An export at this stage waits for news of this kind.
pub open spec fn export_awaits(stage: ExportStage, news: ExportNews) -> bool {
    match stage {
        ExportStage::Start => news is Begin,
        ExportStage::Opening => news is DatabaseOpened,
        ExportStage::Reading => news is EmailsRead,
        ExportStage::Exporting(run) => news is Export && mbox_awaits(run.phase, news->Export_0),
        ExportStage::Done => false,
    }
}

/// The account has the engines that the stage works with.
pub open spec fn export_wf(state: ExportState) -> bool {
    let keeps = state.account.backup is Some && state.account.backup->0 is Sqlite;
    match state.stage {
        ExportStage::Start => true,
        ExportStage::Opening => keeps,
        ExportStage::Reading => keeps && state.account.export is Some,
        ExportStage::Exporting(run) => state.account.export is Some && mbox_wf(run),
        ExportStage::Done => true,
    }
}

/// The export is over.
pub open spec fn export_over(account: Account, result: Result<(), Failure>) -> ExportOutcome {
    ExportOutcome {
        state: ExportState { account, stage: ExportStage::Done },
        request: ExportRequest::Finish(result),
    }
}

/// The export engine takes a step. Its end is the end of the export.
pub open spec fn export_engine_step(
    account: Account,
    run: MboxState,
    reply: MboxReply,
) -> ExportOutcome {
    let outcome = mbox_step(target_of(account), run, reply);
    match outcome.command {
        MboxCommand::Finish(Ok(())) => export_over(account, Ok(())),
        MboxCommand::Finish(Err(e)) => export_over(account, Err(Failure::ExportError(e))),
        command => ExportOutcome {
            state: ExportState { account, stage: ExportStage::Exporting(outcome.state) },
            request: ExportRequest::Export(command),
        },
    }
}

/// What news lead to, in a state that waits for them.
pub open spec fn export_step(state: ExportState, news: ExportNews) -> ExportOutcome {
    let account = state.account;
    match (state.stage, news) {
        (ExportStage::Start, ExportNews::Begin) => match account.backup {
            None => export_over(account, Err(no_backup(account))),
            Some(BackupSetting::Stdout { .. }) => if account.export is None {
                export_over(account, Err(no_export(account)))
            } else {
                export_over(account, Err(Failure::ExportError(ExportFailure::UnsupportedOp)))
            },
            Some(BackupSetting::Sqlite { backup_dir }) => ExportOutcome {
                state: ExportState { account, stage: ExportStage::Opening },
                request: ExportRequest::OpenDatabase {
                    dir: backup_dir,
                    file: DATABASE_FILE@,
                    schema: CREATE_TABLE@,
                },
            },
        },
        (ExportStage::Opening, ExportNews::DatabaseOpened(Err(e))) => export_over(
            account,
            Err(Failure::BackupError(BackupFailure::EngineRunSqliteError(e))),
        ),
        (ExportStage::Opening, ExportNews::DatabaseOpened(Ok(()))) => if account.export is None {
            export_over(account, Err(no_export(account)))
        } else {
            ExportOutcome {
                state: ExportState { account, stage: ExportStage::Reading },
                request: ExportRequest::ReadEmails { query: SELECT_EMAILS@ },
            }
        },
        (ExportStage::Reading, ExportNews::EmailsRead(rows)) => match first_error(rows) {
            Some(e) => export_over(
                account,
                Err(Failure::ExportError(ExportFailure::SqliteError(e))),
            ),
            None => export_engine_step(
                account,
                MboxState { emails: emails_read(rows), phase: MboxPhase::New },
                MboxReply::Start,
            ),
        },
        (ExportStage::Exporting(run), ExportNews::Export(reply)) => export_engine_step(
            account,
            run,
            reply,
        ),
        _ => arbitrary(),
    }
}

impl ExportRunner {
    /// An export of the backup of `account`.
    pub fn new(account: GBackupAccount) -> (runner: ExportRunner)
        ensures
            runner@ == (ExportState { account: account@, stage: ExportStage::Start }),
            export_wf(runner@),
    {
        ExportRunner { account, phase: ExportPhase::Start }
    }

    /// Whether the export waits for an event of this kind.
    pub fn awaits(&self, event: &ExportEvent) -> (b: bool)
        ensures
            b == export_awaits(self@.stage, event@),
    {
        match (&self.phase, event) {
            (ExportPhase::Start, ExportEvent::Begin) => true,
            (ExportPhase::Opening, ExportEvent::DatabaseOpened(_)) => true,
            (ExportPhase::Reading, ExportEvent::EmailsRead(_)) => true,
            (ExportPhase::Exporting(run), ExportEvent::Export(event)) => run.awaits(event),
            _ => false,
        }
    }

    fn engine_step(&mut self, run: MboxRun, event: MboxEvent) -> (action: ExportAction)
        requires
            old(self)@.account.export is Some,
            mbox_wf(run@),
            mbox_awaits(run@.phase, event@),
        ensures
            final(self)@ == export_engine_step(old(self)@.account, run@, event@).state,
            action@ == export_engine_step(old(self)@.account, run@, event@).request,
            export_wf(final(self)@),
    {
        let mut run = run;
        let action = match get_export_engine(&self.account) {
            Ok(ExportEngine::Mbox(engine)) => engine.export_emails(&mut run, event),
            Err(_) => unreached(),
        };
        match action {
            MboxAction::Finish(Ok(())) => {
                self.phase = ExportPhase::Done;
                ExportAction::Finish(Ok(()))
            },
            MboxAction::Finish(Err(e)) => {
                self.phase = ExportPhase::Done;
                ExportAction::Finish(Err(GBackupError::ExportError(e)))
            },
            action => {
                self.phase = ExportPhase::Exporting(run);
                ExportAction::Export(action)
            },
        }
    }

    fn finish(&mut self, result: Result<(), GBackupError>) -> (action: ExportAction)
        ensures
            final(self)@ == (ExportState {
                account: old(self)@.account,
                stage: ExportStage::Done,
            }),
            action == ExportAction::Finish(result),
    {
        self.phase = ExportPhase::Done;
        ExportAction::Finish(result)
    }

    /// Takes the next step of the export: what is to be done after the last event.
    ///
    /// Both engines are looked up, the database is opened, the messages are read, and the export
    /// engine writes them. The first failure ends the export.
    pub fn run_export(&mut self, event: ExportEvent) -> (action: ExportAction)
        requires
            export_wf(old(self)@),
            export_awaits(old(self)@.stage, event@),
        ensures
            export_wf(final(self)@),
            final(self)@ == export_step(old(self)@, event@).state,
            action@ == export_step(old(self)@, event@).request,
    {
        let mut phase = ExportPhase::Done;
        std::mem::swap(&mut phase, &mut self.phase);
        match (phase, event) {
            (_, ExportEvent::Begin) => {
                let engine = match get_backup_engine(&self.account) {
                    Ok(engine) => engine,
                    Err(e) => {
                        return self.finish(Err(e));
                    },
                };
                match engine {
                    BackupEngine::Stdout(engine) => {
                        if let Err(e) = get_export_engine(&self.account) {
                            return self.finish(Err(e));
                        }
                        match engine.get_all_emails_raw() {
                            Ok(_) => unreached(),
                            Err(e) => self.finish(Err(GBackupError::ExportError(e))),
                        }
                    },
                    BackupEngine::Sqlite(engine) => {
                        let dir = engine.backup_dir.clone();
                        self.phase = ExportPhase::Opening;
                        ExportAction::OpenDatabase {
                            dir,
                            file: DATABASE_FILE,
                            schema: CREATE_TABLE,
                        }
                    },
                }
            },
            (_, ExportEvent::DatabaseOpened(Err(e))) => self.finish(
                Err(GBackupError::BackupError(BackupEngineError::EngineRunSqliteError(e))),
            ),
            (_, ExportEvent::DatabaseOpened(Ok(()))) => {
                if let Err(e) = get_export_engine(&self.account) {
                    return self.finish(Err(e));
                }
                self.phase = ExportPhase::Reading;
                ExportAction::ReadEmails { query: SELECT_EMAILS }
            },
            (_, ExportEvent::EmailsRead(rows)) => {
                let emails = match get_backup_engine(&self.account) {
                    Ok(BackupEngine::Sqlite(engine)) => engine.get_all_emails_raw(rows),
                    _ => unreached(),
                };
                match emails {
                    Ok(emails) => self.engine_step(MboxRun::new(emails), MboxEvent::Start),
                    Err(e) => self.finish(Err(GBackupError::ExportError(e))),
                }
            },
            (ExportPhase::Exporting(run), ExportEvent::Export(event)) => self.engine_step(
                run,
                event,
            ),
            _ => unreached(),
        }
    }
}

} // verus!
