//! Backing up an account.
//!
//! A run is driven from outside: each step says what is to be reported and what is to be done
//! next, and the next step is told how that went.

use std::collections::HashSet;
use vstd::pervasive::unreached;
use vstd::prelude::*;
use vstd::std_specs::hash::*;
use vstd::string::*;

use crate::config::{Account, BackupSetting, GBackupAccount};
use crate::engine::{get_backup_engine, no_backup, BackupEngine};
use crate::error::{BackupEngineError, BackupFailure, Failure, GBackupError};
use crate::fetch::{
    fetch_requests, fetch_views, fetched, gather, job_views, jobs_of, session_failure, session_of,
    FetchRequest, Job, Session, SessionFailure, SessionRequest, Trouble, ALL_MAIL_INBOX, SEARCH_ALL,
};
use crate::message::{mails, Mail, Message};
use crate::reply::{first_error, reply_view};
use crate::sqlite::{uid_rows, uids_read, CREATE_TABLE, DATABASE_FILE, SELECT_UIDS};
use crate::stdout::{can_show_all, subject_lines};
use crate::store::{
    store_awaits, store_step, store_wf, StoreAction, StoreCommand, StoreEvent, StorePhase,
    StoreReply, StoreRun, StoreState,
};
use crate::text::{concat, decimal, decimal_text, join, joined, no_lines, one_line, text_views};
use crate::uids::{chunk_len, chunks, cut, list_uids, lists, numerals, share, write_numerals, Uid};

verus! {

/// How far a backup has come.
pub enum BackupPhase {
    /// Nothing has been asked yet.
    Start,
    /// The database was asked for.
    Opening,
    /// A session with the mail server was asked for.
    Connecting,
    /// The messages in the mailbox were asked for.
    Listing,
    /// The messages that are kept were asked for; these are in the mailbox.
    Filtering { found: HashSet<Uid> },
    /// The messages are being fetched.
    Fetching,
    /// The messages are being kept.
    Storing(StoreRun),
    /// The backup is over.
    Done,
}

/// Backs up one account.
pub struct BackupRunner {
    account: GBackupAccount,
    /// The number of workers that fetch messages.
    workers: usize,
    phase: BackupPhase,
}

/// What a backup asks for.
pub enum BackupAction {
    /// Open the database of this name in this directory, and execute the statement on it.
    OpenDatabase { dir: String, file: &'static str, schema: &'static str },
    /// Open a session with the mail server.
    OpenSession(SessionRequest),
    /// Select the mailbox, and search it.
    List { mailbox: &'static str, criterion: &'static str },
    /// Run this query on the database.
    ReadUids { query: &'static str },
    /// Have the workers fetch these.
    Fetch(Vec<FetchRequest>),
    /// Do this for the backup engine.
    Store(StoreAction),
    /// Give up: a message has no subject that can be shown.
    Unshown,
    /// Nothing more.
    Finish(Result<(), GBackupError>),
}

/// How that went.
pub enum BackupEvent {
    /// The backup begins.
    Begin,
    /// The database was opened, or why not.
    DatabaseOpened(Result<(), String>),
    /// The session was opened, or why not.
    SessionOpened(Result<(), SessionFailure>),
    /// The messages in the mailbox, or why they could not be listed.
    Listed(Result<HashSet<Uid>, String>),
    /// The rows of the query, or why a row could not be read. A query that could not be started
    /// counts as such a row.
    UidsRead(Vec<Result<Uid, String>>),
    /// What the workers fetched, in the order in which it came.
    Fetched(Vec<Result<Vec<Message>, SessionFailure>>),
    /// How it went for the backup engine.
    Store(StoreEvent),
}

/// One step of a backup: what it reports, line by line, and what it asks for.
pub struct BackupStep {
    pub report: Vec<String>,
    pub action: BackupAction,
}

/// The model of a [`BackupPhase`].
pub enum BackupStage {
    Start,
    Opening,
    Connecting,
    Listing,
    Filtering { found: Set<Uid> },
    Fetching,
    Storing(StoreState),
    Done,
}

/// The model of a [`BackupRunner`].
pub struct BackupState {
    pub account: Account,
    pub workers: usize,
    pub stage: BackupStage,
}

/// The model of a [`BackupAction`].
pub enum BackupRequest {
    OpenDatabase { dir: Seq<char>, file: Seq<char>, schema: Seq<char> },
    OpenSession(Session),
    List { mailbox: Seq<char>, criterion: Seq<char> },
    ReadUids { query: Seq<char> },
    Fetch(Seq<Job>),
    Store(StoreCommand),
    Unshown,
    Finish(Result<(), Failure>),
}

/// The model of a [`BackupEvent`].
pub enum BackupNews {
    Begin,
    DatabaseOpened(Result<(), Seq<char>>),
    SessionOpened(Result<(), Trouble>),
    Listed(Result<Set<Uid>, Seq<char>>),
    UidsRead(Seq<Result<Uid, Seq<char>>>),
    Fetched(Seq<Result<Seq<Mail>, Trouble>>),
    Store(StoreReply),
}

/// What a step leads to.
pub struct BackupOutcome {
    pub state: BackupState,
    pub report: Seq<Seq<char>>,
    pub request: BackupRequest,
}

impl View for BackupPhase {
    type V = BackupStage;

    open spec fn view(&self) -> BackupStage {
        match self {
            BackupPhase::Start => BackupStage::Start,
            BackupPhase::Opening => BackupStage::Opening,
            BackupPhase::Connecting => BackupStage::Connecting,
            BackupPhase::Listing => BackupStage::Listing,
            BackupPhase::Filtering { found } => BackupStage::Filtering { found: found@ },
            BackupPhase::Fetching => BackupStage::Fetching,
            BackupPhase::Storing(run) => BackupStage::Storing(run@),
            BackupPhase::Done => BackupStage::Done,
        }
    }
}

impl View for BackupRunner {
    type V = BackupState;

    closed spec fn view(&self) -> BackupState {
        BackupState { account: self.account@, workers: self.workers, stage: self.phase@ }
    }
}

impl View for BackupAction {
    type V = BackupRequest;

    open spec fn view(&self) -> BackupRequest {
        match self {
            BackupAction::OpenDatabase { dir, file, schema } => BackupRequest::OpenDatabase {
                dir: dir@,
                file: file@,
                schema: schema@,
            },
            BackupAction::OpenSession(request) => BackupRequest::OpenSession(request@),
            BackupAction::List { mailbox, criterion } => BackupRequest::List {
                mailbox: mailbox@,
                criterion: criterion@,
            },
            BackupAction::ReadUids { query } => BackupRequest::ReadUids { query: query@ },
            BackupAction::Fetch(requests) => BackupRequest::Fetch(job_views(requests@)),
            BackupAction::Store(action) => BackupRequest::Store(action@),
            BackupAction::Unshown => BackupRequest::Unshown,
            BackupAction::Finish(Ok(())) => BackupRequest::Finish(Ok(())),
            BackupAction::Finish(Err(e)) => BackupRequest::Finish(Err(e@)),
        }
    }
}

impl View for BackupEvent {
    type V = BackupNews;

    open spec fn view(&self) -> BackupNews {
        match self {
            BackupEvent::Begin => BackupNews::Begin,
            BackupEvent::DatabaseOpened(reply) => BackupNews::DatabaseOpened(reply_view(*reply)),
            BackupEvent::SessionOpened(Ok(())) => BackupNews::SessionOpened(Ok(())),
            BackupEvent::SessionOpened(Err(e)) => BackupNews::SessionOpened(Err(e@)),
            BackupEvent::Listed(Ok(found)) => BackupNews::Listed(Ok(found@)),
            BackupEvent::Listed(Err(e)) => BackupNews::Listed(Err(e@)),
            BackupEvent::UidsRead(rows) => BackupNews::UidsRead(uid_rows(rows@)),
            BackupEvent::Fetched(results) => BackupNews::Fetched(fetch_views(results@)),
            BackupEvent::Store(event) => BackupNews::Store(event@),
        }
    }
}

/// A backup at this stage waits for news of this kind.
pub open spec fn backup_awaits(stage: BackupStage, news: BackupNews) -> bool {
    match stage {
        BackupStage::Start => news is Begin,
        BackupStage::Opening => news is DatabaseOpened,
        BackupStage::Connecting => news is SessionOpened,
        BackupStage::Listing => news is Listed,
        BackupStage::Filtering { .. } => news is UidsRead,
        BackupStage::Fetching => news is Fetched,
        BackupStage::Storing(run) => news is Store && store_awaits(run.phase, news->Store_0),
        BackupStage::Done => false,
    }
}

/// The news name no more messages than can be counted.
pub open spec fn countable(news: BackupNews) -> bool {
    match news {
        BackupNews::Listed(Ok(found)) => found.len() < usize::MAX,
        _ => true,
    }
}

/// There is a worker, and the account has the engine that the stage works with.
pub open spec fn backup_wf(state: BackupState) -> bool {
    let backup = state.account.backup;
    let keeps = backup is Some && backup->0 is Sqlite;
    &&& state.workers > 0
    &&& match state.stage {
        BackupStage::Start => true,
        BackupStage::Opening => keeps,
        BackupStage::Connecting => backup is Some,
        BackupStage::Listing => backup is Some,
        BackupStage::Filtering { found } => keeps && found.finite() && found.len() < usize::MAX,
        BackupStage::Fetching => backup is Some,
        BackupStage::Storing(run) => keeps && store_wf(run),
        BackupStage::Done => true,
    }
}

/// The line that tells how many messages the mailbox has.
pub open spec fn found_line(account: Account, found: nat) -> Seq<char> {
    "Found "@ + decimal(found) + " messages in total for account "@ + account.username
}

/// The line that tells which messages are to be fetched.
pub open spec fn to_fetch_line(account: Account, list: Seq<Uid>) -> Seq<char> {
    "Uids that need backing up for account "@ + account.username + ": {"@ + joined(
        numerals(list),
        ", "@,
    ) + "}"@
}

/// The line that tells how many workers there are.
pub open spec fn workers_line(account: Account, workers: nat) -> Seq<char> {
    "Downloading messages for "@ + account.username + " with "@ + decimal(workers) + " workers"@
}

/// The line that tells that the messages are about to be kept.
pub open spec fn storing_line(account: Account) -> Seq<char> {
    "Backing up messages for "@ + account.username
}

/// The backup goes on at another stage.
pub open spec fn backup_onward(
    state: BackupState,
    stage: BackupStage,
    report: Seq<Seq<char>>,
    request: BackupRequest,
) -> BackupOutcome {
    BackupOutcome { state: BackupState { stage, ..state }, report, request }
}

/// The backup is over.
pub open spec fn backup_over(
    state: BackupState,
    report: Seq<Seq<char>>,
    result: Result<(), Failure>,
) -> BackupOutcome {
    backup_onward(state, BackupStage::Done, report, BackupRequest::Finish(result))
}

/// The messages in `list` are fetched: cut into one piece for each worker, in order. Where there
/// are none, the backup is over.
pub open spec fn download(
    state: BackupState,
    before: Seq<Seq<char>>,
    list: Seq<Uid>,
) -> BackupOutcome {
    let report = before.push(to_fetch_line(state.account, list));
    if list.len() == 0 {
        backup_over(state, report, Ok(()))
    } else {
        backup_onward(
            state,
            BackupStage::Fetching,
            report.push(workers_line(state.account, state.workers as nat)),
            BackupRequest::Fetch(
                jobs_of(state.account, chunks(list, share(list.len(), state.workers as nat))),
            ),
        )
    }
}

/// The backup engine takes a step. Its end is the end of the backup.
pub open spec fn backup_engine_step(
    state: BackupState,
    before: Seq<Seq<char>>,
    run: StoreState,
    reply: StoreReply,
) -> BackupOutcome {
    let outcome = store_step(run, reply);
    let report = before + outcome.report;
    match outcome.command {
        StoreCommand::Finish(Ok(())) => backup_over(state, report, Ok(())),
        StoreCommand::Finish(Err(e)) => backup_over(state, report, Err(Failure::BackupError(e))),
        command => backup_onward(
            state,
            BackupStage::Storing(outcome.state),
            report,
            BackupRequest::Store(command),
        ),
    }
}

/// The messages that were fetched go to the backup engine.
pub open spec fn backup_fetched(state: BackupState, messages: Seq<Mail>) -> BackupOutcome {
    let report = seq![storing_line(state.account)];
    match state.account.backup {
        Some(BackupSetting::Sqlite { .. }) => backup_engine_step(
            state,
            report,
            StoreState { mails: messages, phase: StorePhase::New },
            StoreReply::Start,
        ),
        _ => if can_show_all(messages) {
            backup_over(state, report + subject_lines(messages), Ok(()))
        } else {
            backup_onward(
                state,
                BackupStage::Done,
                report + subject_lines(messages),
                BackupRequest::Unshown,
            )
        },
    }
}

/// The messages in `list` are as many of those found as the engine shows.
pub open spec fn picks(list: Seq<Uid>, found: Set<Uid>, count: usize) -> bool {
    &&& list.no_duplicates()
    &&& list.to_set().subset_of(found)
    &&& list.len() == if found.len() < count {
        found.len()
    } else {
        count as nat
    }
}

/// As many of the messages found as the engine shows are fetched, in some order.
pub open spec fn downloads_some(
    state: BackupState,
    before: Seq<Seq<char>>,
    found: Set<Uid>,
    count: usize,
    outcome: BackupOutcome,
) -> bool {
    exists|list: Seq<Uid>| #[trigger]
        picks(list, found, count) && outcome == download(state, before, list)
}

/// The messages in `wanted` are fetched, in some order.
pub open spec fn downloads_all(
    state: BackupState,
    before: Seq<Seq<char>>,
    wanted: Set<Uid>,
    outcome: BackupOutcome,
) -> bool {
    exists|list: Seq<Uid>| #[trigger]
        lists(list, wanted) && outcome == download(state, before, list)
}

/// The session that the account asks for.
pub open spec fn backup_connect(state: BackupState) -> BackupOutcome {
    backup_onward(
        state,
        BackupStage::Connecting,
        seq![],
        BackupRequest::OpenSession(session_of(state.account)),
    )
}

/// What news can lead to, in a state that waits for them. The order in which messages are
/// fetched is open, and so is which of them are fetched where the engine shows only some.
pub open spec fn backup_step(state: BackupState, news: BackupNews, outcome: BackupOutcome) -> bool {
    let account = state.account;
    match (state.stage, news) {
        (BackupStage::Start, BackupNews::Begin) => outcome == match account.backup {
            None => backup_over(state, seq![], Err(no_backup(account))),
            Some(BackupSetting::Stdout { .. }) => backup_connect(state),
            Some(BackupSetting::Sqlite { backup_dir }) => backup_onward(
                state,
                BackupStage::Opening,
                seq![],
                BackupRequest::OpenDatabase {
                    dir: backup_dir,
                    file: DATABASE_FILE@,
                    schema: CREATE_TABLE@,
                },
            ),
        },
        (BackupStage::Opening, BackupNews::DatabaseOpened(Err(e))) => outcome == backup_over(
            state,
            seq![],
            Err(Failure::BackupError(BackupFailure::EngineRunSqliteError(e))),
        ),
        (BackupStage::Opening, BackupNews::DatabaseOpened(Ok(()))) => outcome == backup_connect(
            state,
        ),
        (BackupStage::Connecting, BackupNews::SessionOpened(Err(e))) => outcome == backup_over(
            state,
            seq![],
            Err(session_failure(e)),
        ),
        (BackupStage::Connecting, BackupNews::SessionOpened(Ok(()))) => outcome == backup_onward(
            state,
            BackupStage::Listing,
            seq![],
            BackupRequest::List { mailbox: ALL_MAIL_INBOX@, criterion: SEARCH_ALL@ },
        ),
        (BackupStage::Listing, BackupNews::Listed(Err(e))) => outcome == backup_over(
            state,
            seq![],
            Err(Failure::IMAPError(e)),
        ),
        (BackupStage::Listing, BackupNews::Listed(Ok(found))) => {
            let report = seq![found_line(account, found.len())];
            match account.backup {
                Some(BackupSetting::Stdout { count }) => downloads_some(
                    state,
                    report,
                    found,
                    count,
                    outcome,
                ),
                _ => outcome == backup_onward(
                    state,
                    BackupStage::Filtering { found },
                    report,
                    BackupRequest::ReadUids { query: SELECT_UIDS@ },
                ),
            }
        },
        (BackupStage::Filtering { found }, BackupNews::UidsRead(rows)) => match first_error(rows) {
            Some(e) => outcome == backup_over(
                state,
                seq![],
                Err(Failure::BackupError(BackupFailure::EngineRunSqliteError(e))),
            ),
            None => downloads_all(
                state,
                seq![],
                found.difference(uids_read(rows)),
                outcome,
            ),
        },
        (BackupStage::Fetching, BackupNews::Fetched(results)) => match first_error(results) {
            Some(e) => outcome == backup_over(state, seq![], Err(session_failure(e))),
            None => outcome == backup_fetched(state, fetched(results)),
        },
        (BackupStage::Storing(run), BackupNews::Store(reply)) => outcome == backup_engine_step(
            state,
            seq![],
            run,
            reply,
        ),
        _ => false,
    }
}

/// What a step of a runner led to.
pub open spec fn outcome_of(runner: BackupRunner, step: BackupStep) -> BackupOutcome {
    BackupOutcome {
        state: runner@,
        report: text_views(step.report@),
        request: step.action@,
    }
}

fn add_line(report: &mut Vec<String>, line: String)
    ensures
        text_views(final(report)@) == text_views(old(report)@).push(line@),
{
    report.push(line);
    assert(text_views(report@) =~= text_views(old(report)@).push(line@));
}

fn add_lines(report: &mut Vec<String>, lines: Vec<String>)
    ensures
        text_views(final(report)@) == text_views(old(report)@) + text_views(lines@),
{
    let mut rest = lines;
    report.append(&mut rest);
    assert(text_views(report@) =~= text_views(old(report)@) + text_views(lines@));
}

impl BackupRunner {
    /// A backup of `account` with that many workers.
    pub fn new(account: GBackupAccount, workers: usize) -> (runner: BackupRunner)
        requires
            workers > 0,
        ensures
            runner@ == (BackupState { account: account@, workers, stage: BackupStage::Start }),
            backup_wf(runner@),
    {
        BackupRunner { account, workers, phase: BackupPhase::Start }
    }

    /// Whether the backup waits for an event of this kind.
    pub fn awaits(&self, event: &BackupEvent) -> (b: bool)
        ensures
            b == backup_awaits(self@.stage, event@),
    {
        match (&self.phase, event) {
            (BackupPhase::Start, BackupEvent::Begin) => true,
            (BackupPhase::Opening, BackupEvent::DatabaseOpened(_)) => true,
            (BackupPhase::Connecting, BackupEvent::SessionOpened(_)) => true,
            (BackupPhase::Listing, BackupEvent::Listed(_)) => true,
            (BackupPhase::Filtering { .. }, BackupEvent::UidsRead(_)) => true,
            (BackupPhase::Fetching, BackupEvent::Fetched(_)) => true,
            (BackupPhase::Storing(run), BackupEvent::Store(event)) => run.awaits(event),
            _ => false,
        }
    }

    fn step(&mut self, phase: BackupPhase, report: Vec<String>, action: BackupAction) -> (step:
        BackupStep)
        ensures
            outcome_of(*final(self), step) == backup_onward(
                old(self)@,
                phase@,
                text_views(report@),
                action@,
            ),
    {
        self.phase = phase;
        BackupStep { report, action }
    }

    fn finish(&mut self, report: Vec<String>, result: Result<(), GBackupError>) -> (step:
        BackupStep)
        ensures
            outcome_of(*final(self), step) == backup_onward(
                old(self)@,
                BackupStage::Done,
                text_views(report@),
                BackupAction::Finish(result)@,
            ),
    {
        self.step(BackupPhase::Done, report, BackupAction::Finish(result))
    }

    fn connect(&mut self) -> (step: BackupStep)
        ensures
            outcome_of(*final(self), step) == backup_connect(old(self)@),
    {
        let request = BackupRunner::new_imap_session(&self.account);
        self.step(BackupPhase::Connecting, no_lines(), BackupAction::OpenSession(request))
    }

    /// Has the workers fetch the messages in `list`, each at most one piece of it, after the
    /// lines in `before` were reported. Where there are none, the backup is over.
    pub fn download(&mut self, before: Vec<String>, list: Vec<Uid>) -> (step: BackupStep)
        requires
            backup_wf(old(self)@),
            old(self)@.account.backup is Some,
            list@.len() < usize::MAX,
        ensures
            outcome_of(*final(self), step) == download(old(self)@, text_views(before@), list@),
            backup_wf(final(self)@),
    {
        let mut report = before;
        let mut line = "Uids that need backing up for account ".to_owned();
        line.append(self.account.username.as_str());
        line.append(": {");
        line.append(join(&write_numerals(&list), ", ").as_str());
        line.append("}");
        add_line(&mut report, line);
        if list.len() == 0 {
            return self.finish(report, Ok(()));
        }
        let mut line = "Downloading messages for ".to_owned();
        line.append(self.account.username.as_str());
        line.append(" with ");
        line.append(decimal_text(self.workers as u64).as_str());
        line.append(" workers");
        add_line(&mut report, line);
        let pieces = cut(&list, chunk_len(list.len(), self.workers));
        let requests = fetch_requests(&self.account, &pieces);
        self.step(BackupPhase::Fetching, report, BackupAction::Fetch(requests))
    }

    fn engine_step(&mut self, before: Vec<String>, run: StoreRun, event: StoreEvent) -> (step:
        BackupStep)
        requires
            backup_wf(old(self)@),
            old(self)@.account.backup is Some,
            old(self)@.account.backup->0 is Sqlite,
            store_wf(run@),
            store_awaits(run@.phase, event@),
        ensures
            outcome_of(*final(self), step) == backup_engine_step(
                old(self)@,
                text_views(before@),
                run@,
                event@,
            ),
            backup_wf(final(self)@),
    {
        let mut run = run;
        let mut report = before;
        let step = match get_backup_engine(&self.account) {
            Ok(BackupEngine::Sqlite(engine)) => engine.run_backup(&mut run, event),
            _ => unreached(),
        };
        add_lines(&mut report, step.report);
        match step.action {
            StoreAction::Finish(Ok(())) => self.finish(report, Ok(())),
            StoreAction::Finish(Err(e)) => {
                self.finish(report, Err(GBackupError::BackupError(e)))
            },
            action => self.step(BackupPhase::Storing(run), report, BackupAction::Store(action)),
        }
    }

    fn fetched(&mut self, messages: Vec<Message>) -> (step: BackupStep)
        requires
            backup_wf(old(self)@),
            old(self)@.account.backup is Some,
        ensures
            outcome_of(*final(self), step) == backup_fetched(old(self)@, mails(messages@)),
            backup_wf(final(self)@),
    {
        let line = concat("Backing up messages for ", self.account.username.as_str());
        let mut report = one_line(line);
        let shown = match get_backup_engine(&self.account) {
            Ok(BackupEngine::Stdout(engine)) => Some(engine.show(&messages)),
            Ok(BackupEngine::Sqlite(_)) => None,
            Err(_) => unreached(),
        };
        match shown {
            Some((lines, complete)) => {
                add_lines(&mut report, lines);
                if complete {
                    self.finish(report, Ok(()))
                } else {
                    self.step(BackupPhase::Done, report, BackupAction::Unshown)
                }
            },
            None => self.engine_step(report, StoreRun::new(messages), StoreEvent::Start),
        }
    }

    fn listed(&mut self, found: HashSet<Uid>) -> (step: BackupStep)
        requires
            backup_wf(old(self)@),
            old(self)@.account.backup is Some,
            found@.len() < usize::MAX,
        ensures
            backup_step(
                (BackupState { stage: BackupStage::Listing, ..old(self)@ }),
                BackupNews::Listed(Ok(found@)),
                outcome_of(*final(self), step),
            ),
            backup_wf(final(self)@),
    {
        broadcast use group_hash_axioms;

        let mut line = "Found ".to_owned();
        line.append(decimal_text(found.len() as u64).as_str());
        line.append(" messages in total for account ");
        line.append(self.account.username.as_str());
        let report = one_line(line);
        let picked = match get_backup_engine(&self.account) {
            Ok(BackupEngine::Stdout(engine)) => Some(engine.filter_for_backup(&found)),
            Ok(BackupEngine::Sqlite(_)) => None,
            Err(_) => unreached(),
        };
        match picked {
            Some(Ok(picked)) => {
                let list = list_uids(&picked);
                assert(picks(list@, found@, old(self)@.account.backup->0->count));
                self.download(report, list)
            },
            Some(Err(_)) => unreached(),
            None => {
                proof {
                    lemma_finite(&found);
                }
                self.step(
                    BackupPhase::Filtering { found },
                    report,
                    BackupAction::ReadUids { query: SELECT_UIDS },
                )
            },
        }
    }

    fn filtered(&mut self, found: HashSet<Uid>, rows: Vec<Result<Uid, String>>) -> (step: BackupStep)
        requires
            backup_wf(old(self)@),
            old(self)@.account.backup is Some,
            old(self)@.account.backup->0 is Sqlite,
            found@.finite(),
            found@.len() < usize::MAX,
        ensures
            backup_step(
                (BackupState { stage: BackupStage::Filtering { found: found@ }, ..old(self)@ }),
                BackupNews::UidsRead(uid_rows(rows@)),
                outcome_of(*final(self), step),
            ),
            backup_wf(final(self)@),
    {
        let rest = match get_backup_engine(&self.account) {
            Ok(BackupEngine::Sqlite(engine)) => engine.filter_for_backup(&found, &rows),
            _ => unreached(),
        };
        match rest {
            Ok(rest) => {
                let list = list_uids(&rest);
                let ghost read = uids_read(uid_rows(rows@));
                proof {
                    vstd::set_lib::lemma_len_difference(found@, read);
                }
                assert(lists(list@, found@.difference(read)));
                self.download(no_lines(), list)
            },
            Err(e) => self.finish(no_lines(), Err(GBackupError::BackupError(e))),
        }
    }

    /// Takes the next step of the backup: what is to be reported and done after the last event.
    ///
    /// The engine is looked up and its database opened, a session with the mail server is
    /// opened, and the mailbox is listed. The engine says which messages it wants. They are
    /// divided among the workers, and what these fetched goes to the engine. The first failure
    /// ends the backup.
    pub fn run_backup(&mut self, event: BackupEvent) -> (step: BackupStep)
        requires
            backup_wf(old(self)@),
            backup_awaits(old(self)@.stage, event@),
            countable(event@),
        ensures
            backup_wf(final(self)@),
            backup_step(old(self)@, event@, outcome_of(*final(self), step)),
    {
        let mut phase = BackupPhase::Done;
        std::mem::swap(&mut phase, &mut self.phase);
        match (phase, event) {
            (_, BackupEvent::Begin) => {
                let dir = match get_backup_engine(&self.account) {
                    Ok(BackupEngine::Stdout(_)) => None,
                    Ok(BackupEngine::Sqlite(engine)) => Some(engine.backup_dir.clone()),
                    Err(e) => {
                        return self.finish(no_lines(), Err(e));
                    },
                };
                match dir {
                    None => self.connect(),
                    Some(dir) => self.step(
                        BackupPhase::Opening,
                        no_lines(),
                        BackupAction::OpenDatabase {
                            dir,
                            file: DATABASE_FILE,
                            schema: CREATE_TABLE,
                        },
                    ),
                }
            },
            (_, BackupEvent::DatabaseOpened(Err(e))) => self.finish(
                no_lines(),
                Err(GBackupError::BackupError(BackupEngineError::EngineRunSqliteError(e))),
            ),
            (_, BackupEvent::DatabaseOpened(Ok(()))) => self.connect(),
            (_, BackupEvent::SessionOpened(Err(e))) => self.finish(no_lines(), Err(e.error())),
            (_, BackupEvent::SessionOpened(Ok(()))) => self.step(
                BackupPhase::Listing,
                no_lines(),
                BackupAction::List { mailbox: ALL_MAIL_INBOX, criterion: SEARCH_ALL },
            ),
            (_, BackupEvent::Listed(Err(e))) => self.finish(
                no_lines(),
                Err(GBackupError::IMAPError(e)),
            ),
            (_, BackupEvent::Listed(Ok(found))) => self.listed(found),
            (BackupPhase::Filtering { found }, BackupEvent::UidsRead(rows)) => self.filtered(
                found,
                rows,
            ),
            (_, BackupEvent::Fetched(results)) => match gather(results) {
                Ok(messages) => self.fetched(messages),
                Err(e) => self.finish(no_lines(), Err(e)),
            },
            (BackupPhase::Storing(run), BackupEvent::Store(event)) => self.engine_step(
                no_lines(),
                run,
                event,
            ),
            _ => unreached(),
        }
    }
}

proof fn lemma_finite(set: &HashSet<Uid>)
    ensures
        set@.finite(),
{
    broadcast use group_hash_axioms;
    broadcast use vstd::seq_lib::seq_to_set_is_finite;

    assert(vstd::std_specs::iter::IteratorSpec::remaining(
        &spec_hash_keys_iter(set),
    ).unref().to_set() == set@);
}

/// The outcome of a step is the runner after it, every line that it reports, and what it asks for.
pub proof fn outcome_has_the_whole_step(runner: BackupRunner, step: BackupStep)
    ensures
        outcome_of(runner, step).state == runner@,
        outcome_of(runner, step).report.len() == step.report@.len(),
        forall|i: int|
            0 <= i < step.report@.len() ==> #[trigger] outcome_of(runner, step).report[i]
                == step.report@[i]@,
        outcome_of(runner, step).request == step.action@,
{
}

} // verus!
