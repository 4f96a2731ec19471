//! What each step of a run does: which request follows which reply, and what is told.

use vstd::prelude::*;
use vstd::utf8::*;

use crate::backup::{
    backup_awaits, backup_step, countable, download, picks, BackupAction, BackupEvent, BackupNews,
    BackupOutcome, BackupRequest, BackupStage, BackupState,
};
use crate::config::{shown_account, Account, BackupSetting};
use crate::error::{BackupFailure, ExportFailure, Failure};
use crate::export::{
    export_awaits, export_step, ExportAction, ExportEvent, ExportNews, ExportRequest, ExportStage,
    ExportState,
};
use crate::fetch::{
    account_logs_in_as_itself, fetch_views, fetched, fetches_ask_for_whole_messages, job_views,
    SessionStep, Trouble,
};
use crate::laws::{asked_for, values, workers_share_the_list};
use crate::mbox::{mbox_awaits, mbox_step, target_of, MboxCommand, MboxPhase, MboxReply, MboxState};
use crate::message::{Kept, Mail};
use crate::reply::{first_error, first_error_is_the_first};
use crate::sqlite::{
    each_row_is_read, email_rows, emails_read, kept_is_what_a_row_has, uid_rows, uids_read,
    CREATE_TABLE,
};
use crate::stdout::{shown_are_messages_with_subjects, subject_lines};
use crate::store::{store_awaits, store_step, StoreCommand, StorePhase, StoreReply, StoreState};
use crate::text::{decimal, joined};
use crate::uids::{chunks, list_has_each_member_once, lists, numerals, share, Uid};

verus! {

/// A download tells which messages are fetched and by how many workers, and asks for these
/// messages, each once, whole and from the mailbox with all mail, in no more fetches than there
/// are workers. Where there are none, the backup ends well.
pub proof fn download_asks_for_its_list(
    state: BackupState,
    before: Seq<Seq<char>>,
    list: Seq<Uid>,
)
    requires
        state.workers > 0,
    ensures
        ({
            let outcome = download(state, before, list);
            let told = before.push(
                "Uids that need backing up for account "@ + state.account.username + ": {"@
                    + joined(Seq::new(list.len(), |k: int| decimal(list[k] as nat)), ", "@) + "}"@,
            );
            &&& outcome.state.account == state.account
            &&& outcome.state.workers == state.workers
            &&& if list.len() == 0 {
                &&& outcome.report == told
                &&& outcome.request is Finish
                &&& outcome.request->Finish_0 is Ok
                &&& outcome.state.stage is Done
            } else {
                &&& outcome.report == told.push(
                    "Downloading messages for "@ + state.account.username + " with "@ + decimal(
                        state.workers as nat,
                    ) + " workers"@,
                )
                &&& outcome.state.stage is Fetching
                &&& outcome.request is Fetch
                &&& outcome.request->Fetch_0.len() <= state.workers
                &&& asked_for(outcome.request->Fetch_0) == Seq::new(
                    list.len(),
                    |k: int| list[k] as nat,
                )
                &&& forall|k: int|
                    0 <= k < outcome.request->Fetch_0.len() ==> {
                        let job = outcome.request->Fetch_0[k];
                        &&& (#[trigger] outcome.request->Fetch_0[k]).mailbox
                            == "[Gmail]/All Mail"@
                        &&& job.items == "BODY.PEEK[]"@
                        &&& job.session.host == "imap.gmail.com"@
                        &&& job.session.port == 993
                        &&& job.session.username == state.account.username
                        &&& job.session.password_var == state.account.password_var
                    }
            }
        }),
{
    assert(numerals(list) =~= Seq::new(list.len(), |k: int| decimal(list[k] as nat)));
    assert(values(list) =~= Seq::new(list.len(), |k: int| list[k] as nat));
    if list.len() > 0 {
        workers_share_the_list(state, before, list);
        let pieces = chunks(list, share(list.len(), state.workers as nat));
        account_logs_in_as_itself(state.account);
        assert forall|k: int| 0 <= k < pieces.len() implies {
            let job = download(state, before, list).request->Fetch_0[k];
            &&& (#[trigger] download(state, before, list).request->Fetch_0[k]).mailbox
                == "[Gmail]/All Mail"@
            &&& job.items == "BODY.PEEK[]"@
            &&& job.session.host == "imap.gmail.com"@
            &&& job.session.port == 993
            &&& job.session.username == state.account.username
            &&& job.session.password_var == state.account.password_var
        } by {
            fetches_ask_for_whole_messages(state.account, pieces, k);
        }
    }
}

/// A backup begins with its engine: where the account has none it fails, a database is opened, and
/// without one the mail server is asked for a session.
pub proof fn backup_begins_with_its_engine(state: BackupState, outcome: BackupOutcome)
    requires
        state.stage is Start,
        backup_step(state, BackupNews::Begin, outcome),
    ensures
        outcome.report == Seq::<Seq<char>>::empty(),
        outcome.state.account == state.account,
        outcome.state.workers == state.workers,
        match state.account.backup {
            None => {
                &&& outcome.state.stage is Done
                &&& outcome.request == BackupRequest::Finish(
                    Err(
                        Failure::BackupConfigError(
                            "Can't load engine from the empty backup config for "@
                                + shown_account(state.account),
                        ),
                    ),
                )
            },
            Some(BackupSetting::Stdout { .. }) => {
                &&& outcome.state.stage is Connecting
                &&& asks_for_session(state.account, outcome.request)
            },
            Some(BackupSetting::Sqlite { backup_dir }) => {
                &&& outcome.state.stage is Opening
                &&& outcome.request == (BackupRequest::OpenDatabase {
                    dir: backup_dir,
                    file: "backup.sqlite"@,
                    schema: CREATE_TABLE@,
                })
            },
        },
{
}

/// The request is for a session of the account at the mail server.
pub open spec fn asks_for_session(account: Account, request: BackupRequest) -> bool {
    &&& request is OpenSession
    &&& request->OpenSession_0.password_var == account.password_var
    &&& request->OpenSession_0.host == "imap.gmail.com"@
    &&& request->OpenSession_0.port == 993
    &&& request->OpenSession_0.username == account.username
    &&& request->OpenSession_0.greeting == "Successfully created IMAP session for "@
        + account.username
}

/// Once the database is open the mail server is asked for a session; a database that cannot be
/// opened ends the backup.
pub proof fn open_database_leads_to_a_session(
    state: BackupState,
    reply: Result<(), Seq<char>>,
    outcome: BackupOutcome,
)
    requires
        state.stage is Opening,
        backup_step(state, BackupNews::DatabaseOpened(reply), outcome),
    ensures
        outcome.report == Seq::<Seq<char>>::empty(),
        outcome.state.account == state.account,
        outcome.state.workers == state.workers,
        reply is Ok ==> outcome.state.stage is Connecting && asks_for_session(
            state.account,
            outcome.request,
        ),
        reply is Err ==> outcome.state.stage is Done && outcome.request == BackupRequest::Finish(
            Err(Failure::BackupError(BackupFailure::EngineRunSqliteError(reply->Err_0))),
        ),
{
}

/// A failed step of a session is the failure that its kind has: of the environment, of encryption
/// or of IMAP, with what was said about it.
pub open spec fn is_failure_of(failure: Failure, trouble: Trouble) -> bool {
    match trouble.step {
        SessionStep::Password => failure == Failure::VarError(trouble.text),
        SessionStep::Tls => failure == Failure::TLSError(trouble.text),
        _ => failure == Failure::IMAPError(trouble.text),
    }
}

/// Once the session is open the mailbox with all mail is searched for all messages; a session that
/// cannot be opened ends the backup.
pub proof fn open_session_leads_to_a_list(
    state: BackupState,
    reply: Result<(), Trouble>,
    outcome: BackupOutcome,
)
    requires
        state.stage is Connecting,
        backup_step(state, BackupNews::SessionOpened(reply), outcome),
    ensures
        outcome.report == Seq::<Seq<char>>::empty(),
        outcome.state.account == state.account,
        outcome.state.workers == state.workers,
        reply is Ok ==> outcome.state.stage is Listing && outcome.request == (
        BackupRequest::List { mailbox: "[Gmail]/All Mail"@, criterion: "ALL"@ }),
        reply is Err ==> {
            &&& outcome.state.stage is Done
            &&& outcome.request is Finish
            &&& outcome.request->Finish_0 is Err
            &&& is_failure_of(outcome.request->Finish_0->Err_0, reply->Err_0)
        },
        reply is Err && reply->Err_0.step is Password ==> outcome.request == BackupRequest::Finish(
            Err(Failure::VarError(reply->Err_0.text)),
        ),
        reply is Err && reply->Err_0.step is Tls ==> outcome.request == BackupRequest::Finish(
            Err(Failure::TLSError(reply->Err_0.text)),
        ),
        reply is Err && (reply->Err_0.step is Connect || reply->Err_0.step is Login)
            ==> outcome.request == BackupRequest::Finish(
            Err(Failure::IMAPError(reply->Err_0.text)),
        ),
{
}

/// Once the mailbox is listed it is told how many messages it has. A backup to a database then asks
/// what the database holds, and one that shows messages fetches as many of them as it shows. A
/// mailbox that cannot be listed ends the backup.
pub proof fn list_leads_to_the_choice(
    state: BackupState,
    reply: Result<Set<Uid>, Seq<char>>,
    outcome: BackupOutcome,
)
    requires
        state.stage is Listing,
        state.workers > 0,
        state.account.backup is Some,
        backup_step(state, BackupNews::Listed(reply), outcome),
    ensures
        outcome.state.account == state.account,
        outcome.state.workers == state.workers,
        reply is Err ==> {
            &&& outcome.report == Seq::<Seq<char>>::empty()
            &&& outcome.state.stage is Done
            &&& outcome.request == BackupRequest::Finish(Err(Failure::IMAPError(reply->Err_0)))
        },
        reply is Ok ==> outcome.report.len() > 0 && outcome.report[0] == "Found "@ + decimal(
            reply->Ok_0.len(),
        ) + " messages in total for account "@ + state.account.username,
        reply is Ok && state.account.backup->0 is Sqlite ==> {
            &&& outcome.report.len() == 1
            &&& outcome.state.stage == (BackupStage::Filtering { found: reply->Ok_0 })
            &&& outcome.request == (BackupRequest::ReadUids { query: "SELECT uid FROM email"@ })
        },
        reply is Ok && state.account.backup->0 is Stdout ==> {
            let found = reply->Ok_0;
            let count = state.account.backup->0->count as nat;
            let wanted = if found.len() < count {
                found.len()
            } else {
                count
            };
            if wanted == 0 {
                &&& outcome.request is Finish
                &&& outcome.request->Finish_0 is Ok
            } else {
                &&& outcome.state.stage is Fetching
                &&& outcome.request is Fetch
                &&& outcome.request->Fetch_0.len() <= state.workers
                &&& asked_for(outcome.request->Fetch_0).len() == wanted
                &&& asked_for(outcome.request->Fetch_0).no_duplicates()
                &&& forall|k: int|
                    0 <= k < wanted ==> #[trigger] asked_for(outcome.request->Fetch_0)[k] <= Uid::MAX
                        && found.contains(asked_for(outcome.request->Fetch_0)[k] as Uid)
            }
        },
{
    if reply is Ok {
        let found = reply->Ok_0;
        let before = seq![
            "Found "@ + decimal(found.len()) + " messages in total for account "@
                + state.account.username,
        ];
        if let Some(BackupSetting::Stdout { count }) = state.account.backup {
            let list = choose|list: Seq<Uid>| #[trigger]
                picks(list, found, count) && outcome == download(
                    state,
                    before,
                    list,
                );
            download_asks_for_its_list(state, before, list);
            if list.len() > 0 {
                let asked = asked_for(outcome.request->Fetch_0);
                assert forall|k: int| 0 <= k < asked.len() implies #[trigger] asked[k] <= Uid::MAX
                    && found.contains(asked[k] as Uid) by {
                    assert(list.to_set().contains(list[k]));
                    assert(asked[k] == list[k] as nat);
                }
            }
        }
    }
}

/// Where the rows of the database can all be read, a backup asks for the messages of the mailbox
/// that no row has, for each once, and for none that a row has, at whatever place. Where every
/// message has a row, the backup ends well. A row that cannot be read ends it with a failure.
pub proof fn rows_decide_what_is_fetched(
    state: BackupState,
    found: Set<Uid>,
    rows: Seq<Result<Uid, Seq<char>>>,
    outcome: BackupOutcome,
)
    requires
        state.stage == (BackupStage::Filtering { found }),
        state.workers > 0,
        backup_step(state, BackupNews::UidsRead(rows), outcome),
    ensures
        outcome.state.account == state.account,
        outcome.state.workers == state.workers,
        (exists|i: int| 0 <= i < rows.len() && (#[trigger] rows[i]) is Err) ==> {
            &&& outcome.report == Seq::<Seq<char>>::empty()
            &&& outcome.state.stage is Done
            &&& exists|i: int|
                {
                    &&& 0 <= i < rows.len()
                    &&& (#[trigger] rows[i]) is Err
                    &&& forall|k: int| 0 <= k < i ==> (#[trigger] rows[k]) is Ok
                    &&& outcome.request == BackupRequest::Finish(
                        Err(
                            Failure::BackupError(
                                BackupFailure::EngineRunSqliteError(rows[i]->Err_0),
                            ),
                        ),
                    )
                }
        },
        (forall|i: int| 0 <= i < rows.len() ==> (#[trigger] rows[i]) is Ok) ==> {
            ||| {
                &&& outcome.request is Finish
                &&& outcome.request->Finish_0 is Ok
                &&& outcome.state.stage is Done
                &&& outcome.report.len() == 1
                &&& forall|uid: Uid| #[trigger]
                    found.contains(uid) ==> rows.contains(Ok::<Uid, Seq<char>>(uid))
            }
            ||| {
                let asked = asked_for(outcome.request->Fetch_0);
                &&& outcome.request is Fetch
                &&& outcome.state.stage is Fetching
                &&& outcome.request->Fetch_0.len() <= state.workers
                &&& asked.no_duplicates()
                &&& forall|uid: Uid| #[trigger]
                    found.contains(uid) && !rows.contains(Ok::<Uid, Seq<char>>(uid))
                        <==> asked.contains(uid as nat)
                &&& outcome.report == seq![
                    "Uids that need backing up for account "@ + state.account.username + ": {"@
                        + joined(Seq::new(asked.len(), |k: int| decimal(asked[k])), ", "@) + "}"@,
                    "Downloading messages for "@ + state.account.username + " with "@ + decimal(
                        state.workers as nat,
                    ) + " workers"@,
                ]
            }
        },
{
    first_error_is_the_first(rows);
    if first_error(rows) is None {
        let wanted = found.difference(uids_read(rows));
        let list = choose|list: Seq<Uid>| #[trigger]
            lists(list, wanted) && outcome == download(state, seq![], list);
        list_has_each_member_once(list, wanted);
        download_asks_for_its_list(state, seq![], list);
        assert forall|uid: Uid| #[trigger] found.contains(uid) && !rows.contains(
            Ok::<Uid, Seq<char>>(uid),
        ) <==> list.contains(uid) by {
            kept_is_what_a_row_has(rows, uid);
            if rows.contains(Ok::<Uid, Seq<char>>(uid)) {
                let i = rows.index_of(Ok::<Uid, Seq<char>>(uid));
                assert(rows[i] == Ok::<Uid, Seq<char>>(uid));
            }
        }
        if list.len() > 0 {
            let asked = asked_for(outcome.request->Fetch_0);
            assert forall|uid: Uid| list.contains(uid) <==> asked.contains(uid as nat) by {
                if list.contains(uid) {
                    let k = list.index_of(uid);
                    assert(asked[k] == uid as nat);
                }
                if asked.contains(uid as nat) {
                    let k = asked.index_of(uid as nat);
                    assert(list[k] == uid);
                }
            }
            assert(Seq::new(list.len(), |k: int| decimal(list[k] as nat)) =~= Seq::new(
                asked.len(),
                |k: int| decimal(asked[k]),
            ));
            assert(outcome.report =~= seq![
                "Uids that need backing up for account "@ + state.account.username + ": {"@
                    + joined(Seq::new(asked.len(), |k: int| decimal(asked[k])), ", "@) + "}"@,
                "Downloading messages for "@ + state.account.username + " with "@ + decimal(
                    state.workers as nat,
                ) + " workers"@,
            ]);
        } else {
            assert forall|uid: Uid| #[trigger] found.contains(uid) implies rows.contains(
                Ok::<Uid, Seq<char>>(uid),
            ) by {
                assert(!list.contains(uid));
            }
        }
    }
}

/// What the workers fetched goes to the engine: a database is asked for a transaction with all of
/// it, and an engine that shows messages shows it. The first worker that failed ends the backup
/// with its failure.
pub proof fn fetched_messages_go_to_the_engine(
    state: BackupState,
    results: Seq<Result<Seq<Mail>, Trouble>>,
    outcome: BackupOutcome,
)
    requires
        state.stage is Fetching,
        state.account.backup is Some,
        backup_step(state, BackupNews::Fetched(results), outcome),
    ensures
        outcome.state.account == state.account,
        outcome.state.workers == state.workers,
        (exists|i: int| 0 <= i < results.len() && (#[trigger] results[i]) is Err) ==> {
            &&& outcome.report == Seq::<Seq<char>>::empty()
            &&& outcome.state.stage is Done
            &&& outcome.request is Finish
            &&& outcome.request->Finish_0 is Err
            &&& exists|i: int|
                {
                    &&& 0 <= i < results.len()
                    &&& (#[trigger] results[i]) is Err
                    &&& forall|k: int| 0 <= k < i ==> (#[trigger] results[k]) is Ok
                    &&& is_failure_of(outcome.request->Finish_0->Err_0, results[i]->Err_0)
                }
        },
        (forall|i: int| 0 <= i < results.len() ==> (#[trigger] results[i]) is Ok) ==> {
            let messages = fetched(results);
            let line = "Backing up messages for "@ + state.account.username;
            match state.account.backup->0 {
                BackupSetting::Sqlite { .. } => {
                    &&& outcome.report == seq![line]
                    &&& outcome.request == BackupRequest::Store(
                        StoreCommand::Begin {
                            statement: "INSERT OR REPLACE INTO email VALUES (?, ?)"@,
                        },
                    )
                    &&& outcome.state.stage == BackupStage::Storing(
                        StoreState { mails: messages, phase: StorePhase::Beginning },
                    )
                },
                BackupSetting::Stdout { .. } => {
                    let whole = forall|i: int|
                        0 <= i < messages.len() ==> (#[trigger] messages[i]).subject is Some
                            && valid_utf8(messages[i].subject->0);
                    &&& outcome.report == seq![line] + subject_lines(messages)
                    &&& outcome.state.stage is Done
                    &&& whole ==> outcome.request is Finish && outcome.request->Finish_0 is Ok
                    &&& !whole ==> outcome.request is Unshown
                },
            }
        },
{
    first_error_is_the_first(results);
    shown_are_messages_with_subjects(fetched(results));
    if first_error(results) is None && state.account.backup->0 is Sqlite {
        let line = "Backing up messages for "@ + state.account.username;
        assert(seq![line] + Seq::<Seq<char>>::empty() =~= seq![line]);
    }
}

/// While messages are kept, the engine takes the steps. The end of its run is the end of the
/// backup, and its failure is that of the backup.
pub proof fn engine_takes_the_steps(
    state: BackupState,
    run: StoreState,
    reply: StoreReply,
    outcome: BackupOutcome,
)
    requires
        state.stage == BackupStage::Storing(run),
        backup_step(state, BackupNews::Store(reply), outcome),
    ensures
        outcome.state.account == state.account,
        outcome.state.workers == state.workers,
        outcome.report == store_step(run, reply).report,
        match store_step(run, reply).command {
            StoreCommand::Finish(result) => {
                &&& outcome.state.stage is Done
                &&& outcome.request is Finish
                &&& result is Ok ==> outcome.request->Finish_0 is Ok
                &&& result is Err ==> outcome.request == BackupRequest::Finish(
                    Err(Failure::BackupError(result->Err_0)),
                )
            },
            command => {
                &&& outcome.request == BackupRequest::Store(command)
                &&& outcome.state.stage == BackupStage::Storing(store_step(run, reply).state)
            },
        },
{
    assert(Seq::<Seq<char>>::empty() + store_step(run, reply).report =~= store_step(
        run,
        reply,
    ).report);
}

/// A backup waits for the reply to what it has asked for, and for no other.
pub proof fn backup_waits_for_its_reply(stage: BackupStage, news: BackupNews)
    ensures
        backup_awaits(stage, news) <==> {
            ||| stage is Start && news is Begin
            ||| stage is Opening && news is DatabaseOpened
            ||| stage is Connecting && news is SessionOpened
            ||| stage is Listing && news is Listed
            ||| stage is Filtering && news is UidsRead
            ||| stage is Fetching && news is Fetched
            ||| stage is Storing && news is Store && store_awaits(
                stage->Storing_0.phase,
                news->Store_0,
            )
        },
{
}

/// A list of messages can be too long only where its length cannot be counted further.
pub proof fn any_list_can_be_counted(news: BackupNews)
    requires
        news matches BackupNews::Listed(Ok(found)) ==> found.len() < usize::MAX,
    ensures
        countable(news),
{
}

/// The models of what a backup asks for, and of how that went, have all that these have.
pub proof fn models_have_the_whole_backup(action: BackupAction, event: BackupEvent)
    ensures
        action matches BackupAction::OpenDatabase { dir, file, schema } ==> action@ == (
        BackupRequest::OpenDatabase { dir: dir@, file: file@, schema: schema@ }),
        action matches BackupAction::OpenSession(request) ==> {
            &&& action@ is OpenSession
            &&& action@->OpenSession_0.password_var == request.password_var@
            &&& action@->OpenSession_0.host == request.host@
            &&& action@->OpenSession_0.port == request.port
            &&& action@->OpenSession_0.username == request.username@
            &&& action@->OpenSession_0.greeting == request.greeting@
        },
        action matches BackupAction::List { mailbox, criterion } ==> action@ == (
        BackupRequest::List { mailbox: mailbox@, criterion: criterion@ }),
        action matches BackupAction::ReadUids { query } ==> action@ == (BackupRequest::ReadUids {
            query: query@,
        }),
        action matches BackupAction::Fetch(requests) ==> action@ == BackupRequest::Fetch(
            job_views(requests@),
        ),
        action matches BackupAction::Store(action_) ==> action@ == BackupRequest::Store(action_@),
        action is Unshown ==> action@ is Unshown,
        action matches BackupAction::Finish(Ok(())) ==> action@ is Finish && action@->Finish_0
            is Ok,
        action matches BackupAction::Finish(Err(e)) ==> action@ == BackupRequest::Finish(Err(e@)),
        event is Begin ==> event@ is Begin,
        event matches BackupEvent::DatabaseOpened(Ok(())) ==> event@ is DatabaseOpened
            && event@->DatabaseOpened_0 is Ok,
        event matches BackupEvent::DatabaseOpened(Err(e)) ==> event@
            == BackupNews::DatabaseOpened(Err(e@)),
        event matches BackupEvent::SessionOpened(Ok(())) ==> event@ is SessionOpened
            && event@->SessionOpened_0 is Ok,
        event matches BackupEvent::SessionOpened(Err(e)) ==> event@ == BackupNews::SessionOpened(
            Err(Trouble { step: e.step, text: e.text@ }),
        ),
        event matches BackupEvent::Listed(Ok(found)) ==> event@ == BackupNews::Listed(Ok(found@)),
        event matches BackupEvent::Listed(Err(e)) ==> event@ == BackupNews::Listed(Err(e@)),
        event matches BackupEvent::UidsRead(rows) ==> event@ == BackupNews::UidsRead(
            uid_rows(rows@),
        ),
        event matches BackupEvent::Fetched(results) ==> event@ == BackupNews::Fetched(
            fetch_views(results@),
        ),
        event matches BackupEvent::Store(event_) ==> event@ == BackupNews::Store(event_@),
{
}

/// An export begins with both engines: it fails where one of them is not configured, or where the
/// backup engine keeps nothing, and a database is opened.
pub proof fn export_begins_with_its_engines(account: Account)
    ensures
        ({
            let outcome = export_step(
                ExportState { account, stage: ExportStage::Start },
                ExportNews::Begin,
            );
            &&& outcome.state.account == account
            &&& match account.backup {
                None => {
                    &&& outcome.state.stage is Done
                    &&& outcome.request == ExportRequest::Finish(
                        Err(
                            Failure::BackupConfigError(
                                "Can't load engine from the empty backup config for "@
                                    + shown_account(account),
                            ),
                        ),
                    )
                },
                Some(BackupSetting::Stdout { .. }) => {
                    &&& outcome.state.stage is Done
                    &&& account.export is None ==> outcome.request == ExportRequest::Finish(
                        Err(
                            Failure::ExportConfigError(
                                "Can't load engine from the empty export config for "@
                                    + shown_account(account),
                            ),
                        ),
                    )
                    &&& account.export is Some ==> outcome.request == ExportRequest::Finish(
                        Err(Failure::ExportError(ExportFailure::UnsupportedOp)),
                    )
                },
                Some(BackupSetting::Sqlite { backup_dir }) => {
                    &&& outcome.state.stage is Opening
                    &&& outcome.request == (ExportRequest::OpenDatabase {
                        dir: backup_dir,
                        file: "backup.sqlite"@,
                        schema: CREATE_TABLE@,
                    })
                },
            }
        }),
{
}

/// Once the database is open all messages are asked for; a database that cannot be opened, or an
/// export engine that is not configured, ends the export.
pub proof fn open_database_leads_to_the_messages(account: Account, reply: Result<(), Seq<char>>)
    ensures
        ({
            let outcome = export_step(
                ExportState { account, stage: ExportStage::Opening },
                ExportNews::DatabaseOpened(reply),
            );
            &&& outcome.state.account == account
            &&& reply is Err ==> outcome.state.stage is Done && outcome.request
                == ExportRequest::Finish(
                Err(Failure::BackupError(BackupFailure::EngineRunSqliteError(reply->Err_0))),
            )
            &&& reply is Ok && account.export is None ==> outcome.state.stage is Done
                && outcome.request == ExportRequest::Finish(
                Err(
                    Failure::ExportConfigError(
                        "Can't load engine from the empty export config for "@ + shown_account(
                            account,
                        ),
                    ),
                ),
            )
            &&& reply is Ok && account.export is Some ==> outcome.state.stage is Reading
                && outcome.request == (ExportRequest::ReadEmails {
                query: "SELECT uid, rfc822_body FROM email"@,
            })
        }),
{
}

/// Where the rows of the database can all be read, every row goes to the export engine as one
/// message, in order, and the target is opened. The first row that cannot be read ends the export.
pub proof fn every_row_goes_to_the_export(account: Account, rows: Seq<Result<Kept, Seq<char>>>)
    ensures
        ({
            let outcome = export_step(
                ExportState { account, stage: ExportStage::Reading },
                ExportNews::EmailsRead(rows),
            );
            &&& outcome.state.account == account
            &&& (exists|i: int| 0 <= i < rows.len() && (#[trigger] rows[i]) is Err) ==> {
                &&& outcome.state.stage is Done
                &&& exists|i: int|
                    {
                        &&& 0 <= i < rows.len()
                        &&& (#[trigger] rows[i]) is Err
                        &&& forall|k: int| 0 <= k < i ==> (#[trigger] rows[k]) is Ok
                        &&& outcome.request == ExportRequest::Finish(
                            Err(Failure::ExportError(ExportFailure::SqliteError(rows[i]->Err_0))),
                        )
                    }
            }
            &&& (forall|i: int| 0 <= i < rows.len() ==> (#[trigger] rows[i]) is Ok) ==> {
                &&& outcome.state.stage == ExportStage::Exporting(
                    MboxState {
                        emails: Seq::new(rows.len(), |i: int| rows[i]->Ok_0),
                        phase: MboxPhase::Opening,
                    },
                )
                &&& outcome.request == ExportRequest::Export(MboxCommand::Open(target_of(account)))
            }
        }),
{
    first_error_is_the_first(rows);
    each_row_is_read(rows);
    assert(emails_read(rows) =~= Seq::new(rows.len(), |i: int| rows[i]->Ok_0));
}

/// While messages are written, the export engine takes the steps. The end of its run is the end of
/// the export, and its failure is that of the export.
pub proof fn export_engine_takes_the_steps(account: Account, run: MboxState, reply: MboxReply)
    ensures
        ({
            let step = mbox_step(target_of(account), run, reply);
            let outcome = export_step(
                ExportState { account, stage: ExportStage::Exporting(run) },
                ExportNews::Export(reply),
            );
            &&& outcome.state.account == account
            &&& match step.command {
                MboxCommand::Finish(result) => {
                    &&& outcome.state.stage is Done
                    &&& outcome.request is Finish
                    &&& result is Ok ==> outcome.request->Finish_0 is Ok
                    &&& result is Err ==> outcome.request == ExportRequest::Finish(
                        Err(Failure::ExportError(result->Err_0)),
                    )
                },
                command => {
                    &&& outcome.request == ExportRequest::Export(command)
                    &&& outcome.state.stage == ExportStage::Exporting(step.state)
                },
            }
        }),
{
}

/// An export waits for the reply to what it has asked for, and for no other.
pub proof fn whole_export_waits_for_its_reply(stage: ExportStage, news: ExportNews)
    ensures
        export_awaits(stage, news) <==> {
            ||| stage is Start && news is Begin
            ||| stage is Opening && news is DatabaseOpened
            ||| stage is Reading && news is EmailsRead
            ||| stage is Exporting && news is Export && mbox_awaits(
                stage->Exporting_0.phase,
                news->Export_0,
            )
        },
{
}

/// The models of what a whole export asks for, and of how that went, have all that these have.
pub proof fn models_have_the_whole_export_run(action: ExportAction, event: ExportEvent)
    ensures
        action matches ExportAction::OpenDatabase { dir, file, schema } ==> action@ == (
        ExportRequest::OpenDatabase { dir: dir@, file: file@, schema: schema@ }),
        action matches ExportAction::ReadEmails { query } ==> action@ == (
        ExportRequest::ReadEmails { query: query@ }),
        action matches ExportAction::Export(action_) ==> action@ == ExportRequest::Export(
            action_@,
        ),
        action matches ExportAction::Finish(Ok(())) ==> action@ is Finish && action@->Finish_0
            is Ok,
        action matches ExportAction::Finish(Err(e)) ==> action@ == ExportRequest::Finish(Err(e@)),
        event is Begin ==> event@ is Begin,
        event matches ExportEvent::DatabaseOpened(Ok(())) ==> event@ is DatabaseOpened
            && event@->DatabaseOpened_0 is Ok,
        event matches ExportEvent::DatabaseOpened(Err(e)) ==> event@
            == ExportNews::DatabaseOpened(Err(e@)),
        event matches ExportEvent::EmailsRead(rows) ==> event@ == ExportNews::EmailsRead(
            email_rows(rows@),
        ),
        event matches ExportEvent::Export(event_) ==> event@ == ExportNews::Export(event_@),
{
}

} // verus!
