//! Keeping messages in the database, all in one transaction.

use vstd::pervasive::unreached;
use vstd::prelude::*;
use vstd::string::*;

use crate::error::{BackupEngineError, BackupFailure};
use crate::message::{bytes_view, copy_bytes, mails, Mail, Message, Rfc822Data};
use crate::reply::reply_view;
use crate::sqlite::{SqliteEngine, INSERT_EMAIL};
use crate::text::{concat, decimal, decimal_text, no_lines, one_line, text_views};
use crate::uids::Uid;

verus! {

/// How far the messages have been handed to the database.
#[derive(Clone, Copy)]
pub enum StorePhase {
    /// Nothing has been asked yet.
    New,
    /// The transaction was asked for.
    Beginning,
    /// The message at this place was handed over; `stored` of those before it changed the
    /// database.
    Inserting { at: usize, stored: usize },
    /// The end of the transaction was asked for.
    Committing { stored: usize },
    /// The run is over.
    Done,
}

/// A run of the engine: the messages to keep, and how far it has come.
pub struct StoreRun {
    messages: Vec<Message>,
    phase: StorePhase,
}

/// What the database is asked to do.
pub enum StoreAction {
    /// Begin a transaction, and prepare this statement in it.
    Begin { statement: &'static str },
    /// Execute the statement with these two values.
    Insert { uid: Uid, body: Option<Rfc822Data> },
    /// Commit the transaction.
    Commit,
    /// Nothing more. A transaction that was not committed is rolled back.
    Finish(Result<(), BackupEngineError>),
}

/// How the database answered.
pub enum StoreEvent {
    /// The run begins.
    Start,
    /// The transaction began and the statement was prepared, or why not.
    Begun(Result<(), String>),
    /// The statement was executed and changed that many rows, or why not.
    Inserted(Result<usize, String>),
    /// The transaction was committed, or why not.
    Committed(Result<(), String>),
}

/// One step of a run: what it reports, line by line, and what it asks for.
pub struct StoreStep {
    pub report: Vec<String>,
    pub action: StoreAction,
}

/// The model of a [`StoreRun`].
pub struct StoreState {
    pub mails: Seq<Mail>,
    pub phase: StorePhase,
}

/// The model of a [`StoreAction`].
pub enum StoreCommand {
    Begin { statement: Seq<char> },
    Insert { uid: Uid, body: Option<Seq<u8>> },
    Commit,
    Finish(Result<(), BackupFailure>),
}

/// The model of a [`StoreEvent`].
pub enum StoreReply {
    Start,
    Begun(Result<(), Seq<char>>),
    Inserted(Result<usize, Seq<char>>),
    Committed(Result<(), Seq<char>>),
}

/// What a step leads to.
pub struct StoreOutcome {
    pub state: StoreState,
    pub report: Seq<Seq<char>>,
    pub command: StoreCommand,
}

impl View for StoreRun {
    type V = StoreState;

    closed spec fn view(&self) -> StoreState {
        StoreState { mails: mails(self.messages@), phase: self.phase }
    }
}

impl View for StoreAction {
    type V = StoreCommand;

    open spec fn view(&self) -> StoreCommand {
        match self {
            StoreAction::Begin { statement } => StoreCommand::Begin { statement: statement@ },
            StoreAction::Insert { uid, body } => StoreCommand::Insert {
                uid: *uid,
                body: bytes_view(*body),
            },
            StoreAction::Commit => StoreCommand::Commit,
            StoreAction::Finish(Ok(())) => StoreCommand::Finish(Ok(())),
            StoreAction::Finish(Err(e)) => StoreCommand::Finish(Err(e@)),
        }
    }
}

impl View for StoreEvent {
    type V = StoreReply;

    open spec fn view(&self) -> StoreReply {
        match self {
            StoreEvent::Start => StoreReply::Start,
            StoreEvent::Begun(reply) => StoreReply::Begun(reply_view(*reply)),
            StoreEvent::Inserted(reply) => StoreReply::Inserted(reply_view(*reply)),
            StoreEvent::Committed(reply) => StoreReply::Committed(reply_view(*reply)),
        }
    }
}

/// A run in this phase waits for a reply of this kind.
pub open spec fn store_awaits(phase: StorePhase, reply: StoreReply) -> bool {
    match phase {
        StorePhase::New => reply is Start,
        StorePhase::Beginning => reply is Begun,
        StorePhase::Inserting { .. } => reply is Inserted,
        StorePhase::Committing { .. } => reply is Committed,
        StorePhase::Done => false,
    }
}

/// The phase names a message that there is, and no more messages as stored than were handed over.
pub open spec fn store_wf(state: StoreState) -> bool {
    match state.phase {
        StorePhase::Inserting { at, stored } => stored <= at < state.mails.len()
            && state.mails[at as int].uid is Some,
        StorePhase::Committing { stored } => stored <= state.mails.len(),
        _ => true,
    }
}

/// The place of the first message from `from` on that has an identifier, or the end.
pub open spec fn next_with_uid(mails: Seq<Mail>, from: int) -> int
    decreases mails.len() - from,
{
    if from >= mails.len() || mails[from].uid is Some {
        from
    } else {
        next_with_uid(mails, from + 1)
    }
}

/// The run is over with a failure of the database.
pub open spec fn store_failed(mails: Seq<Mail>, e: Seq<char>) -> StoreOutcome {
    StoreOutcome {
        state: StoreState { mails, phase: StorePhase::Done },
        report: seq![],
        command: StoreCommand::Finish(Err(BackupFailure::EngineRunSqliteError(e))),
    }
}

/// The run goes on with the first message from `from` on that has an identifier, or with the
/// end of the transaction where there is none.
pub open spec fn store_onward(
    mails: Seq<Mail>,
    from: int,
    stored: usize,
    report: Seq<Seq<char>>,
) -> StoreOutcome {
    let at = next_with_uid(mails, from);
    if at < mails.len() {
        StoreOutcome {
            state: StoreState {
                mails,
                phase: StorePhase::Inserting { at: at as usize, stored },
            },
            report,
            command: StoreCommand::Insert { uid: mails[at].uid->0, body: mails[at].body },
        }
    } else {
        StoreOutcome {
            state: StoreState { mails, phase: StorePhase::Committing { stored } },
            report,
            command: StoreCommand::Commit,
        }
    }
}

/// The line that tells how many messages are about to be kept.
pub open spec fn to_backup_line(total: nat) -> Seq<char> {
    "To backup: "@ + decimal(total)
}

/// The line that tells how many messages were kept.
pub open spec fn backed_up_line(stored: nat, total: nat) -> Seq<char> {
    "Backed up "@ + decimal(stored) + "/"@ + decimal(total) + " emails successfully"@
}

/// What a reply leads to, in a state that waits for it.
pub open spec fn store_step(state: StoreState, reply: StoreReply) -> StoreOutcome {
    let mails = state.mails;
    match (state.phase, reply) {
        (StorePhase::New, StoreReply::Start) => StoreOutcome {
            state: StoreState { mails, phase: StorePhase::Beginning },
            report: seq![],
            command: StoreCommand::Begin { statement: INSERT_EMAIL@ },
        },
        (StorePhase::Beginning, StoreReply::Begun(Ok(()))) => store_onward(
            mails,
            0,
            0,
            seq![to_backup_line(mails.len())],
        ),
        (StorePhase::Inserting { at, stored }, StoreReply::Inserted(Ok(changed))) => store_onward(
            mails,
            at + 1,
            if changed == 0 {
                stored
            } else {
                (stored + 1) as usize
            },
            seq![],
        ),
        (StorePhase::Committing { stored }, StoreReply::Committed(Ok(()))) => StoreOutcome {
            state: StoreState { mails, phase: StorePhase::Done },
            report: seq![backed_up_line(stored as nat, mails.len())],
            command: StoreCommand::Finish(Ok(())),
        },
        (_, StoreReply::Begun(Err(e))) => store_failed(mails, e),
        (_, StoreReply::Inserted(Err(e))) => store_failed(mails, e),
        (_, StoreReply::Committed(Err(e))) => store_failed(mails, e),
        _ => arbitrary(),
    }
}

impl StoreRun {
    /// A run that is to keep `messages`.
    pub fn new(messages: Vec<Message>) -> (run: StoreRun)
        ensures
            run@ == (StoreState { mails: mails(messages@), phase: StorePhase::New }),
            store_wf(run@),
    {
        StoreRun { messages, phase: StorePhase::New }
    }

    /// Whether the run waits for an event of this kind.
    pub fn awaits(&self, event: &StoreEvent) -> (b: bool)
        ensures
            b == store_awaits(self@.phase, event@),
    {
        match (self.phase, event) {
            (StorePhase::New, StoreEvent::Start) => true,
            (StorePhase::Beginning, StoreEvent::Begun(_)) => true,
            (StorePhase::Inserting { .. }, StoreEvent::Inserted(_)) => true,
            (StorePhase::Committing { .. }, StoreEvent::Committed(_)) => true,
            _ => false,
        }
    }

    fn onward(&mut self, from: usize, stored: usize) -> (action: StoreAction)
        requires
            stored <= from <= old(self).messages@.len(),
        ensures
            final(self)@ == store_onward(old(self)@.mails, from as int, stored, seq![]).state,
            action@ == store_onward(old(self)@.mails, from as int, stored, seq![]).command,
            store_wf(final(self)@),
    {
        let ghost all = mails(self.messages@);
        let mut at: usize = from;
        while at < self.messages.len() && self.messages[at].uid.is_none()
            invariant
                all == mails(self.messages@),
                from <= at <= self.messages@.len(),
                next_with_uid(all, at as int) == next_with_uid(all, from as int),
            decreases self.messages@.len() - at,
        {
            assert(all[at as int] == self.messages@[at as int]@);
            at = at + 1;
        }
        if at < self.messages.len() {
            assert(all[at as int] == self.messages@[at as int]@);
            self.phase = StorePhase::Inserting { at, stored };
            let body = match &self.messages[at].body {
                Some(body) => Some(copy_bytes(body)),
                None => None,
            };
            StoreAction::Insert { uid: self.messages[at].uid.unwrap(), body }
        } else {
            self.phase = StorePhase::Committing { stored };
            StoreAction::Commit
        }
    }

    fn fail(&mut self, e: String) -> (step: StoreStep)
        ensures
            final(self)@ == store_failed(old(self)@.mails, e@).state,
            text_views(step.report@) == store_failed(old(self)@.mails, e@).report,
            step.action@ == store_failed(old(self)@.mails, e@).command,
            store_wf(final(self)@),
    {
        self.phase = StorePhase::Done;
        StoreStep {
            report: no_lines(),
            action: StoreAction::Finish(Err(BackupEngineError::EngineRunSqliteError(e))),
        }
    }
}

impl<'a> SqliteEngine<'a> {
    /// Takes the next step of a run: what the database is asked for after its last answer.
    ///
    /// The messages are handed over in order, those without an identifier left out. The first
    /// failure ends the run, and what was handed over is not committed. After the last message
    /// the transaction is committed.
    pub fn run_backup(&self, run: &mut StoreRun, event: StoreEvent) -> (step: StoreStep)
        requires
            store_wf(old(run)@),
            store_awaits(old(run)@.phase, event@),
        ensures
            store_wf(final(run)@),
            final(run)@ == store_step(old(run)@, event@).state,
            text_views(step.report@) == store_step(old(run)@, event@).report,
            step.action@ == store_step(old(run)@, event@).command,
    {
        let total = run.messages.len();
        match (run.phase, event) {
            (_, StoreEvent::Start) => {
                run.phase = StorePhase::Beginning;
                StoreStep {
                    report: no_lines(),
                    action: StoreAction::Begin { statement: INSERT_EMAIL },
                }
            },
            (_, StoreEvent::Begun(Ok(()))) => {
                let line = concat("To backup: ", decimal_text(total as u64).as_str());
                StoreStep { report: one_line(line), action: run.onward(0, 0) }
            },
            (StorePhase::Inserting { at, stored }, StoreEvent::Inserted(Ok(changed))) => {
                let stored = if changed == 0 {
                    stored
                } else {
                    stored + 1
                };
                StoreStep { report: no_lines(), action: run.onward(at + 1, stored) }
            },
            (StorePhase::Committing { stored }, StoreEvent::Committed(Ok(()))) => {
                let mut line = "Backed up ".to_owned();
                line.append(decimal_text(stored as u64).as_str());
                line.append("/");
                line.append(decimal_text(total as u64).as_str());
                line.append(" emails successfully");
                run.phase = StorePhase::Done;
                StoreStep { report: one_line(line), action: StoreAction::Finish(Ok(())) }
            },
            (_, StoreEvent::Begun(Err(e))) => run.fail(e),
            (_, StoreEvent::Inserted(Err(e))) => run.fail(e),
            (_, StoreEvent::Committed(Err(e))) => run.fail(e),
            _ => unreached(),
        }
    }
}

/// The next message that is handed over is the first from there on that has an identifier.
pub proof fn next_is_the_first_with_uid(mails: Seq<Mail>, from: int)
    requires
        0 <= from <= mails.len(),
    ensures
        from <= next_with_uid(mails, from) <= mails.len(),
        forall|k: int|
            from <= k < next_with_uid(mails, from) ==> (#[trigger] mails[k]).uid is None,
        next_with_uid(mails, from) < mails.len() ==> mails[next_with_uid(mails, from)].uid is Some,
    decreases mails.len() - from,
{
    if from < mails.len() && mails[from].uid is None {
        next_is_the_first_with_uid(mails, from + 1);
    }
}

/// A run begins by asking for a transaction with the statement that keeps a message in place of one
/// with the same identifier.
pub proof fn run_begins_a_transaction(mails: Seq<Mail>)
    ensures
        ({
            let outcome = store_step(
                StoreState { mails, phase: StorePhase::New },
                StoreReply::Start,
            );
            &&& outcome.state == (StoreState { mails, phase: StorePhase::Beginning })
            &&& outcome.report == Seq::<Seq<char>>::empty()
            &&& outcome.command == StoreCommand::Begin {
                statement: "INSERT OR REPLACE INTO email VALUES (?, ?)"@,
            }
        }),
{
}

/// Once the transaction has begun, or a message is kept, the next message that has an identifier is
/// handed over, with its identifier and its body. Where there is none, the transaction is
/// committed. Those are counted that changed the database.
pub proof fn next_message_is_handed_over(
    state: StoreState,
    reply: StoreReply,
    from: int,
    stored: usize,
    at: int,
)
    requires
        state.mails.len() <= usize::MAX,
        ({
            ||| {
                &&& state.phase is Beginning
                &&& reply == StoreReply::Begun(Ok(()))
                &&& from == 0
                &&& stored == 0
            }
            ||| {
                &&& state.phase is Inserting
                &&& reply is Inserted
                &&& reply->Inserted_0 is Ok
                &&& from == state.phase->Inserting_at + 1
                &&& reply->Inserted_0->Ok_0 == 0 ==> stored == state.phase->Inserting_stored
                &&& reply->Inserted_0->Ok_0 != 0 ==> stored == state.phase->Inserting_stored + 1
            }
        }),
        0 <= from <= at <= state.mails.len(),
        forall|k: int| from <= k < at ==> (#[trigger] state.mails[k]).uid is None,
        at < state.mails.len() ==> state.mails[at].uid is Some,
    ensures
        ({
            let outcome = store_step(state, reply);
            &&& outcome.state.mails == state.mails
            &&& state.phase is Beginning ==> outcome.report == seq![
                "To backup: "@ + decimal(state.mails.len()),
            ]
            &&& state.phase is Inserting ==> outcome.report == Seq::<Seq<char>>::empty()
            &&& at < state.mails.len() ==> {
                &&& outcome.command == StoreCommand::Insert {
                    uid: state.mails[at].uid->0,
                    body: state.mails[at].body,
                }
                &&& outcome.state.phase == (StorePhase::Inserting { at: at as usize, stored })
            }
            &&& at == state.mails.len() ==> {
                &&& outcome.command is Commit
                &&& outcome.state.phase == (StorePhase::Committing { stored })
            }
        }),
{
    next_is_the_first_with_uid(state.mails, from);
    let next = next_with_uid(state.mails, from);
    if next < at {
        assert(state.mails[next].uid is None);
    }
    if at < next {
        assert(state.mails[at].uid is None);
    }
}

/// Once the transaction is committed the run ends well, and tells how many of the messages were
/// counted.
pub proof fn committed_run_ends_well(mails: Seq<Mail>, stored: usize)
    ensures
        ({
            let outcome = store_step(
                StoreState { mails, phase: StorePhase::Committing { stored } },
                StoreReply::Committed(Ok(())),
            );
            &&& outcome.state.phase is Done
            &&& outcome.command is Finish
            &&& outcome.command->Finish_0 is Ok
            &&& outcome.report == seq![
                "Backed up "@ + decimal(stored as nat) + "/"@ + decimal(mails.len())
                    + " emails successfully"@,
            ]
        }),
{
}

/// The first failure of the database ends the run, with what was said about it, and is all that is
/// told.
pub proof fn failed_database_ends_the_run(state: StoreState, reply: StoreReply, e: Seq<char>)
    requires
        store_awaits(state.phase, reply),
        reply == StoreReply::Begun(Err(e)) || reply == StoreReply::Inserted(Err(e)) || reply
            == StoreReply::Committed(Err(e)),
    ensures
        store_step(state, reply).command == StoreCommand::Finish(
            Err(BackupFailure::EngineRunSqliteError(e)),
        ),
        store_step(state, reply).state.phase is Done,
        store_step(state, reply).report == Seq::<Seq<char>>::empty(),
{
}

/// A run waits for the reply to what it has asked for, and for no other.
pub proof fn run_waits_for_its_reply(phase: StorePhase, reply: StoreReply)
    ensures
        store_awaits(phase, reply) <==> {
            ||| phase is New && reply is Start
            ||| phase is Beginning && reply is Begun
            ||| phase is Inserting && reply is Inserted
            ||| phase is Committing && reply is Committed
        },
{
}

/// The models of what the database is asked for, and of how it answered, have all that these have.
pub proof fn models_have_the_whole_run(action: StoreAction, event: StoreEvent)
    ensures
        action matches StoreAction::Begin { statement } ==> action@ == (StoreCommand::Begin {
            statement: statement@,
        }),
        action matches StoreAction::Insert { uid, body: Some(body) } ==> action@ == (
        StoreCommand::Insert { uid, body: Some(body@) }),
        action matches StoreAction::Insert { uid, body: None } ==> action@ == (
        StoreCommand::Insert { uid, body: None }),
        action is Commit ==> action@ is Commit,
        action matches StoreAction::Finish(Ok(())) ==> action@ is Finish && action@->Finish_0
            is Ok,
        action matches StoreAction::Finish(Err(e)) ==> action@ == StoreCommand::Finish(Err(e@)),
        event is Start ==> event@ is Start,
        event matches StoreEvent::Begun(Ok(())) ==> event@ is Begun && event@->Begun_0 is Ok,
        event matches StoreEvent::Begun(Err(e)) ==> event@ == StoreReply::Begun(Err(e@)),
        event matches StoreEvent::Inserted(Ok(changed)) ==> event@ == StoreReply::Inserted(
            Ok(changed),
        ),
        event matches StoreEvent::Inserted(Err(e)) ==> event@ == StoreReply::Inserted(Err(e@)),
        event matches StoreEvent::Committed(Ok(())) ==> event@ is Committed && event@->Committed_0
            is Ok,
        event matches StoreEvent::Committed(Err(e)) ==> event@ == StoreReply::Committed(Err(e@)),
{
}

} // verus!
