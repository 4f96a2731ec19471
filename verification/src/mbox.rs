//! The export engine that writes an mbox file: each message after its separating line.

use vstd::pervasive::unreached;
use vstd::prelude::*;
use vstd::string::*;
use vstd::utf8::*;

use crate::config::{Account, ExportEngineConfig, ExportSetting, GBackupAccount};
use crate::error::{shown_failure, ExportEngineError, ExportFailure};
use crate::mail::{
    dateparse, decoded_value, format_utc, get_first_value, header_list, parsed_date, utc_text,
    value_addresses, SEPARATOR_DATE,
};
use crate::message::{copy_bytes, kept, ExportEmail, Kept};
use crate::reply::reply_view;
use crate::separator::{
    facts_of, lemma_separator_is_one_line, line_of, line_view, mailbox_and_date_make_the_line,
    maybe_line_view, one_line, read_headers, single_address, unbroken, write_line, HeaderFacts,
};
use crate::text::{ascii_lowercase, concat3, lowercase};
use crate::uids::Uid;

verus! {

/// Writes the messages as an mbox file.
pub struct MboxEngine<'a> {
    pub account: &'a GBackupAccount,
}

/// Where an export goes.
pub enum ExportTarget {
    File(String),
    Stdout,
}

/// The file that an export goes to, or nothing for the standard output.
pub open spec fn target_of(account: Account) -> Option<Seq<char>> {
    match account.export {
        Some(ExportSetting::Mbox { path }) => path,
        None => None,
    }
}

impl View for ExportTarget {
    type V = Option<Seq<char>>;

    open spec fn view(&self) -> Option<Seq<char>> {
        match self {
            ExportTarget::File(path) => Some(path@),
            ExportTarget::Stdout => None,
        }
    }
}

/// What is written for a message: its separating line, the message, and a line break. Or why
/// nothing is. Nothing where the message has a date that the calendar does not have.
pub open spec fn entry_of(email: Kept) -> Option<Result<Seq<u8>, ExportFailure>> {
    match line_of(email.uid, facts_of(email.raw_data)) {
        Some(Ok(line)) => Some(Ok(line + email.raw_data + seq![10u8])),
        Some(Err(e)) => Some(Err(e)),
        None => None,
    }
}

/// The separating line of unbroken headers is one line.
pub(crate) proof fn lemma_line_is_one_line(uid: Uid, facts: HeaderFacts)
    requires
        unbroken(facts),
    ensures
        match line_of(uid, facts) {
            Some(Ok(line)) => one_line(line),
            _ => true,
        },
{
    if line_of(uid, facts) is Some && line_of(uid, facts)->0 is Ok {
        let addresses = facts.addresses->0;
        assert(addresses[0] is Some);
        lemma_separator_is_one_line(single_address(addresses)->0, facts.date_text->0);
    }
}

impl<'a> MboxEngine<'a> {
    /// The separating line of a message, or why it has none.
    pub fn get_from_line(email: &ExportEmail) -> (line: Result<Vec<u8>, ExportEngineError>)
        requires
            line_of(email.uid, facts_of(email.raw_data@)) is Some,
        ensures
            Some(line_view(line)) == line_of(email.uid, facts_of(email.raw_data@)),
            unbroken(facts_of(email.raw_data@)),
            line is Ok ==> one_line(line->Ok_0@),
    {
        let reading = read_headers(&email.raw_data);
        proof {
            lemma_line_is_one_line(email.uid, reading@);
        }
        match write_line(email.uid, &reading) {
            Some(line) => line,
            None => unreached(),
        }
    }

    /// The separating line of a message, or why it has none. Nothing where the message has a
    /// date that the calendar does not have.
    pub fn checked_from_line(email: &ExportEmail) -> (line: Option<
        Result<Vec<u8>, ExportEngineError>,
    >)
        ensures
            maybe_line_view(line) == line_of(email.uid, facts_of(email.raw_data@)),
            unbroken(facts_of(email.raw_data@)),
            line is Some && line->0 is Ok ==> one_line(line->0->Ok_0@),
    {
        let on_calendar = match get_first_value(&email.raw_data, "Date") {
            Some(value) => match dateparse(value.as_str()) {
                Ok(date) => format_utc(date, SEPARATOR_DATE).is_some(),
                Err(_) => true,
            },
            None => true,
        };
        if on_calendar {
            Some(MboxEngine::get_from_line(email))
        } else {
            write_line(email.uid, &read_headers(&email.raw_data))
        }
    }

    /// What is written for a message, or why nothing is. Nothing where the message has a date
    /// that the calendar does not have.
    pub fn entry(email: &ExportEmail) -> (entry: Option<Result<Vec<u8>, ExportEngineError>>)
        ensures
            maybe_line_view(entry) == entry_of(email@),
            unbroken(facts_of(email.raw_data@)),
    {
        match MboxEngine::checked_from_line(email) {
            Some(Ok(line)) => {
                let mut entry = line;
                let mut raw_data = copy_bytes(&email.raw_data);
                entry.append(&mut raw_data);
                entry.push(10u8);
                assert(entry@ =~= line@ + email.raw_data@ + seq![10u8]);
                Some(Ok(entry))
            },
            Some(Err(e)) => Some(Err(e)),
            None => None,
        }
    }

    /// Where the account has its export go.
    pub fn target(&self) -> (target: ExportTarget)
        ensures
            target@ == target_of(self.account@),
            self.account.export matches Some(ExportEngineConfig::Mbox { path: Some(path) })
                ==> target is File && target->File_0@ == path@,
            !(self.account.export matches Some(ExportEngineConfig::Mbox { path: Some(_) }))
                ==> target is Stdout,
    {
        if let Some(ExportEngineConfig::Mbox { path: Some(path) }) = &self.account.export {
            ExportTarget::File(path.clone())
        } else {
            ExportTarget::Stdout
        }
    }
}

/// How far an export has come.
#[derive(Clone, Copy)]
pub enum MboxPhase {
    /// Nothing has been asked yet.
    New,
    /// The target was asked for.
    Opening,
    /// The entry of the message at this place was handed over.
    Writing { at: usize },
    /// It was told why the message at this place has no entry.
    Telling { at: usize },
    /// The export is over.
    Done,
}

/// An export: the messages, and how far it has come.
pub struct MboxRun {
    emails: Vec<ExportEmail>,
    phase: MboxPhase,
}

/// What an export asks for.
pub enum MboxAction {
    /// Open the target, and empty it where it is a file.
    Open(ExportTarget),
    /// Write these bytes to the target.
    Write(Vec<u8>),
    /// Tell why a message is left out, with this line.
    Tell(String),
    /// Give up: this message has a date that the calendar does not have.
    Undated { uid: Uid },
    /// Nothing more.
    Finish(Result<(), ExportEngineError>),
}

/// How that went.
pub enum MboxEvent {
    /// The export begins.
    Start,
    /// The target was opened, or why not.
    Opened(Result<(), String>),
    /// The bytes were written, or why not.
    Written(Result<(), String>),
    /// It was told.
    Told,
}

/// The model of an [`MboxRun`].
pub struct MboxState {
    pub emails: Seq<Kept>,
    pub phase: MboxPhase,
}

/// The model of an [`MboxAction`].
pub enum MboxCommand {
    Open(Option<Seq<char>>),
    Write(Seq<u8>),
    Tell(Seq<char>),
    Undated { uid: Uid },
    Finish(Result<(), ExportFailure>),
}

/// The model of an [`MboxEvent`].
pub enum MboxReply {
    Start,
    Opened(Result<(), Seq<char>>),
    Written(Result<(), Seq<char>>),
    Told,
}

/// What a step leads to.
pub struct MboxOutcome {
    pub state: MboxState,
    pub command: MboxCommand,
}

impl View for MboxRun {
    type V = MboxState;

    closed spec fn view(&self) -> MboxState {
        MboxState { emails: kept(self.emails@), phase: self.phase }
    }
}

impl View for MboxAction {
    type V = MboxCommand;

    open spec fn view(&self) -> MboxCommand {
        match self {
            MboxAction::Open(target) => MboxCommand::Open(target@),
            MboxAction::Write(bytes) => MboxCommand::Write(bytes@),
            MboxAction::Tell(e) => MboxCommand::Tell(e@),
            MboxAction::Undated { uid } => MboxCommand::Undated { uid: *uid },
            MboxAction::Finish(Ok(())) => MboxCommand::Finish(Ok(())),
            MboxAction::Finish(Err(e)) => MboxCommand::Finish(Err(e@)),
        }
    }
}

impl View for MboxEvent {
    type V = MboxReply;

    open spec fn view(&self) -> MboxReply {
        match self {
            MboxEvent::Start => MboxReply::Start,
            MboxEvent::Opened(reply) => MboxReply::Opened(reply_view(*reply)),
            MboxEvent::Written(reply) => MboxReply::Written(reply_view(*reply)),
            MboxEvent::Told => MboxReply::Told,
        }
    }
}

/// An export in this phase waits for a reply of this kind.
pub open spec fn mbox_awaits(phase: MboxPhase, reply: MboxReply) -> bool {
    match phase {
        MboxPhase::New => reply is Start,
        MboxPhase::Opening => reply is Opened,
        MboxPhase::Writing { .. } => reply is Written,
        MboxPhase::Telling { .. } => reply is Told,
        MboxPhase::Done => false,
    }
}

/// The phase names a message that there is.
pub open spec fn mbox_wf(state: MboxState) -> bool {
    match state.phase {
        MboxPhase::Writing { at } => at < state.emails.len(),
        MboxPhase::Telling { at } => at < state.emails.len(),
        _ => true,
    }
}

/// The line that tells why a message is left out.
pub open spec fn left_out_line(failure: ExportFailure) -> Seq<char> {
    "Error parsing email: "@ + shown_failure(failure) + "!"@
}

/// The export is over.
pub open spec fn mbox_over(emails: Seq<Kept>, command: MboxCommand) -> MboxOutcome {
    MboxOutcome { state: MboxState { emails, phase: MboxPhase::Done }, command }
}

/// The export goes on with the message at `at`, or is over where there is none.
pub open spec fn mbox_onward(emails: Seq<Kept>, at: int) -> MboxOutcome {
    if at < emails.len() {
        match entry_of(emails[at]) {
            Some(Ok(bytes)) => MboxOutcome {
                state: MboxState { emails, phase: MboxPhase::Writing { at: at as usize } },
                command: MboxCommand::Write(bytes),
            },
            Some(Err(e)) => MboxOutcome {
                state: MboxState { emails, phase: MboxPhase::Telling { at: at as usize } },
                command: MboxCommand::Tell(left_out_line(e)),
            },
            None => mbox_over(emails, MboxCommand::Undated { uid: emails[at].uid }),
        }
    } else {
        mbox_over(emails, MboxCommand::Finish(Ok(())))
    }
}

/// What a reply leads to, in a state that waits for it.
pub open spec fn mbox_step(
    target: Option<Seq<char>>,
    state: MboxState,
    reply: MboxReply,
) -> MboxOutcome {
    let emails = state.emails;
    match (state.phase, reply) {
        (MboxPhase::New, MboxReply::Start) => MboxOutcome {
            state: MboxState { emails, phase: MboxPhase::Opening },
            command: MboxCommand::Open(target),
        },
        (MboxPhase::Opening, MboxReply::Opened(Ok(()))) => mbox_onward(emails, 0),
        (MboxPhase::Writing { at }, MboxReply::Written(Ok(()))) => mbox_onward(emails, at + 1),
        (MboxPhase::Telling { at }, MboxReply::Told) => mbox_onward(emails, at + 1),
        (_, MboxReply::Opened(Err(e))) => mbox_over(
            emails,
            MboxCommand::Finish(Err(ExportFailure::IOErrror(e))),
        ),
        (_, MboxReply::Written(Err(e))) => mbox_over(
            emails,
            MboxCommand::Finish(Err(ExportFailure::IOErrror(e))),
        ),
        _ => arbitrary(),
    }
}

impl MboxRun {
    /// An export of `emails`.
    pub fn new(emails: Vec<ExportEmail>) -> (run: MboxRun)
        ensures
            run@ == (MboxState { emails: kept(emails@), phase: MboxPhase::New }),
            mbox_wf(run@),
    {
        MboxRun { emails, phase: MboxPhase::New }
    }

    /// Whether the export waits for an event of this kind.
    pub fn awaits(&self, event: &MboxEvent) -> (b: bool)
        ensures
            b == mbox_awaits(self@.phase, event@),
    {
        match (self.phase, event) {
            (MboxPhase::New, MboxEvent::Start) => true,
            (MboxPhase::Opening, MboxEvent::Opened(_)) => true,
            (MboxPhase::Writing { .. }, MboxEvent::Written(_)) => true,
            (MboxPhase::Telling { .. }, MboxEvent::Told) => true,
            _ => false,
        }
    }

    fn onward(&mut self, at: usize) -> (action: MboxAction)
        requires
            at <= old(self).emails@.len(),
        ensures
            final(self)@ == mbox_onward(old(self)@.emails, at as int).state,
            action@ == mbox_onward(old(self)@.emails, at as int).command,
            mbox_wf(final(self)@),
    {
        if at < self.emails.len() {
            assert(kept(self.emails@)[at as int] == self.emails@[at as int]@);
            match MboxEngine::entry(&self.emails[at]) {
                Some(Ok(bytes)) => {
                    self.phase = MboxPhase::Writing { at };
                    MboxAction::Write(bytes)
                },
                Some(Err(e)) => {
                    self.phase = MboxPhase::Telling { at };
                    MboxAction::Tell(concat3("Error parsing email: ", e.show().as_str(), "!"))
                },
                None => {
                    self.phase = MboxPhase::Done;
                    MboxAction::Undated { uid: self.emails[at].uid }
                },
            }
        } else {
            self.phase = MboxPhase::Done;
            MboxAction::Finish(Ok(()))
        }
    }
}

impl<'a> MboxEngine<'a> {
    /// Takes the next step of an export: what is asked for after the last event.
    ///
    /// The messages are handled in order. Each has its entry written, or it is told why it has
    /// none. The first failure to open or to write ends the export.
    pub fn export_emails(&self, run: &mut MboxRun, event: MboxEvent) -> (action: MboxAction)
        requires
            mbox_wf(old(run)@),
            mbox_awaits(old(run)@.phase, event@),
        ensures
            mbox_wf(final(run)@),
            final(run)@ == mbox_step(target_of(self.account@), old(run)@, event@).state,
            action@ == mbox_step(target_of(self.account@), old(run)@, event@).command,
    {
        let total = run.emails.len();
        match (run.phase, event) {
            (_, MboxEvent::Start) => {
                run.phase = MboxPhase::Opening;
                MboxAction::Open(self.target())
            },
            (_, MboxEvent::Opened(Ok(()))) => run.onward(0),
            (MboxPhase::Writing { at }, MboxEvent::Written(Ok(()))) => {
                assert(at < total);
                run.onward(at + 1)
            },
            (MboxPhase::Telling { at }, MboxEvent::Told) => {
                assert(at < total);
                run.onward(at + 1)
            },
            (_, MboxEvent::Opened(Err(e))) => {
                run.phase = MboxPhase::Done;
                MboxAction::Finish(Err(ExportEngineError::IOErrror(e)))
            },
            (_, MboxEvent::Written(Err(e))) => {
                run.phase = MboxPhase::Done;
                MboxAction::Finish(Err(ExportEngineError::IOErrror(e)))
            },
            _ => unreached(),
        }
    }
}

/// The mbox file of the messages: the entries, in order, of those that have one.
pub open spec fn mbox_of(emails: Seq<Kept>) -> Seq<u8>
    decreases emails.len(),
{
    if emails.len() == 0 {
        seq![]
    } else {
        mbox_of(emails.drop_last()) + match entry_of(emails.last()) {
            Some(Ok(bytes)) => bytes,
            _ => seq![],
        }
    }
}

/// What is told of the messages that are left out of the mbox file, in order.
pub open spec fn left_out(emails: Seq<Kept>) -> Seq<Seq<char>>
    decreases emails.len(),
{
    if emails.len() == 0 {
        seq![]
    } else {
        left_out(emails.drop_last()) + match entry_of(emails.last()) {
            Some(Err(e)) => seq![left_out_line(e)],
            _ => seq![],
        }
    }
}

/// A moment of an export: where the engine is, what it has asked for, and what has been written
/// and told.
pub struct MboxMoment {
    pub state: MboxState,
    pub command: MboxCommand,
    pub written: Seq<u8>,
    pub told: Seq<Seq<char>>,
}

/// Where an export of `emails` is after these replies, one after the other. A reply that the
/// engine does not wait for is passed over.
pub open spec fn mbox_moment(
    target: Option<Seq<char>>,
    emails: Seq<Kept>,
    replies: Seq<MboxReply>,
) -> MboxMoment
    decreases replies.len(),
{
    if replies.len() == 0 {
        let begun = mbox_step(
            target,
            MboxState { emails, phase: MboxPhase::New },
            MboxReply::Start,
        );
        MboxMoment { state: begun.state, command: begun.command, written: seq![], told: seq![] }
    } else {
        let before = mbox_moment(target, emails, replies.drop_last());
        if mbox_awaits(before.state.phase, replies.last()) {
            next_mbox_moment(target, before, replies.last())
        } else {
            before
        }
    }
}

/// The moment after a reply that the engine waits for.
pub open spec fn next_mbox_moment(
    target: Option<Seq<char>>,
    before: MboxMoment,
    reply: MboxReply,
) -> MboxMoment {
    let outcome = mbox_step(target, before.state, reply);
    MboxMoment {
        state: outcome.state,
        command: outcome.command,
        written: match (before.command, reply) {
            (MboxCommand::Write(bytes), MboxReply::Written(Ok(()))) => before.written + bytes,
            _ => before.written,
        },
        told: match (before.command, reply) {
            (MboxCommand::Tell(line), MboxReply::Told) => before.told.push(line),
            _ => before.told,
        },
    }
}

/// However far an export has come, what it has written is the mbox file of the first so many
/// messages, and it has told of each of them that was left out. An export that ends well has
/// done so for all of them.
pub proof fn export_writes_the_mbox_file(
    target: Option<Seq<char>>,
    emails: Seq<Kept>,
    replies: Seq<MboxReply>,
)
    requires
        emails.len() <= usize::MAX,
    ensures
        ({
            let now = mbox_moment(target, emails, replies);
            &&& exists|k: int|
                0 <= k <= emails.len() && now.written == #[trigger] mbox_of(emails.take(k))
                    && now.told == left_out(emails.take(k))
            &&& now.command is Finish && now.command->Finish_0 is Ok ==> now.written == mbox_of(
                emails,
            ) && now.told == left_out(emails)
        }),
{
    lemma_mbox_moment(target, emails, replies);
    assert(emails.take(emails.len() as int) =~= emails);
}

/// The moment is one of an export of `emails` that has handled the first `k` of them.
pub open spec fn mbox_fits(emails: Seq<Kept>, now: MboxMoment, k: int) -> bool {
    &&& now.state.emails == emails
    &&& 0 <= k <= emails.len()
    &&& now.written == mbox_of(emails.take(k))
    &&& now.told == left_out(emails.take(k))
    &&& match now.state.phase {
        MboxPhase::New => false,
        MboxPhase::Opening => k == 0 && now.command is Open,
        MboxPhase::Writing { at } => k == at && at < emails.len() && entry_of(emails[k]) == Some(
            Ok::<Seq<u8>, ExportFailure>(now.command->Write_0),
        ) && now.command is Write,
        MboxPhase::Telling { at } => k == at && at < emails.len() && entry_of(emails[k]) is Some
            && entry_of(emails[k])->0 is Err && now.command == MboxCommand::Tell(
            left_out_line(entry_of(emails[k])->0->Err_0),
        ),
        MboxPhase::Done => {
            ||| now.command is Undated
            ||| now.command is Finish && (now.command->Finish_0 is Ok ==> k == emails.len())
        },
    }
}

/// A reply leads from a moment that fits to one that fits.
pub(crate) proof fn lemma_next_mbox_moment(
    target: Option<Seq<char>>,
    emails: Seq<Kept>,
    before: MboxMoment,
    k: int,
    reply: MboxReply,
) -> (next: int)
    requires
        emails.len() <= usize::MAX,
        mbox_fits(emails, before, k),
        mbox_awaits(before.state.phase, reply),
    ensures
        mbox_fits(emails, next_mbox_moment(target, before, reply), next),
{
    match (before.state.phase, reply) {
        (MboxPhase::Writing { .. }, MboxReply::Written(Ok(()))) => {
            assert(emails.take(k + 1).drop_last() =~= emails.take(k));
            assert(left_out(emails.take(k + 1)) =~= left_out(emails.take(k)));
            k + 1
        },
        (MboxPhase::Telling { .. }, MboxReply::Told) => {
            assert(emails.take(k + 1).drop_last() =~= emails.take(k));
            assert(mbox_of(emails.take(k + 1)) =~= mbox_of(emails.take(k)));
            assert(left_out(emails.take(k + 1)) =~= left_out(emails.take(k)).push(
                before.command->Tell_0,
            ));
            k + 1
        },
        _ => k,
    }
}

proof fn lemma_mbox_moment(
    target: Option<Seq<char>>,
    emails: Seq<Kept>,
    replies: Seq<MboxReply>,
) -> (k: int)
    requires
        emails.len() <= usize::MAX,
    ensures
        mbox_fits(emails, mbox_moment(target, emails, replies), k),
    decreases replies.len(),
{
    if replies.len() == 0 {
        assert(emails.take(0) =~= seq![]);
        0
    } else {
        let k = lemma_mbox_moment(target, emails, replies.drop_last());
        let before = mbox_moment(target, emails, replies.drop_last());
        if mbox_awaits(before.state.phase, replies.last()) {
            lemma_next_mbox_moment(target, emails, before, k, replies.last())
        } else {
            k
        }
    }
}

/// Every message that has an entry is in the mbox file: the file is what stands before it, the
/// entry, and what stands behind it.
pub proof fn every_entry_is_in_the_file(emails: Seq<Kept>, k: int) -> (rest: Seq<u8>)
    requires
        0 <= k < emails.len(),
        entry_of(emails[k]) is Some,
        entry_of(emails[k])->0 is Ok,
    ensures
        mbox_of(emails) == mbox_of(emails.take(k)) + entry_of(emails[k])->0->Ok_0 + rest,
    decreases emails.len(),
{
    let entry = entry_of(emails[k])->0->Ok_0;
    let front = emails.drop_last();
    if k == emails.len() - 1 {
        assert(emails.take(k) =~= front);
        assert(mbox_of(emails) =~= mbox_of(front) + entry + seq![]);
        seq![]
    } else {
        let rest = every_entry_is_in_the_file(front, k);
        let last = match entry_of(emails.last()) {
            Some(Ok(bytes)) => bytes,
            _ => seq![],
        };
        assert(front.take(k) =~= emails.take(k));
        assert(mbox_of(emails) =~= mbox_of(emails.take(k)) + entry + (rest + last));
        rest + last
    }
}

/// The file of two lists of messages is the two files one after the other, and so is what is told
/// of messages that are left out.
pub proof fn files_follow_each_other(first: Seq<Kept>, second: Seq<Kept>)
    ensures
        mbox_of(first + second) == mbox_of(first) + mbox_of(second),
        left_out(first + second) == left_out(first) + left_out(second),
    decreases second.len(),
{
    if second.len() == 0 {
        assert(first + second =~= first);
        assert(mbox_of(first) + mbox_of(second) =~= mbox_of(first));
        assert(left_out(first) + left_out(second) =~= left_out(first));
    } else {
        files_follow_each_other(first, second.drop_last());
        assert((first + second).drop_last() =~= first + second.drop_last());
        assert(mbox_of(first + second) =~= mbox_of(first) + mbox_of(second));
        assert(left_out(first + second) =~= left_out(first) + left_out(second));
    }
}

/// What was asked for was done.
pub open spec fn mbox_went_well(reply: MboxReply) -> bool {
    match reply {
        MboxReply::Start => true,
        MboxReply::Opened(reply) => reply is Ok,
        MboxReply::Written(reply) => reply is Ok,
        MboxReply::Told => true,
    }
}

/// Until the export is over, each of the replies is one that the engine waits for, and what was
/// asked for was done.
pub open spec fn mbox_all_went_well(
    target: Option<Seq<char>>,
    emails: Seq<Kept>,
    replies: Seq<MboxReply>,
) -> bool
    decreases replies.len(),
{
    replies.len() > 0 ==> {
        let phase = mbox_moment(target, emails, replies.drop_last()).state.phase;
        &&& mbox_all_went_well(target, emails, replies.drop_last())
        &&& phase is Done || mbox_awaits(phase, replies.last()) && mbox_went_well(replies.last())
    }
}

/// None of the messages has a date that the calendar does not have.
pub open spec fn all_on_calendar(emails: Seq<Kept>) -> bool {
    forall|k: int| 0 <= k < emails.len() ==> entry_of(#[trigger] emails[k]) is Some
}

/// How many replies an export in this state still waits for, where all goes well.
pub open spec fn mbox_replies_left(state: MboxState) -> int {
    match state.phase {
        MboxPhase::New => state.emails.len() as int + 2,
        MboxPhase::Opening => state.emails.len() as int + 1,
        MboxPhase::Writing { at } => state.emails.len() - at,
        MboxPhase::Telling { at } => state.emails.len() - at,
        MboxPhase::Done => 0,
    }
}

/// A reply that went well leads on by one, and never to a failure.
pub(crate) proof fn lemma_mbox_leads_on(
    target: Option<Seq<char>>,
    emails: Seq<Kept>,
    before: MboxMoment,
    k: int,
    reply: MboxReply,
)
    requires
        emails.len() <= usize::MAX,
        all_on_calendar(emails),
        mbox_fits(emails, before, k),
        mbox_awaits(before.state.phase, reply),
        mbox_went_well(reply),
    ensures
        ({
            let now = next_mbox_moment(target, before, reply);
            &&& mbox_replies_left(now.state) + 1 == mbox_replies_left(before.state)
            &&& now.command is Finish ==> now.command->Finish_0 is Ok
            &&& !(now.command is Undated)
        }),
{
    let next = match before.state.phase {
        MboxPhase::Writing { at } => at + 1,
        MboxPhase::Telling { at } => at + 1,
        _ => 0int,
    };
    if next < emails.len() {
        assert(entry_of(emails[next]) is Some);
    }
}

/// An export of messages with dates that the calendar has, in which what is asked for is done,
/// does not fail, and ends well: after one reply for each message, and one more.
pub proof fn export_that_goes_well_ends_well(
    target: Option<Seq<char>>,
    emails: Seq<Kept>,
    replies: Seq<MboxReply>,
)
    requires
        emails.len() <= usize::MAX,
        all_on_calendar(emails),
        mbox_all_went_well(target, emails, replies),
    ensures
        ({
            let now = mbox_moment(target, emails, replies);
            &&& !(now.command is Undated)
            &&& now.command is Finish ==> now.command->Finish_0 is Ok
            &&& now.command is Finish <==> replies.len() >= emails.len() + 1
        }),
{
    lemma_mbox_moment(target, emails, replies);
    lemma_mbox_replies_left(target, emails, replies);
}

proof fn lemma_mbox_replies_left(
    target: Option<Seq<char>>,
    emails: Seq<Kept>,
    replies: Seq<MboxReply>,
)
    requires
        emails.len() <= usize::MAX,
        all_on_calendar(emails),
        mbox_all_went_well(target, emails, replies),
    ensures
        ({
            let now = mbox_moment(target, emails, replies);
            let total = emails.len() + 1;
            &&& !(now.command is Undated)
            &&& now.command is Finish ==> now.command->Finish_0 is Ok
            &&& mbox_replies_left(now.state) == if replies.len() < total {
                total - replies.len()
            } else {
                0
            }
        }),
    decreases replies.len(),
{
    if replies.len() > 0 {
        lemma_mbox_replies_left(target, emails, replies.drop_last());
        let k = lemma_mbox_moment(target, emails, replies.drop_last());
        let before = mbox_moment(target, emails, replies.drop_last());
        if !(before.state.phase is Done) {
            lemma_mbox_leads_on(target, emails, before, k, replies.last());
        }
    }
}

/// The entry of a message is its separating line, the message byte for byte, and a line break. A
/// message has an entry where it has a separating line, and else the same is said of both.
pub proof fn entry_is_line_message_and_break(email: Kept)
    ensures
        ({
            let line = line_of(email.uid, facts_of(email.raw_data));
            &&& line is None <==> entry_of(email) is None
            &&& line is Some && line->0 is Err ==> entry_of(email) == line
            &&& line is Some && line->0 is Ok ==> entry_of(email) == Some(
                Ok::<Seq<u8>, ExportFailure>(line->0->Ok_0 + email.raw_data + seq![10u8]),
            )
        }),
{
}

/// A message whose headers can be read, whose first `From` header gives one address that is a
/// mailbox, of whatever length, and whose first `Date` header gives a date that the calendar has,
/// is in the mbox file: after the line of that mailbox and that date in UTC, and byte for byte.
pub proof fn mailbox_and_date_make_an_entry(
    email: Kept,
    i: int,
    j: int,
    mailbox: Seq<char>,
    date: i64,
    text: Seq<char>,
)
    requires
        header_list(email.raw_data) is Some,
        0 <= i < header_list(email.raw_data)->0.len(),
        lowercase(header_list(email.raw_data)->0[i].0) == "from"@,
        forall|k: int|
            0 <= k < i ==> lowercase((#[trigger] header_list(email.raw_data)->0[k]).0) != "from"@,
        0 <= j < header_list(email.raw_data)->0.len(),
        ascii_lowercase(header_list(email.raw_data)->0[j].0) == "date"@,
        forall|k: int|
            0 <= k < j ==> ascii_lowercase((#[trigger] header_list(email.raw_data)->0[k]).0)
                != "date"@,
        value_addresses(header_list(email.raw_data)->0[i].1) == Some(seq![Some(mailbox)]),
        parsed_date(decoded_value(header_list(email.raw_data)->0[j].1)) == Some(date),
        utc_text(date, "%a %b %d %T %Y"@) == Some(text),
    ensures
        entry_of(email) == Some(
            Ok::<Seq<u8>, ExportFailure>(
                encode_utf8("From "@ + mailbox + " "@ + text + "\n"@) + email.raw_data
                    + seq![10u8],
            ),
        ),
{
    mailbox_and_date_make_the_line(email, i, j, mailbox, date, text);
}

/// A further message adds its entry to the end of the file, or what is said of it to what is told.
pub proof fn file_grows_message_by_message(emails: Seq<Kept>, email: Kept)
    ensures
        mbox_of(seq![]) == Seq::<u8>::empty(),
        left_out(seq![]) == Seq::<Seq<char>>::empty(),
        match entry_of(email) {
            Some(Ok(entry)) => {
                &&& mbox_of(emails.push(email)) == mbox_of(emails) + entry
                &&& left_out(emails.push(email)) == left_out(emails)
            },
            Some(Err(e)) => {
                &&& mbox_of(emails.push(email)) == mbox_of(emails)
                &&& left_out(emails.push(email)) == left_out(emails).push(
                    "Error parsing email: "@ + shown_failure(e) + "!"@,
                )
            },
            None => true,
        },
{
    assert(emails.push(email).drop_last() =~= emails);
    assert(mbox_of(emails) + seq![] =~= mbox_of(emails));
    assert(left_out(emails) + seq![] =~= left_out(emails));
    if let Some(Err(e)) = entry_of(email) {
        assert(left_out(emails) + seq![left_out_line(e)] =~= left_out(emails).push(
            left_out_line(e),
        ));
    }
}

/// An export goes to the file of its setting, and to the standard output where there is none.
pub proof fn export_goes_to_its_file(account: Account)
    ensures
        account.export matches Some(ExportSetting::Mbox { path }) ==> target_of(account) == path,
        account.export is None ==> target_of(account) is None,
{
}

/// An export begins by asking for its target.
pub proof fn export_opens_its_target(target: Option<Seq<char>>, emails: Seq<Kept>)
    ensures
        mbox_step(target, MboxState { emails, phase: MboxPhase::New }, MboxReply::Start).command
            == MboxCommand::Open(target),
        mbox_step(target, MboxState { emails, phase: MboxPhase::New }, MboxReply::Start).state == (
        MboxState { emails, phase: MboxPhase::Opening }),
{
}

/// Once the target is open, or a message is done with, the next message has its turn: its entry is
/// written, or it is told why it has none. After the last the export ends well.
pub proof fn next_message_has_its_turn(
    target: Option<Seq<char>>,
    state: MboxState,
    reply: MboxReply,
    at: int,
)
    requires
        0 <= at <= state.emails.len() <= usize::MAX,
        ({
            ||| state.phase is Opening && reply == MboxReply::Opened(Ok(())) && at == 0
            ||| state.phase == (MboxPhase::Writing { at: (at - 1) as usize }) && at > 0 && reply
                == MboxReply::Written(Ok(()))
            ||| state.phase == (MboxPhase::Telling { at: (at - 1) as usize }) && at > 0 && reply
                == MboxReply::Told
        }),
    ensures
        ({
            let outcome = mbox_step(target, state, reply);
            let emails = state.emails;
            &&& outcome.state.emails == emails
            &&& if at == emails.len() {
                &&& outcome.command is Finish
                &&& outcome.command->Finish_0 is Ok
                &&& outcome.state.phase is Done
            } else {
                match entry_of(emails[at]) {
                    Some(Ok(entry)) => {
                        &&& outcome.command == MboxCommand::Write(entry)
                        &&& outcome.state.phase == MboxPhase::Writing { at: at as usize }
                    },
                    Some(Err(e)) => {
                        &&& outcome.command == MboxCommand::Tell(
                            "Error parsing email: "@ + shown_failure(e) + "!"@,
                        )
                        &&& outcome.state.phase == MboxPhase::Telling { at: at as usize }
                    },
                    None => {
                        &&& outcome.command == MboxCommand::Undated { uid: emails[at].uid }
                        &&& outcome.state.phase is Done
                    },
                }
            }
        }),
{
}

/// A target that cannot be opened, or not be written to, ends the export, with what was said about
/// it.
pub proof fn failed_output_ends_the_export(
    target: Option<Seq<char>>,
    state: MboxState,
    reply: MboxReply,
    e: Seq<char>,
)
    requires
        mbox_awaits(state.phase, reply),
        reply == MboxReply::Opened(Err(e)) || reply == MboxReply::Written(Err(e)),
    ensures
        mbox_step(target, state, reply).command == MboxCommand::Finish(
            Err(ExportFailure::IOErrror(e)),
        ),
        mbox_step(target, state, reply).state.phase is Done,
{
}

/// An export waits for the reply to what it has asked for, and for no other.
pub proof fn export_waits_for_its_reply(phase: MboxPhase, reply: MboxReply)
    ensures
        mbox_awaits(phase, reply) <==> {
            ||| phase is New && reply is Start
            ||| phase is Opening && reply is Opened
            ||| phase is Writing && reply is Written
            ||| phase is Telling && reply is Told
        },
{
}

/// The models of what an export asks for, and of how that went, have all that these have.
pub proof fn models_have_the_whole_export(action: MboxAction, event: MboxEvent)
    ensures
        action matches MboxAction::Open(ExportTarget::File(path)) ==> action@ == MboxCommand::Open(
            Some(path@),
        ),
        action matches MboxAction::Open(ExportTarget::Stdout) ==> action@ == MboxCommand::Open(
            None,
        ),
        action matches MboxAction::Write(bytes) ==> action@ == MboxCommand::Write(bytes@),
        action matches MboxAction::Tell(line) ==> action@ == MboxCommand::Tell(line@),
        action matches MboxAction::Undated { uid } ==> action@ == (MboxCommand::Undated { uid }),
        action matches MboxAction::Finish(Ok(())) ==> action@ is Finish && action@->Finish_0 is Ok,
        action matches MboxAction::Finish(Err(e)) ==> action@ == MboxCommand::Finish(Err(e@)),
        event is Start ==> event@ is Start,
        event is Told ==> event@ is Told,
        event matches MboxEvent::Opened(Ok(())) ==> event@ is Opened && event@->Opened_0 is Ok,
        event matches MboxEvent::Opened(Err(e)) ==> event@ == MboxReply::Opened(Err(e@)),
        event matches MboxEvent::Written(Ok(())) ==> event@ is Written && event@->Written_0 is Ok,
        event matches MboxEvent::Written(Err(e)) ==> event@ == MboxReply::Written(Err(e@)),
{
}

} // verus!
