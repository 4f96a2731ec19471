//! What the database holds, and what a run of the engine makes of it.

use vstd::prelude::*;

use crate::message::{Kept, Mail};
use crate::store::{
    backed_up_line, next_with_uid, store_awaits, store_step, StoreCommand, StorePhase, StoreReply,
    StoreState,
};
use crate::uids::Uid;

verus! {

/// The messages that the database holds, by identifier.
pub type Table = Map<Uid, Option<Seq<u8>>>;

/// A database with at most one open transaction.
pub struct Database {
    /// What it holds.
    pub committed: Table,
    /// What it will hold once the open transaction is committed.
    pub pending: Table,
}

/// What a command that was answered with `reply` does to the database.
pub open spec fn perform(db: Database, command: StoreCommand, reply: StoreReply) -> Database {
    match (command, reply) {
        (StoreCommand::Begin { .. }, StoreReply::Begun(Ok(()))) => Database {
            pending: db.committed,
            ..db
        },
        (StoreCommand::Insert { uid, body }, StoreReply::Inserted(Ok(_))) => Database {
            pending: db.pending.insert(uid, body),
            ..db
        },
        (StoreCommand::Commit, StoreReply::Committed(Ok(()))) => Database {
            committed: db.pending,
            ..db
        },
        _ => db,
    }
}

/// The table after the messages were kept in it, in order: each that has an identifier takes the
/// place of what was kept under that identifier.
pub open spec fn with_all(table: Table, mails: Seq<Mail>) -> Table
    decreases mails.len(),
{
    if mails.len() == 0 {
        table
    } else {
        let before = with_all(table, mails.drop_last());
        match mails.last().uid {
            Some(uid) => before.insert(uid, mails.last().body),
            None => before,
        }
    }
}

/// A moment of a run: where the engine is, what it has asked for, and the database.
pub struct Moment {
    pub state: StoreState,
    pub command: StoreCommand,
    pub db: Database,
}

/// Where a run of the engine on `mails` is after these replies to its commands, one after the
/// other. A reply that the engine does not wait for is passed over.
pub open spec fn moment(mails: Seq<Mail>, table: Table, replies: Seq<StoreReply>) -> Moment
    decreases replies.len(),
{
    if replies.len() == 0 {
        let begun = store_step(StoreState { mails, phase: StorePhase::New }, StoreReply::Start);
        Moment {
            state: begun.state,
            command: begun.command,
            db: Database { committed: table, pending: table },
        }
    } else {
        let before = moment(mails, table, replies.drop_last());
        if store_awaits(before.state.phase, replies.last()) {
            next_moment(before, replies.last())
        } else {
            before
        }
    }
}

/// The moment after a reply that the engine waits for.
pub open spec fn next_moment(before: Moment, reply: StoreReply) -> Moment {
    let outcome = store_step(before.state, reply);
    Moment {
        state: outcome.state,
        command: outcome.command,
        db: perform(before.db, before.command, reply),
    }
}

/// A backup is all or nothing: whatever the database answers, and wherever the run is cut off,
/// the database holds what it held before, except that after a run that ended well it holds all
/// the messages as well.
pub proof fn backup_is_all_or_nothing(mails: Seq<Mail>, table: Table, replies: Seq<StoreReply>)
    requires
        mails.len() <= usize::MAX,
    ensures
        ({
            let now = moment(mails, table, replies);
            if now.command is Finish && now.command->Finish_0 is Ok {
                now.db.committed == with_all(table, mails)
            } else {
                now.db.committed == table
            }
        }),
{
    lemma_moment(mails, table, replies);
}

/// The moment is one of a run on `mails` that found `table`: nothing is committed before the run
/// ends well, and what is pending are the messages that were handed over.
pub open spec fn fits(mails: Seq<Mail>, table: Table, now: Moment) -> bool {
    &&& now.state.mails == mails
    &&& match now.state.phase {
        StorePhase::New => false,
        StorePhase::Beginning => {
            &&& now.command is Begin
            &&& now.db.committed == table
        },
        StorePhase::Inserting { at, .. } => {
            &&& at < mails.len()
            &&& mails[at as int].uid is Some
            &&& now.command == StoreCommand::Insert {
                uid: mails[at as int].uid->0,
                body: mails[at as int].body,
            }
            &&& now.db.committed == table
            &&& now.db.pending == with_all(table, mails.take(at as int))
        },
        StorePhase::Committing { .. } => {
            &&& now.command is Commit
            &&& now.db.committed == table
            &&& now.db.pending == with_all(table, mails)
        },
        StorePhase::Done => {
            &&& now.command is Finish
            &&& now.command->Finish_0 is Ok ==> now.db.committed == with_all(table, mails)
            &&& now.command->Finish_0 is Err ==> now.db.committed == table
        },
    }
}

proof fn lemma_onward(mails: Seq<Mail>, table: Table, from: int)
    requires
        0 <= from <= mails.len(),
    ensures
        from <= next_with_uid(mails, from) <= mails.len(),
        next_with_uid(mails, from) < mails.len() ==> mails[next_with_uid(mails, from)].uid is Some,
        with_all(table, mails.take(next_with_uid(mails, from))) == with_all(
            table,
            mails.take(from),
        ),
    decreases mails.len() - from,
{
    if from < mails.len() && mails[from].uid is None {
        lemma_onward(mails, table, from + 1);
        assert(mails.take(from + 1).drop_last() =~= mails.take(from));
    }
}

/// A reply leads from a moment that fits to one that fits.
pub(crate) proof fn lemma_next_moment(mails: Seq<Mail>, table: Table, before: Moment, reply: StoreReply)
    requires
        mails.len() <= usize::MAX,
        fits(mails, table, before),
        store_awaits(before.state.phase, reply),
    ensures
        fits(mails, table, next_moment(before, reply)),
{
    match (before.state.phase, reply) {
        (StorePhase::Beginning, StoreReply::Begun(Ok(()))) => {
            lemma_onward(mails, table, 0);
            assert(mails.take(0) =~= seq![]);
            assert(mails.take(mails.len() as int) =~= mails);
        },
        (StorePhase::Inserting { at, .. }, StoreReply::Inserted(Ok(_))) => {
            lemma_onward(mails, table, at + 1);
            assert(mails.take(at + 1).drop_last() =~= mails.take(at as int));
            assert(mails.take(mails.len() as int) =~= mails);
        },
        _ => {},
    }
}

proof fn lemma_moment(mails: Seq<Mail>, table: Table, replies: Seq<StoreReply>)
    requires
        mails.len() <= usize::MAX,
    ensures
        fits(mails, table, moment(mails, table, replies)),
    decreases replies.len(),
{
    if replies.len() > 0 {
        lemma_moment(mails, table, replies.drop_last());
        let before = moment(mails, table, replies.drop_last());
        if store_awaits(before.state.phase, replies.last()) {
            lemma_next_moment(mails, table, before, replies.last());
        }
    }
}

/// One of the messages has this identifier.
pub open spec fn names(mails: Seq<Mail>, uid: Uid) -> bool {
    exists|i: int| 0 <= i < mails.len() && (#[trigger] mails[i]).uid == Some(uid)
}

/// A backup takes nothing away: what is kept under an identifier that no message of the run has
/// stays as it is.
pub proof fn backup_keeps_the_rest(table: Table, mails: Seq<Mail>, uid: Uid)
    requires
        !names(mails, uid),
    ensures
        with_all(table, mails).contains_key(uid) == table.contains_key(uid),
        table.contains_key(uid) ==> with_all(table, mails)[uid] == table[uid],
    decreases mails.len(),
{
    if mails.len() > 0 {
        let front = mails.drop_last();
        assert(mails[mails.len() - 1].uid != Some(uid));
        assert forall|i: int| 0 <= i < front.len() implies (#[trigger] front[i]).uid != Some(
            uid,
        ) by {
            assert(front[i] == mails[i]);
        }
        backup_keeps_the_rest(table, front, uid);
    }
}

/// What is kept under an identifier after a backup is the body of the last message of the run
/// that has it.
pub proof fn backup_keeps_the_last(table: Table, mails: Seq<Mail>, i: int)
    requires
        0 <= i < mails.len(),
        mails[i].uid is Some,
        forall|k: int| i < k < mails.len() ==> (#[trigger] mails[k]).uid != mails[i].uid,
    ensures
        with_all(table, mails).contains_key(mails[i].uid->0),
        with_all(table, mails)[mails[i].uid->0] == mails[i].body,
    decreases mails.len(),
{
    if i < mails.len() - 1 {
        let front = mails.drop_last();
        assert(mails[mails.len() - 1].uid != mails[i].uid);
        assert forall|k: int| i < k < front.len() implies (#[trigger] front[k]).uid
            != front[i].uid by {
            assert(front[k] == mails[k]);
        }
        backup_keeps_the_last(table, front, i);
    }
}

/// After a backup something is kept under exactly the identifiers that were kept before and
/// those of the messages.
pub proof fn backup_adds_what_it_names(table: Table, mails: Seq<Mail>, uid: Uid)
    ensures
        with_all(table, mails).contains_key(uid) <==> table.contains_key(uid) || names(mails, uid),
    decreases mails.len(),
{
    if mails.len() > 0 {
        let front = mails.drop_last();
        backup_adds_what_it_names(table, front, uid);
        if names(front, uid) {
            let i = choose|i: int| 0 <= i < front.len() && (#[trigger] front[i]).uid == Some(uid);
            assert(mails[i].uid == Some(uid));
        }
        if names(mails, uid) && mails.last().uid != Some(uid) {
            let i = choose|i: int| 0 <= i < mails.len() && (#[trigger] mails[i]).uid == Some(uid);
            assert(front[i].uid == Some(uid));
        }
        if mails.last().uid == Some(uid) {
            assert(mails[mails.len() - 1].uid == Some(uid));
        }
    }
}

/// The messages that a run fetches: those found that the database does not hold.
pub open spec fn missing(found: Set<Uid>, table: Table) -> Set<Uid> {
    found.difference(table.dom())
}

/// Backups are incremental: what a run has kept, a later run does not fetch again, and what it
/// has not, a later run fetches.
pub proof fn backups_are_incremental(found: Set<Uid>, table: Table, mails: Seq<Mail>, uid: Uid)
    ensures
        missing(found, with_all(table, mails)).contains(uid) <==> missing(found, table).contains(
            uid,
        ) && !names(mails, uid),
{
    backup_adds_what_it_names(table, mails, uid);
}

/// After a run that kept every message it was to fetch, there is nothing left to fetch.
pub proof fn nothing_is_left_after_a_whole_backup(found: Set<Uid>, table: Table, mails: Seq<Mail>)
    requires
        forall|uid: Uid| #[trigger] missing(found, table).contains(uid) ==> names(mails, uid),
    ensures
        missing(found, with_all(table, mails)) == Set::<Uid>::empty(),
{
    assert forall|uid: Uid| !missing(found, with_all(table, mails)).contains(uid) by {
        backups_are_incremental(found, table, mails, uid);
    }
    assert(missing(found, with_all(table, mails)) =~= Set::<Uid>::empty());
}

/// The messages are those of the table, each once.
pub open spec fn holds(table: Table, emails: Seq<Kept>) -> bool {
    &&& forall|i: int, j: int|
        0 <= i < j < emails.len() ==> (#[trigger] emails[i]).uid != (#[trigger] emails[j]).uid
    &&& forall|i: int|
        0 <= i < emails.len() ==> table.contains_key((#[trigger] emails[i]).uid)
            && table[emails[i].uid] == Some(emails[i].raw_data)
    &&& forall|uid: Uid| #[trigger]
        table.contains_key(uid) ==> exists|i: int|
            0 <= i < emails.len() && (#[trigger] emails[i]).uid == uid
}

/// What was backed up is what is read back: the messages that are read after a backup have among
/// them every message of the run, byte for byte, unless a later one had the same identifier.
pub proof fn what_was_backed_up_is_read_back(
    table: Table,
    mails: Seq<Mail>,
    emails: Seq<Kept>,
    i: int,
)
    requires
        holds(with_all(table, mails), emails),
        0 <= i < mails.len(),
        mails[i].uid is Some,
        mails[i].body is Some,
        forall|k: int| i < k < mails.len() ==> (#[trigger] mails[k]).uid != mails[i].uid,
    ensures
        emails.contains(Kept { raw_data: mails[i].body->0, uid: mails[i].uid->0 }),
{
    backup_keeps_the_last(table, mails, i);
    let uid = mails[i].uid->0;
    let k = choose|k: int| 0 <= k < emails.len() && (#[trigger] emails[k]).uid == uid;
    assert(emails[k] == Kept { raw_data: mails[i].body->0, uid });
}

proof fn lemma_same_where_named(one: Table, other: Table, mails: Seq<Mail>, uid: Uid)
    requires
        names(mails, uid),
    ensures
        with_all(one, mails)[uid] == with_all(other, mails)[uid],
    decreases mails.len(),
{
    let front = mails.drop_last();
    if mails.last().uid != Some(uid) {
        let i = choose|i: int| 0 <= i < mails.len() && (#[trigger] mails[i]).uid == Some(uid);
        assert(front[i].uid == Some(uid));
        lemma_same_where_named(one, other, front, uid);
    }
}

/// Keeping the same messages a second time changes nothing.
pub proof fn keeping_twice_changes_nothing(table: Table, mails: Seq<Mail>)
    ensures
        with_all(with_all(table, mails), mails) == with_all(table, mails),
{
    let once = with_all(table, mails);
    let twice = with_all(once, mails);
    assert forall|uid: Uid| #[trigger] twice.contains_key(uid) == once.contains_key(uid) by {
        backup_adds_what_it_names(once, mails, uid);
        backup_adds_what_it_names(table, mails, uid);
    }
    assert forall|uid: Uid| #[trigger] once.contains_key(uid) implies twice[uid] == once[uid] by {
        if names(mails, uid) {
            lemma_same_where_named(once, table, mails, uid);
        } else {
            backup_keeps_the_rest(once, mails, uid);
        }
    }
    assert(twice =~= once);
}

/// The database did what it was asked.
pub open spec fn went_well(reply: StoreReply) -> bool {
    match reply {
        StoreReply::Start => true,
        StoreReply::Begun(reply) => reply is Ok,
        StoreReply::Inserted(reply) => reply is Ok,
        StoreReply::Committed(reply) => reply is Ok,
    }
}

/// Until the run is over, each of the replies is one that the engine waits for, and the database
/// did what it was asked.
pub open spec fn all_went_well(mails: Seq<Mail>, table: Table, replies: Seq<StoreReply>) -> bool
    decreases replies.len(),
{
    replies.len() > 0 ==> {
        let phase = moment(mails, table, replies.drop_last()).state.phase;
        &&& all_went_well(mails, table, replies.drop_last())
        &&& phase is Done || store_awaits(phase, replies.last()) && went_well(replies.last())
    }
}

/// How many of the messages from `from` on have an identifier.
pub open spec fn count_with_uid(mails: Seq<Mail>, from: int) -> nat
    decreases mails.len() - from,
{
    if from >= mails.len() {
        0
    } else {
        count_with_uid(mails, from + 1) + if mails[from].uid is Some {
            1nat
        } else {
            0nat
        }
    }
}

/// How many replies a run in this state still waits for, where all goes well.
pub open spec fn replies_left(state: StoreState) -> nat {
    match state.phase {
        StorePhase::New => count_with_uid(state.mails, 0) + 3,
        StorePhase::Beginning => count_with_uid(state.mails, 0) + 2,
        StorePhase::Inserting { at, .. } => count_with_uid(state.mails, at as int) + 1,
        StorePhase::Committing { .. } => 1,
        StorePhase::Done => 0,
    }
}

proof fn lemma_count_from_next(mails: Seq<Mail>, from: int)
    requires
        0 <= from <= mails.len(),
    ensures
        from <= next_with_uid(mails, from) <= mails.len(),
        next_with_uid(mails, from) < mails.len() ==> mails[next_with_uid(mails, from)].uid is Some,
        count_with_uid(mails, next_with_uid(mails, from)) == count_with_uid(mails, from),
    decreases mails.len() - from,
{
    if from < mails.len() && mails[from].uid is None {
        lemma_count_from_next(mails, from + 1);
    }
}

pub(crate) proof fn lemma_count_at_most(mails: Seq<Mail>, from: int)
    requires
        0 <= from <= mails.len(),
    ensures
        count_with_uid(mails, from) <= mails.len() - from,
    decreases mails.len() - from,
{
    if from < mails.len() {
        lemma_count_at_most(mails, from + 1);
    }
}

/// A reply that went well leads on by one, and never to a failure.
pub(crate) proof fn lemma_leads_on(mails: Seq<Mail>, table: Table, before: Moment, reply: StoreReply)
    requires
        mails.len() <= usize::MAX,
        fits(mails, table, before),
        store_awaits(before.state.phase, reply),
        went_well(reply),
    ensures
        replies_left(next_moment(before, reply).state) + 1 == replies_left(before.state),
        next_moment(before, reply).command is Finish ==> next_moment(
            before,
            reply,
        ).command->Finish_0 is Ok,
{
    match before.state.phase {
        StorePhase::Beginning => {
            lemma_count_from_next(mails, 0);
        },
        StorePhase::Inserting { at, .. } => {
            lemma_count_from_next(mails, at + 1);
        },
        _ => {},
    }
}

/// A run to which the database answers well does not fail, and ends well: after one reply for
/// each message that has an identifier, and two more.
pub proof fn backup_that_goes_well_ends_well(
    mails: Seq<Mail>,
    table: Table,
    replies: Seq<StoreReply>,
)
    requires
        mails.len() <= usize::MAX,
        all_went_well(mails, table, replies),
    ensures
        ({
            let now = moment(mails, table, replies);
            &&& now.command is Finish ==> now.command->Finish_0 is Ok
            &&& now.command is Finish <==> replies.len() >= count_with_uid(mails, 0) + 2
        }),
{
    lemma_moment(mails, table, replies);
    lemma_replies_left(mails, table, replies);
}

proof fn lemma_replies_left(mails: Seq<Mail>, table: Table, replies: Seq<StoreReply>)
    requires
        mails.len() <= usize::MAX,
        all_went_well(mails, table, replies),
    ensures
        ({
            let now = moment(mails, table, replies);
            let total = count_with_uid(mails, 0) + 2;
            &&& now.command is Finish ==> now.command->Finish_0 is Ok
            &&& replies_left(now.state) == if replies.len() < total {
                total - replies.len()
            } else {
                0
            }
        }),
    decreases replies.len(),
{
    if replies.len() > 0 {
        lemma_replies_left(mails, table, replies.drop_last());
        lemma_moment(mails, table, replies.drop_last());
        let before = moment(mails, table, replies.drop_last());
        if !(before.state.phase is Done) {
            lemma_leads_on(mails, table, before, replies.last());
        }
    }
}

/// Every insert among the replies changed the database.
pub open spec fn every_insert_counts(replies: Seq<StoreReply>) -> bool {
    forall|i: int|
        0 <= i < replies.len() && (#[trigger] replies[i]) is Inserted ==> replies[i]->Inserted_0
            is Ok && replies[i]->Inserted_0->Ok_0 != 0
}

/// Where all goes well and every insert changes the database, the line that closes a run tells
/// how many of the messages have an identifier, and how many messages there are.
pub proof fn closing_line_counts_the_messages(
    mails: Seq<Mail>,
    table: Table,
    replies: Seq<StoreReply>,
)
    requires
        mails.len() <= usize::MAX,
        all_went_well(mails, table, replies),
        every_insert_counts(replies),
        moment(mails, table, replies).command is Commit,
    ensures
        store_step(moment(mails, table, replies).state, StoreReply::Committed(Ok(()))).report
            == seq![backed_up_line(count_with_uid(mails, 0), mails.len())],
{
    lemma_moment(mails, table, replies);
    lemma_stored(mails, table, replies);
}

proof fn lemma_stored(mails: Seq<Mail>, table: Table, replies: Seq<StoreReply>)
    requires
        mails.len() <= usize::MAX,
        all_went_well(mails, table, replies),
        every_insert_counts(replies),
    ensures
        match moment(mails, table, replies).state.phase {
            StorePhase::Inserting { at, stored } => stored + count_with_uid(mails, at as int)
                == count_with_uid(mails, 0),
            StorePhase::Committing { stored } => stored == count_with_uid(mails, 0),
            _ => true,
        },
    decreases replies.len(),
{
    if replies.len() > 0 {
        let front = replies.drop_last();
        assert forall|i: int| 0 <= i < front.len() && (#[trigger] front[i]) is Inserted implies front[i]->Inserted_0
            is Ok && front[i]->Inserted_0->Ok_0 != 0 by {
            assert(front[i] == replies[i]);
        }
        lemma_stored(mails, table, front);
        lemma_moment(mails, table, front);
        lemma_count_at_most(mails, 0);
        assert(replies[replies.len() - 1] == replies.last());
        match moment(mails, table, front).state.phase {
            StorePhase::Beginning => {
                lemma_count_from_next(mails, 0);
            },
            StorePhase::Inserting { at, .. } => {
                lemma_count_from_next(mails, at + 1);
            },
            _ => {},
        }
    }
}

} // verus!
