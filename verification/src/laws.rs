//! What holds of whole runs.

use vstd::prelude::*;

use crate::backup::{
    backup_awaits, backup_step, download, picks, BackupNews, BackupOutcome, BackupRequest,
    BackupStage, BackupState,
};
use crate::config::{Account, BackupSetting};
use crate::export::{
    export_awaits, export_step, ExportNews, ExportRequest, ExportStage, ExportState,
};
use crate::fetch::{
    every_message_is_gathered, fetched, jobs_of, only_messages_are_gathered, Job, Trouble,
};
use crate::mbox::{
    all_on_calendar, entry_of, every_entry_is_in_the_file, left_out, lemma_mbox_leads_on,
    lemma_next_mbox_moment, mbox_fits, mbox_of, mbox_replies_left, mbox_went_well, target_of,
    MboxCommand, MboxMoment, MboxReply,
};
use crate::message::{Kept, Mail};
use crate::reply::{first_error, first_error_is_the_first};
use crate::sqlite::{each_row_is_read, emails_read, kept_is_what_a_row_has, uids_read};
use crate::steps::download_asks_for_its_list;
use crate::table::{
    backup_adds_what_it_names, backup_keeps_the_rest, count_with_uid, fits, holds,
    lemma_count_at_most, lemma_leads_on, lemma_next_moment, missing, names, perform, replies_left,
    went_well, what_was_backed_up_is_read_back, with_all, Database, Moment, Table,
};
use crate::text::decimal;
use crate::uids::{
    chunks, every_worker_has_a_piece, lists, no_more_pieces_than_workers,
    pieces_are_of_fair_length, pieces_make_up_the_list, read_uid_set, share,
    uid_set_names_its_members, Uid,
};

verus! {

/// The identifiers that the server is asked for, fetch after fetch.
pub open spec fn asked_for(jobs: Seq<Job>) -> Seq<nat>
    decreases jobs.len(),
{
    if jobs.len() == 0 {
        seq![]
    } else {
        read_uid_set(jobs[0].uids) + asked_for(jobs.drop_first())
    }
}

/// The values of a list of identifiers.
pub open spec fn values(list: Seq<Uid>) -> Seq<nat> {
    list.map_values(|uid: Uid| uid as nat)
}

/// A download asks for the messages of its list, each once and in order, in no more fetches than
/// there are workers.
pub proof fn workers_share_the_list(
    state: BackupState,
    before: Seq<Seq<char>>,
    list: Seq<Uid>,
)
    requires
        state.workers > 0,
        list.len() > 0,
    ensures
        download(state, before, list).request is Fetch,
        download(state, before, list).request->Fetch_0.len() <= state.workers,
        asked_for(download(state, before, list).request->Fetch_0) == values(list),
{
    let workers = state.workers as nat;
    let pieces = chunks(list, share(list.len(), workers));
    no_more_pieces_than_workers(list, workers);
    pieces_make_up_the_list(list, share(list.len(), workers));
    assert forall|k: int| 0 <= k < pieces.len() implies (#[trigger] pieces[k]).len() > 0 by {
        pieces_are_of_fair_length(list, share(list.len(), workers), k);
    }
    lemma_asked_for(state.account, pieces);
}

/// A download of at least as many messages as the square of the number of workers gives every
/// worker one fetch.
pub proof fn every_worker_fetches(state: BackupState, before: Seq<Seq<char>>, list: Seq<Uid>)
    requires
        state.workers > 0,
        list.len() >= state.workers * state.workers,
    ensures
        download(state, before, list).request is Fetch,
        download(state, before, list).request->Fetch_0.len() == state.workers,
{
    let workers = state.workers as nat;
    assert(workers * workers > 0) by (nonlinear_arith)
        requires
            workers > 0,
    ;
    every_worker_has_a_piece(list, workers);
}

proof fn lemma_asked_for(account: Account, pieces: Seq<Seq<Uid>>)
    requires
        forall|k: int| 0 <= k < pieces.len() ==> (#[trigger] pieces[k]).len() > 0,
    ensures
        asked_for(jobs_of(account, pieces)) == values(pieces.flatten()),
    decreases pieces.len(),
{
    let jobs = jobs_of(account, pieces);
    if pieces.len() == 0 {
        assert(asked_for(jobs) =~= values(pieces.flatten()));
    } else {
        let rest = pieces.drop_first();
        assert forall|k: int| 0 <= k < rest.len() implies (#[trigger] rest[k]).len() > 0 by {
            assert(rest[k] == pieces[k + 1]);
        }
        lemma_asked_for(account, rest);
        assert(pieces[0].len() > 0);
        uid_set_names_its_members(pieces[0]);
        assert(jobs.drop_first() =~= jobs_of(account, rest));
        assert(values(pieces[0]) + values(rest.flatten()) =~= values(
            pieces[0] + rest.flatten(),
        ));
    }
}

/// A backup to a database asks the server for the messages in the mailbox that the database does
/// not hold, for each of them once, and for nothing else.
pub proof fn backup_asks_for_what_is_missing(
    state: BackupState,
    found: Set<Uid>,
    rows: Seq<Result<Uid, Seq<char>>>,
    outcome: BackupOutcome,
)
    requires
        state.workers > 0,
        state.stage == (BackupStage::Filtering { found }),
        first_error(rows) is None,
        backup_step(state, BackupNews::UidsRead(rows), outcome),
    ensures
        match outcome.request {
            BackupRequest::Fetch(jobs) => {
                &&& asked_for(jobs).no_duplicates()
                &&& forall|uid: Uid| #[trigger]
                    found.contains(uid) && !uids_read(rows).contains(uid) <==> asked_for(
                        jobs,
                    ).contains(uid as nat)
            },
            BackupRequest::Finish(result) => {
                &&& result is Ok
                &&& forall|uid: Uid| #[trigger] found.contains(uid) ==> uids_read(rows).contains(uid)
            },
            _ => false,
        },
{
    let wanted = found.difference(uids_read(rows));
    let list = choose|list: Seq<Uid>| #[trigger]
        lists(list, wanted) && outcome == download(state, seq![], list);
    assert forall|uid: Uid| list.contains(uid) <==> #[trigger] wanted.contains(uid) by {
        assert(list.to_set().contains(uid) <==> list.contains(uid));
    }
    if list.len() == 0 {
        assert forall|uid: Uid| #[trigger] found.contains(uid) implies uids_read(rows).contains(
            uid,
        ) by {
            assert(!wanted.contains(uid));
        }
    } else {
        workers_share_the_list(state, seq![], list);
        assert forall|uid: Uid|
            #[trigger] found.contains(uid) && !uids_read(rows).contains(uid) <==> values(
                list,
            ).contains(uid as nat) by {
            assert(wanted.contains(uid) <==> list.contains(uid));
            if list.contains(uid) {
                let k = list.index_of(uid);
                assert(values(list)[k] == uid as nat);
            }
            if values(list).contains(uid as nat) {
                let k = values(list).index_of(uid as nat);
                assert(list[k] == uid);
            }
        }
    }
}

/// Backups are incremental: a run that follows one that kept `mails` in the database asks the
/// server for the messages in the mailbox that the database neither held before nor got then, and
/// for nothing else.
pub proof fn later_backup_asks_for_the_rest(
    table: Table,
    mails: Seq<Mail>,
    state: BackupState,
    found: Set<Uid>,
    rows: Seq<Result<Uid, Seq<char>>>,
    outcome: BackupOutcome,
)
    requires
        state.workers > 0,
        state.stage == (BackupStage::Filtering { found }),
        first_error(rows) is None,
        uids_read(rows) == with_all(table, mails).dom(),
        backup_step(state, BackupNews::UidsRead(rows), outcome),
    ensures
        match outcome.request {
            BackupRequest::Fetch(jobs) => {
                &&& asked_for(jobs).no_duplicates()
                &&& forall|uid: Uid| #[trigger]
                    found.contains(uid) && !table.contains_key(uid) && !names(mails, uid)
                        <==> asked_for(jobs).contains(uid as nat)
            },
            BackupRequest::Finish(result) => {
                &&& result is Ok
                &&& forall|uid: Uid| #[trigger]
                    found.contains(uid) ==> table.contains_key(uid) || names(mails, uid)
            },
            _ => false,
        },
{
    backup_asks_for_what_is_missing(state, found, rows, outcome);
    assert forall|uid: Uid| #[trigger] found.contains(uid) implies (uids_read(rows).contains(uid)
        <==> table.contains_key(uid) || names(mails, uid)) by {
        backup_adds_what_it_names(table, mails, uid);
    }
    if let BackupRequest::Fetch(jobs) = outcome.request {
        assert forall|uid: Uid| #[trigger]
            found.contains(uid) && !table.contains_key(uid) && !names(mails, uid) <==> asked_for(
                jobs,
            ).contains(uid as nat) by {
            backup_adds_what_it_names(table, mails, uid);
            assert(found.contains(uid) && !uids_read(rows).contains(uid) <==> asked_for(
                jobs,
            ).contains(uid as nat));
        }
    }
}

/// One step of a backup: the news that it was told, and what they led to.
pub struct Turn {
    pub news: BackupNews,
    pub outcome: BackupOutcome,
}

/// Where a backup is after these steps.
pub open spec fn state_after(start: BackupState, turns: Seq<Turn>) -> BackupState {
    if turns.len() == 0 {
        start
    } else {
        turns.last().outcome.state
    }
}

/// The steps can follow each other: each is told news that it waits for, and leads where these
/// can lead.
pub open spec fn possible(start: BackupState, turns: Seq<Turn>) -> bool
    decreases turns.len(),
{
    turns.len() > 0 ==> {
        let before = state_after(start, turns.drop_last());
        &&& possible(start, turns.drop_last())
        &&& backup_awaits(before.stage, turns.last().news)
        &&& backup_step(before, turns.last().news, turns.last().outcome)
    }
}

/// The database after these steps, where it held `table` before.
pub open spec fn database_after(table: Table, turns: Seq<Turn>) -> Database
    decreases turns.len(),
{
    if turns.len() == 0 {
        Database { committed: table, pending: table }
    } else {
        let before = turns.drop_last();
        let db = database_after(table, before);
        if before.len() > 0 && before.last().outcome.request is Store
            && turns.last().news is Store {
            perform(db, before.last().outcome.request->Store_0, turns.last().news->Store_0)
        } else {
            db
        }
    }
}

/// The messages that the workers fetched in the course of these steps.
pub open spec fn received(turns: Seq<Turn>) -> Seq<Mail>
    decreases turns.len(),
{
    if turns.len() == 0 {
        seq![]
    } else {
        match turns.last().news {
            BackupNews::Fetched(results) => if first_error(results) is None {
                fetched(results)
            } else {
                seq![]
            },
            _ => received(turns.drop_last()),
        }
    }
}

spec fn tells_of(table: Table, turns: Seq<Turn>) -> bool {
    let now = turns.last().outcome;
    let db = database_after(table, turns);
    let mails = received(turns);
    match now.state.stage {
        BackupStage::Storing(run) => {
            &&& now.request is Store
            &&& fits(mails, table, Moment { state: run, command: now.request->Store_0, db })
        },
        BackupStage::Done => {
            &&& now.request is Finish
            &&& now.request->Finish_0 is Ok ==> db.committed == with_all(table, mails)
            &&& now.request->Finish_0 is Err ==> db.committed == table
        },
        _ => {
            &&& now.request !is Store
            &&& now.request !is Finish
            &&& db.committed == table
            &&& mails == Seq::<Mail>::empty()
        },
    }
}

/// A whole backup to a database is all or nothing: whatever the server and the database answer,
/// and wherever it is cut off, the database holds what it held before, except that after a
/// backup that ended well it holds all the messages that were fetched as well.
pub proof fn whole_backup_is_all_or_nothing(start: BackupState, table: Table, turns: Seq<Turn>)
    requires
        start.stage is Start,
        start.account.backup is Some,
        start.account.backup->0 is Sqlite,
        possible(start, turns),
        received(turns).len() <= usize::MAX,
        turns.len() > 0,
    ensures
        ({
            let request = turns.last().outcome.request;
            let db = database_after(table, turns);
            if request is Finish && request->Finish_0 is Ok {
                db.committed == with_all(table, received(turns))
            } else {
                db.committed == table
            }
        }),
{
    lemma_tells_of(start, table, turns);
}

proof fn lemma_tells_of(start: BackupState, table: Table, turns: Seq<Turn>)
    requires
        start.stage is Start,
        start.account.backup is Some,
        start.account.backup->0 is Sqlite,
        possible(start, turns),
        received(turns).len() <= usize::MAX,
        turns.len() > 0,
    ensures
        tells_of(table, turns),
        turns.last().outcome.state.account == start.account,
    decreases turns.len(),
{
    let before = turns.drop_last();
    let news = turns.last().news;
    if before.len() > 0 {
        lemma_nothing_received(start, before);
        lemma_tells_of(start, table, before);
        let state = before.last().outcome.state;
        match state.stage {
            BackupStage::Storing(run) => {
                let now = Moment {
                    state: run,
                    command: before.last().outcome.request->Store_0,
                    db: database_after(table, before),
                };
                lemma_next_moment(received(turns), table, now, news->Store_0);
            },
            _ => {},
        }
    } else {
        assert(received(before) == Seq::<Mail>::empty());
        assert(database_after(table, before).committed == table);
    }
}

proof fn lemma_nothing_received(start: BackupState, turns: Seq<Turn>)
    requires
        start.stage is Start,
        possible(start, turns),
    ensures
        match state_after(start, turns).stage {
            BackupStage::Storing(_) => true,
            BackupStage::Done => true,
            _ => received(turns) == Seq::<Mail>::empty(),
        },
        state_after(start, turns).account == start.account,
    decreases turns.len(),
{
    if turns.len() > 0 {
        lemma_nothing_received(start, turns.drop_last());
    }
}

/// The news are good: what was asked for was done.
pub open spec fn is_good(news: BackupNews) -> bool {
    match news {
        BackupNews::Begin => true,
        BackupNews::DatabaseOpened(reply) => reply is Ok,
        BackupNews::SessionOpened(reply) => reply is Ok,
        BackupNews::Listed(reply) => reply is Ok,
        BackupNews::UidsRead(rows) => first_error(rows) is None,
        BackupNews::Fetched(results) => first_error(results) is None,
        BackupNews::Store(reply) => went_well(reply),
    }
}

/// A backup to a database that gets good news only does not fail, and ends well: it is over after
/// at most eight steps and one for each message that was fetched.
pub proof fn whole_backup_that_goes_well_ends_well(start: BackupState, turns: Seq<Turn>)
    requires
        start.stage is Start,
        start.account.backup is Some,
        start.account.backup->0 is Sqlite,
        possible(start, turns),
        forall|i: int| 0 <= i < turns.len() ==> is_good((#[trigger] turns[i]).news),
        received(turns).len() <= usize::MAX,
        turns.len() > 0,
    ensures
        ({
            let request = turns.last().outcome.request;
            &&& request is Finish ==> request->Finish_0 is Ok
            &&& turns.len() >= 8 + received(turns).len() ==> request is Finish
        }),
{
    let table = Map::empty();
    lemma_tells_of(start, table, turns);
    lemma_steps_taken(start, turns);
    lemma_count_at_most(received(turns), 0);
}

spec fn steps_taken(turns: Seq<Turn>) -> bool {
    let now = turns.last().outcome;
    match now.state.stage {
        BackupStage::Start => false,
        BackupStage::Opening => turns.len() == 1,
        BackupStage::Connecting => turns.len() == 2,
        BackupStage::Listing => turns.len() == 3,
        BackupStage::Filtering { .. } => turns.len() == 4,
        BackupStage::Fetching => turns.len() == 5,
        BackupStage::Storing(run) => turns.len() + replies_left(run) == count_with_uid(
            received(turns),
            0,
        ) + 8,
        BackupStage::Done => now.request is Finish && now.request->Finish_0 is Ok,
    }
}

proof fn lemma_steps_taken(start: BackupState, turns: Seq<Turn>)
    requires
        start.stage is Start,
        start.account.backup is Some,
        start.account.backup->0 is Sqlite,
        possible(start, turns),
        forall|i: int| 0 <= i < turns.len() ==> is_good((#[trigger] turns[i]).news),
        received(turns).len() <= usize::MAX,
        turns.len() > 0,
    ensures
        steps_taken(turns),
    decreases turns.len(),
{
    let before = turns.drop_last();
    let news = turns.last().news;
    let table = Map::empty();
    assert(is_good(turns[turns.len() - 1].news));
    if before.len() > 0 {
        assert forall|i: int| 0 <= i < before.len() implies is_good(
            (#[trigger] before[i]).news,
        ) by {
            assert(before[i] == turns[i]);
        }
        lemma_nothing_received(start, before);
        lemma_steps_taken(start, before);
        lemma_tells_of(start, table, before);
        let state = before.last().outcome.state;
        match state.stage {
            BackupStage::Storing(run) => {
                let now = Moment {
                    state: run,
                    command: before.last().outcome.request->Store_0,
                    db: database_after(table, before),
                };
                lemma_next_moment(received(turns), table, now, news->Store_0);
                lemma_leads_on(received(turns), table, now, news->Store_0);
            },
            _ => {},
        }
    }
}

/// The messages that the mailbox was said to have in the course of these steps.
pub open spec fn listed(turns: Seq<Turn>) -> Set<Uid>
    decreases turns.len(),
{
    if turns.len() == 0 {
        Set::empty()
    } else {
        match turns.last().news {
            BackupNews::Listed(Ok(found)) => found,
            _ => listed(turns.drop_last()),
        }
    }
}

/// The messages that the database was said to hold in the course of these steps.
pub open spec fn held(turns: Seq<Turn>) -> Set<Uid>
    decreases turns.len(),
{
    if turns.len() == 0 {
        Set::empty()
    } else {
        match turns.last().news {
            BackupNews::UidsRead(rows) => uids_read(rows),
            _ => held(turns.drop_last()),
        }
    }
}

/// The identifiers that the server was asked for in the course of these steps.
pub open spec fn requested(turns: Seq<Turn>) -> Seq<nat>
    decreases turns.len(),
{
    if turns.len() == 0 {
        seq![]
    } else {
        match turns.last().outcome.request {
            BackupRequest::Fetch(jobs) => asked_for(jobs),
            _ => requested(turns.drop_last()),
        }
    }
}

/// The server answered what it was asked: each message that was asked for came, with its body,
/// and nothing else did.
pub open spec fn is_answered(
    requested: Seq<nat>,
    mails: Seq<Mail>,
    bodies: Map<Uid, Seq<u8>>,
) -> bool {
    &&& forall|i: int|
        0 <= i < mails.len() ==> {
            &&& (#[trigger] mails[i]).uid is Some
            &&& requested.contains(mails[i].uid->0 as nat)
            &&& mails[i].body == Some(bodies[mails[i].uid->0])
        }
    &&& forall|uid: Uid| requested.contains(uid as nat) ==> #[trigger] names(mails, uid)
}

/// The table with each message added that was found and is missing in it.
pub open spec fn with_missing(
    table: Table,
    found: Set<Uid>,
    bodies: Map<Uid, Seq<u8>>,
) -> Table {
    table.union_prefer_right(
        Map::new(|uid: Uid| missing(found, table).contains(uid), |uid: Uid| Some(bodies[uid])),
    )
}

/// What a whole backup leaves: where the database told what it holds, and the server answered
/// what it was asked, a backup that ended well has added each message of the mailbox that was
/// missing, under its identifier and with its body, and has left the rest as it was. The number
/// of workers makes no difference.
pub proof fn whole_backup_adds_what_was_missing(
    start: BackupState,
    table: Table,
    turns: Seq<Turn>,
    bodies: Map<Uid, Seq<u8>>,
)
    requires
        start.stage is Start,
        start.account.backup is Some,
        start.account.backup->0 is Sqlite,
        start.workers > 0,
        possible(start, turns),
        received(turns).len() <= usize::MAX,
        turns.len() > 0,
        turns.last().outcome.request is Finish,
        turns.last().outcome.request->Finish_0 is Ok,
        held(turns) == table.dom(),
        is_answered(requested(turns), received(turns), bodies),
    ensures
        database_after(table, turns).committed == with_missing(table, listed(turns), bodies),
{
    let mails = received(turns);
    let now = with_all(table, mails);
    let target = with_missing(table, listed(turns), bodies);
    whole_backup_is_all_or_nothing(start, table, turns);
    lemma_tells_of(start, table, turns);
    lemma_requested(start, turns);
    assert forall|uid: Uid| names(mails, uid) <==> #[trigger] missing(
        listed(turns),
        table,
    ).contains(uid) by {
        assert(listed(turns).contains(uid) && !held(turns).contains(uid) <==> requested(
            turns,
        ).contains(uid as nat));
        if names(mails, uid) {
            let i = choose|i: int| 0 <= i < mails.len() && (#[trigger] mails[i]).uid == Some(uid);
            assert(requested(turns).contains(mails[i].uid->0 as nat));
        }
    }
    assert forall|uid: Uid| #[trigger] now.contains_key(uid) == target.contains_key(uid) by {
        backup_adds_what_it_names(table, mails, uid);
        assert(names(mails, uid) <==> missing(listed(turns), table).contains(uid));
    }
    assert forall|uid: Uid| #[trigger] now.contains_key(uid) implies now[uid] == target[uid] by {
        assert(names(mails, uid) <==> missing(listed(turns), table).contains(uid));
        assert(target.contains_key(uid));
        if names(mails, uid) {
            lemma_body_of_named(table, mails, uid, Some(bodies[uid]));
        } else {
            backup_keeps_the_rest(table, mails, uid);
        }
    }
    assert(now =~= target);
}

proof fn lemma_body_of_named(table: Table, mails: Seq<Mail>, uid: Uid, body: Option<Seq<u8>>)
    requires
        names(mails, uid),
        forall|i: int|
            0 <= i < mails.len() && (#[trigger] mails[i]).uid == Some(uid) ==> mails[i].body
                == body,
    ensures
        with_all(table, mails)[uid] == body,
    decreases mails.len(),
{
    let front = mails.drop_last();
    let last = mails[mails.len() - 1];
    if last.uid != Some(uid) {
        let i = choose|i: int| 0 <= i < mails.len() && (#[trigger] mails[i]).uid == Some(uid);
        assert(front[i].uid == Some(uid));
        assert forall|k: int|
            0 <= k < front.len() && (#[trigger] front[k]).uid == Some(uid) implies front[k].body
            == body by {
            assert(front[k] == mails[k]);
        }
        lemma_body_of_named(table, front, uid, body);
    }
}

spec fn names_the_missing(requested: Seq<nat>, listed: Set<Uid>, held: Set<Uid>) -> bool {
    forall|uid: Uid| #[trigger]
        listed.contains(uid) && !held.contains(uid) <==> requested.contains(uid as nat)
}

spec fn asks_for_the_missing(turns: Seq<Turn>) -> bool {
    names_the_missing(requested(turns), listed(turns), held(turns))
}

proof fn lemma_requested(start: BackupState, turns: Seq<Turn>)
    requires
        start.stage is Start,
        start.account.backup is Some,
        start.account.backup->0 is Sqlite,
        start.workers > 0,
        possible(start, turns),
        turns.len() > 0,
    ensures
        ({
            let now = turns.last().outcome;
            &&& now.state.workers == start.workers
            &&& now.state.account == start.account
            &&& match now.state.stage {
                BackupStage::Fetching => asks_for_the_missing(turns),
                BackupStage::Storing(_) => asks_for_the_missing(turns),
                BackupStage::Done => now.request is Finish && now.request->Finish_0 is Ok
                    ==> asks_for_the_missing(turns),
                BackupStage::Filtering { found } => requested(turns).len() == 0 && found == listed(
                    turns,
                ),
                _ => requested(turns).len() == 0,
            }
        }),
    decreases turns.len(),
{
    let before = turns.drop_last();
    if before.len() > 0 {
        lemma_requested(start, before);
        let state = before.last().outcome.state;
        match (state.stage, turns.last().news) {
            (BackupStage::Filtering { found }, BackupNews::UidsRead(rows)) => {
                if first_error(rows) is None {
                    backup_asks_for_what_is_missing(state, found, rows, turns.last().outcome);
                    assert(held(turns) == uids_read(rows));
                    assert(listed(turns) == found);
                    assert(asks_for_the_missing(turns));
                }
            },
            (BackupStage::Fetching, _) => {
                assert(requested(turns) == requested(before));
                assert(listed(turns) == listed(before));
                assert(held(turns) == held(before));
            },
            (BackupStage::Storing(_), _) => {
                assert(requested(turns) == requested(before));
                assert(listed(turns) == listed(before));
                assert(held(turns) == held(before));
            },
            _ => {},
        }
    } else {
        assert(requested(before).len() == 0);
    }
}

/// A moment of an export: where it is, what it has asked for, the messages that were read, and
/// what has been written and told.
pub struct ExportMoment {
    pub state: ExportState,
    pub request: ExportRequest,
    pub read: Seq<Kept>,
    pub written: Seq<u8>,
    pub told: Seq<Seq<char>>,
}

/// Where an export of the backup of `account` is after these news, one after the other. News that
/// it does not wait for are passed over.
pub open spec fn export_moment(account: Account, news: Seq<ExportNews>) -> ExportMoment
    decreases news.len(),
{
    if news.len() == 0 {
        let begun = export_step(
            ExportState { account, stage: ExportStage::Start },
            ExportNews::Begin,
        );
        ExportMoment {
            state: begun.state,
            request: begun.request,
            read: seq![],
            written: seq![],
            told: seq![],
        }
    } else {
        let before = export_moment(account, news.drop_last());
        if export_awaits(before.state.stage, news.last()) {
            next_export_moment(before, news.last())
        } else {
            before
        }
    }
}

/// The moment after news that the export waits for.
pub open spec fn next_export_moment(before: ExportMoment, news: ExportNews) -> ExportMoment {
    let outcome = export_step(before.state, news);
    ExportMoment {
        state: outcome.state,
        request: outcome.request,
        read: match news {
            ExportNews::EmailsRead(rows) => if first_error(rows) is None {
                emails_read(rows)
            } else {
                before.read
            },
            _ => before.read,
        },
        written: match (before.request, news) {
            (
                ExportRequest::Export(MboxCommand::Write(bytes)),
                ExportNews::Export(MboxReply::Written(Ok(()))),
            ) => before.written + bytes,
            _ => before.written,
        },
        told: match (before.request, news) {
            (
                ExportRequest::Export(MboxCommand::Tell(line)),
                ExportNews::Export(MboxReply::Told),
            ) => before.told.push(line),
            _ => before.told,
        },
    }
}

spec fn export_fits(now: ExportMoment, k: int) -> bool {
    &&& 0 <= k <= now.read.len()
    &&& now.written == mbox_of(now.read.take(k))
    &&& now.told == left_out(now.read.take(k))
    &&& match now.state.stage {
        ExportStage::Exporting(run) => {
            &&& now.request is Export
            &&& mbox_fits(
                now.read,
                MboxMoment {
                    state: run,
                    command: now.request->Export_0,
                    written: now.written,
                    told: now.told,
                },
                k,
            )
        },
        ExportStage::Done => {
            &&& now.request is Finish
            &&& now.request->Finish_0 is Ok ==> k == now.read.len()
        },
        _ => {
            &&& now.request !is Finish
            &&& now.request !is Export
            &&& now.read == Seq::<Kept>::empty()
        },
    }
}

/// However far an export has come, what it has written is the mbox file of the first so many of
/// the messages that were read, and it has told of each of them that was left out. An export that
/// ends well has done so for all that were read.
pub proof fn whole_export_writes_the_mbox_file(account: Account, news: Seq<ExportNews>)
    requires
        export_moment(account, news).read.len() <= usize::MAX,
    ensures
        ({
            let now = export_moment(account, news);
            &&& exists|k: int|
                0 <= k <= now.read.len() && now.written == #[trigger] mbox_of(now.read.take(k))
                    && now.told == left_out(now.read.take(k))
            &&& now.request is Finish && now.request->Finish_0 is Ok ==> now.written == mbox_of(
                now.read,
            ) && now.told == left_out(now.read)
        }),
{
    let k = lemma_export_moment(account, news);
    let now = export_moment(account, news);
    assert(now.read.take(now.read.len() as int) =~= now.read);
}

/// The news are good: what was asked for was done.
pub open spec fn is_good_for_export(news: ExportNews) -> bool {
    match news {
        ExportNews::Begin => true,
        ExportNews::DatabaseOpened(reply) => reply is Ok,
        ExportNews::EmailsRead(rows) => first_error(rows) is None,
        ExportNews::Export(reply) => mbox_went_well(reply),
    }
}

/// Until the export is over, each of the news is one that it waits for, and good.
pub open spec fn all_good_for_export(account: Account, news: Seq<ExportNews>) -> bool
    decreases news.len(),
{
    news.len() > 0 ==> {
        let stage = export_moment(account, news.drop_last()).state.stage;
        &&& all_good_for_export(account, news.drop_last())
        &&& stage is Done || export_awaits(stage, news.last()) && is_good_for_export(news.last())
    }
}

/// An export from a database that gets good news only, and of messages with dates that the
/// calendar has, does not fail, and ends well: after one piece of news for each message that was
/// read, and three more.
pub proof fn whole_export_that_goes_well_ends_well(account: Account, news: Seq<ExportNews>)
    requires
        account.backup is Some,
        account.backup->0 is Sqlite,
        account.export is Some,
        all_good_for_export(account, news),
        all_on_calendar(export_moment(account, news).read),
        export_moment(account, news).read.len() <= usize::MAX,
    ensures
        ({
            let now = export_moment(account, news);
            &&& now.request is Finish ==> now.request->Finish_0 is Ok
            &&& now.request is Finish <==> news.len() >= 3 + now.read.len()
        }),
{
    lemma_export_moment(account, news);
    lemma_export_steps(account, news);
}

spec fn export_steps(now: ExportMoment, steps: nat) -> bool {
    match now.state.stage {
        ExportStage::Start => false,
        ExportStage::Opening => steps == 0,
        ExportStage::Reading => steps == 1,
        ExportStage::Exporting(run) => {
            &&& steps + mbox_replies_left(run) == now.read.len() + 3
            &&& mbox_replies_left(run) > 0
        },
        ExportStage::Done => {
            &&& now.request is Finish
            &&& now.request->Finish_0 is Ok
            &&& steps >= now.read.len() + 3
        },
    }
}

proof fn lemma_export_steps(account: Account, news: Seq<ExportNews>)
    requires
        account.backup is Some,
        account.backup->0 is Sqlite,
        account.export is Some,
        all_good_for_export(account, news),
        all_on_calendar(export_moment(account, news).read),
        export_moment(account, news).read.len() <= usize::MAX,
    ensures
        export_steps(export_moment(account, news), news.len()),
        export_moment(account, news).state.account == account,
    decreases news.len(),
{
    if news.len() > 0 {
        let now = export_moment(account, news);
        let before = export_moment(account, news.drop_last());
        lemma_nothing_read(account, news.drop_last());
        let k = lemma_export_moment(account, news.drop_last());
        lemma_export_steps(account, news.drop_last());
        match (before.state.stage, news.last()) {
            (ExportStage::Exporting(run), ExportNews::Export(reply)) => {
                let engine = MboxMoment {
                    state: run,
                    command: before.request->Export_0,
                    written: before.written,
                    told: before.told,
                };
                let next = lemma_next_mbox_moment(target_of(account), now.read, engine, k, reply);
                lemma_mbox_leads_on(target_of(account), now.read, engine, k, reply);
            },
            _ => {},
        }
    }
}

/// What was backed up is what is exported: after an export that ended well, of a database that a
/// run kept `mails` in, the file has the entry of every message of the run, with the message byte
/// for byte. Left out are messages that have no entry, and those whose identifier a later one had.
pub proof fn what_was_backed_up_is_exported(
    account: Account,
    news: Seq<ExportNews>,
    table: Table,
    mails: Seq<Mail>,
    i: int,
) -> (around: (Seq<u8>, Seq<u8>))
    requires
        export_moment(account, news).read.len() <= usize::MAX,
        export_moment(account, news).request is Finish,
        export_moment(account, news).request->Finish_0 is Ok,
        holds(with_all(table, mails), export_moment(account, news).read),
        0 <= i < mails.len(),
        mails[i].uid is Some,
        mails[i].body is Some,
        forall|k: int| i < k < mails.len() ==> (#[trigger] mails[k]).uid != mails[i].uid,
        entry_of(kept_mail(mails[i])) is Some,
        entry_of(kept_mail(mails[i]))->0 is Ok,
    ensures
        export_moment(account, news).written == around.0 + entry_of(
            kept_mail(mails[i]),
        )->0->Ok_0 + around.1,
{
    let read = export_moment(account, news).read;
    whole_export_writes_the_mbox_file(account, news);
    what_was_backed_up_is_read_back(table, mails, read, i);
    let k = read.index_of(kept_mail(mails[i]));
    let rest = every_entry_is_in_the_file(read, k);
    (mbox_of(read.take(k)), rest)
}

/// What is read of a message that has an identifier and a body, once it is kept.
pub open spec fn kept_mail(mail: Mail) -> Kept {
    Kept { raw_data: mail.body->0, uid: mail.uid->0 }
}

proof fn lemma_nothing_read(account: Account, news: Seq<ExportNews>)
    ensures
        match export_moment(account, news).state.stage {
            ExportStage::Exporting(_) => true,
            ExportStage::Done => true,
            _ => export_moment(account, news).read == Seq::<Kept>::empty(),
        },
    decreases news.len(),
{
    if news.len() > 0 {
        lemma_nothing_read(account, news.drop_last());
    }
}

proof fn lemma_export_moment(account: Account, news: Seq<ExportNews>) -> (k: int)
    requires
        export_moment(account, news).read.len() <= usize::MAX,
    ensures
        export_fits(export_moment(account, news), k),
    decreases news.len(),
{
    let now = export_moment(account, news);
    if news.len() == 0 {
        assert(now.read.take(0) =~= seq![]);
        0
    } else {
        let before = export_moment(account, news.drop_last());
        lemma_nothing_read(account, news.drop_last());
        let k = lemma_export_moment(account, news.drop_last());
        if export_awaits(before.state.stage, news.last()) {
            match (before.state.stage, news.last()) {
                (ExportStage::Exporting(run), ExportNews::Export(reply)) => {
                    let engine = MboxMoment {
                        state: run,
                        command: before.request->Export_0,
                        written: before.written,
                        told: before.told,
                    };
                    lemma_next_mbox_moment(
                        target_of(before.state.account),
                        now.read,
                        engine,
                        k,
                        reply,
                    )
                },
                _ => {
                    assert(now.read.take(0) =~= seq![]);
                    assert(before.read.take(k) =~= seq![]);
                    0
                },
            }
        } else {
            k
        }
    }
}

/// In a whole run, whatever the account is configured for, each fetch selects the mailbox with all
/// mail, asks for whole messages, and logs in as the account at the mail server.
pub proof fn whole_run_fetches_whole_messages(start: BackupState, turns: Seq<Turn>, k: int)
    requires
        start.stage is Start,
        start.workers > 0,
        possible(start, turns),
        turns.len() > 0,
        turns.last().outcome.request is Fetch,
        0 <= k < turns.last().outcome.request->Fetch_0.len(),
    ensures
        turns.last().outcome.request->Fetch_0[k].mailbox == "[Gmail]/All Mail"@,
        turns.last().outcome.request->Fetch_0[k].items == "BODY.PEEK[]"@,
        turns.last().outcome.request->Fetch_0[k].session.host == "imap.gmail.com"@,
        turns.last().outcome.request->Fetch_0[k].session.port == 993,
        turns.last().outcome.request->Fetch_0[k].session.username == start.account.username,
        turns.last().outcome.request->Fetch_0[k].session.password_var
            == start.account.password_var,
        turns.last().outcome.request->Fetch_0.len() <= start.workers,
{
    let before = turns.drop_last();
    let state = state_after(start, before);
    let news = turns.last().news;
    let outcome = turns.last().outcome;
    lemma_nothing_received(start, before);
    lemma_same_workers(start, before);
    match (state.stage, news) {
        (BackupStage::Listing, BackupNews::Listed(Ok(found))) => {
            let told = seq![
                "Found "@ + decimal(found.len()) + " messages in total for account "@
                    + state.account.username,
            ];
            if let Some(BackupSetting::Stdout { count }) = state.account.backup {
                let list = choose|list: Seq<Uid>| #[trigger]
                    picks(list, found, count) && outcome == download(state, told, list);
                download_asks_for_its_list(state, told, list);
                assert(outcome.request->Fetch_0[k].mailbox == "[Gmail]/All Mail"@);
            }
        },
        (BackupStage::Filtering { found }, BackupNews::UidsRead(rows)) => {
            if first_error(rows) is None {
                let wanted = found.difference(uids_read(rows));
                let list = choose|list: Seq<Uid>| #[trigger]
                    lists(list, wanted) && outcome == download(state, seq![], list);
                download_asks_for_its_list(state, seq![], list);
                assert(outcome.request->Fetch_0[k].mailbox == "[Gmail]/All Mail"@);
            }
        },
        _ => {},
    }
}

proof fn lemma_same_workers(start: BackupState, turns: Seq<Turn>)
    requires
        possible(start, turns),
    ensures
        state_after(start, turns).workers == start.workers,
    decreases turns.len(),
{
    if turns.len() > 0 {
        lemma_same_workers(start, turns.drop_last());
    }
}

/// What the workers replied in the course of these steps.
pub open spec fn replies(turns: Seq<Turn>) -> Seq<Result<Seq<Mail>, Trouble>>
    decreases turns.len(),
{
    if turns.len() == 0 {
        seq![]
    } else {
        match turns.last().news {
            BackupNews::Fetched(results) => results,
            _ => replies(turns.drop_last()),
        }
    }
}

/// The rows in which the database told what it holds in the course of these steps.
pub open spec fn rows_told(turns: Seq<Turn>) -> Seq<Result<Uid, Seq<char>>>
    decreases turns.len(),
{
    if turns.len() == 0 {
        seq![]
    } else {
        match turns.last().news {
            BackupNews::UidsRead(rows) => rows,
            _ => rows_told(turns.drop_last()),
        }
    }
}

proof fn lemma_told_and_replied(turns: Seq<Turn>)
    ensures
        held(turns) == uids_read(rows_told(turns)),
        received(turns) == if first_error(replies(turns)) is None {
            fetched(replies(turns))
        } else {
            seq![]
        },
    decreases turns.len(),
{
    if turns.len() > 0 {
        lemma_told_and_replied(turns.drop_last());
    } else {
        assert(held(turns) =~= uids_read(rows_told(turns)));
    }
}

/// What a whole backup leaves, by what was replied: where the rows of the database are those of the
/// table, no worker failed, each message that was asked for is in a reply with its body, and no
/// other item of a reply has an identifier and a body, a backup that ended well leaves the table
/// with every message of the mailbox in it. Those that were there are as they were, and the others
/// have the bodies that were replied, whatever these are.
pub proof fn mailbox_is_kept_after_a_backup(
    start: BackupState,
    table: Table,
    turns: Seq<Turn>,
    bodies: Map<Uid, Seq<u8>>,
)
    requires
        start.stage is Start,
        start.account.backup is Some,
        start.account.backup->0 is Sqlite,
        start.workers > 0,
        possible(start, turns),
        received(turns).len() <= usize::MAX,
        turns.len() > 0,
        turns.last().outcome.request is Finish,
        turns.last().outcome.request->Finish_0 is Ok,
        forall|uid: Uid| #[trigger]
            table.contains_key(uid) <==> rows_told(turns).contains(Ok::<Uid, Seq<char>>(uid)),
        forall|j: int| 0 <= j < replies(turns).len() ==> (#[trigger] replies(turns)[j]) is Ok,
        forall|uid: Uid|
            requested(turns).contains(uid as nat) ==> #[trigger] is_replied(
                replies(turns),
                uid,
                bodies[uid],
            ),
        forall|j: int, i: int|
            #![trigger replies(turns)[j]->Ok_0[i]]
            0 <= j < replies(turns).len() && 0 <= i < replies(turns)[j]->Ok_0.len() && replies(
                turns,
            )[j]->Ok_0[i].uid is Some && replies(turns)[j]->Ok_0[i].body is Some ==> {
                let item = replies(turns)[j]->Ok_0[i];
                &&& requested(turns).contains(item.uid->0 as nat)
                &&& item.body == Some(bodies[item.uid->0])
            },
    ensures
        ({
            let after = database_after(table, turns).committed;
            &&& forall|uid: Uid| #[trigger]
                after.contains_key(uid) <==> table.contains_key(uid) || listed(turns).contains(uid)
            &&& forall|uid: Uid| #[trigger]
                table.contains_key(uid) ==> after.contains_key(uid) && after[uid] == table[uid]
            &&& forall|uid: Uid| #[trigger]
                listed(turns).contains(uid) && !table.contains_key(uid) ==> after.contains_key(uid)
                    && after[uid] == Some(bodies[uid])
        }),
{
    let came = replies(turns);
    let mails = received(turns);
    lemma_told_and_replied(turns);
    first_error_is_the_first(came);
    assert forall|uid: Uid| #[trigger] held(turns).contains(uid) <==> table.dom().contains(
        uid,
    ) by {
        let row = Ok::<Uid, Seq<char>>(uid);
        kept_is_what_a_row_has(rows_told(turns), uid);
        assert(table.contains_key(uid) <==> rows_told(turns).contains(row));
        if rows_told(turns).contains(row) {
            let i = rows_told(turns).index_of(row);
            assert(rows_told(turns)[i] == row);
        }
    }
    assert(held(turns) =~= table.dom());
    assert forall|k: int| 0 <= k < mails.len() implies {
        &&& (#[trigger] mails[k]).uid is Some
        &&& requested(turns).contains(mails[k].uid->0 as nat)
        &&& mails[k].body == Some(bodies[mails[k].uid->0])
    } by {
        let (j, i) = only_messages_are_gathered(came, k);
        assert(came[j]->Ok_0[i] == mails[k]);
    }
    assert forall|uid: Uid| requested(turns).contains(uid as nat) implies #[trigger] names(
        mails,
        uid,
    ) by {
        assert(is_replied(came, uid, bodies[uid]));
        let (j, i) = choose|j: int, i: int|
            {
                &&& 0 <= j < came.len()
                &&& 0 <= i < came[j]->Ok_0.len()
                &&& (#[trigger] came[j]->Ok_0[i]).uid == Some(uid)
                &&& came[j]->Ok_0[i].body == Some(bodies[uid])
            };
        every_message_is_gathered(came, j, i);
        let k = mails.index_of(came[j]->Ok_0[i]);
        assert(mails[k].uid == Some(uid));
    }
    whole_backup_adds_what_was_missing(start, table, turns, bodies);
    let after = database_after(table, turns).committed;
    assert forall|uid: Uid| #[trigger] after.contains_key(uid) <==> table.contains_key(uid)
        || listed(turns).contains(uid) by {
        assert(missing(listed(turns), table).contains(uid) <==> listed(turns).contains(uid)
            && !table.contains_key(uid));
    }
    assert forall|uid: Uid| #[trigger] table.contains_key(uid) implies after.contains_key(uid)
        && after[uid] == table[uid] by {
        assert(!missing(listed(turns), table).contains(uid));
        assert(after.contains_key(uid));
    }
    assert forall|uid: Uid| #[trigger] listed(turns).contains(uid) && !table.contains_key(
        uid,
    ) implies after.contains_key(uid) && after[uid] == Some(bodies[uid]) by {
        assert(missing(listed(turns), table).contains(uid));
        assert(after.contains_key(uid));
    }
}

/// A reply has the message of this identifier, with this body.
pub open spec fn is_replied(
    replies: Seq<Result<Seq<Mail>, Trouble>>,
    uid: Uid,
    body: Seq<u8>,
) -> bool {
    exists|j: int, i: int|
        {
            &&& 0 <= j < replies.len()
            &&& 0 <= i < replies[j]->Ok_0.len()
            &&& (#[trigger] replies[j]->Ok_0[i]).uid == Some(uid)
            &&& replies[j]->Ok_0[i].body == Some(body)
        }
}

/// A backup to a database never asks for a message that a row of the database has, at whatever
/// place, and asks for every message of the mailbox that no row has.
pub proof fn whole_run_asks_for_what_no_row_has(
    start: BackupState,
    turns: Seq<Turn>,
    i: int,
    uid: Uid,
)
    requires
        start.stage is Start,
        start.account.backup is Some,
        start.account.backup->0 is Sqlite,
        start.workers > 0,
        possible(start, turns),
        turns.len() > 0,
        turns.last().outcome.request is Fetch,
    ensures
        0 <= i < rows_told(turns).len() && rows_told(turns)[i] == Ok::<Uid, Seq<char>>(uid)
            ==> !requested(turns).contains(uid as nat),
        listed(turns).contains(uid) && (forall|k: int|
            0 <= k < rows_told(turns).len() ==> #[trigger] rows_told(turns)[k] != Ok::<
                Uid,
                Seq<char>,
            >(uid)) ==> requested(turns).contains(uid as nat),
        !listed(turns).contains(uid) ==> !requested(turns).contains(uid as nat),
{
    lemma_requested(start, turns);
    lemma_told_and_replied(turns);
    lemma_fetch_stage(start, turns);
    kept_is_what_a_row_has(rows_told(turns), uid);
    assert(listed(turns).contains(uid) && !held(turns).contains(uid) <==> requested(
        turns,
    ).contains(uid as nat));
}

proof fn lemma_fetch_stage(start: BackupState, turns: Seq<Turn>)
    requires
        start.stage is Start,
        possible(start, turns),
        turns.len() > 0,
        turns.last().outcome.request is Fetch,
    ensures
        turns.last().outcome.state.stage is Fetching,
{
    let before = turns.drop_last();
    let state = state_after(start, before);
    let outcome = turns.last().outcome;
    match (state.stage, turns.last().news) {
        (BackupStage::Listing, BackupNews::Listed(Ok(found))) => {
            if let Some(BackupSetting::Stdout { count }) = state.account.backup {
                let told = seq![
                    "Found "@ + decimal(found.len()) + " messages in total for account "@
                        + state.account.username,
                ];
                let list = choose|list: Seq<Uid>| #[trigger]
                    picks(list, found, count) && outcome == download(state, told, list);
                assert(outcome == download(state, told, list));
            }
        },
        _ => {},
    }
}

/// The rows of the database that an export was given in the course of these news.
pub open spec fn rows_given(account: Account, news: Seq<ExportNews>) -> Seq<
    Result<Kept, Seq<char>>,
>
    decreases news.len(),
{
    if news.len() == 0 {
        seq![]
    } else {
        match news.last() {
            ExportNews::EmailsRead(rows) => if export_moment(account, news.drop_last()).state.stage
                is Reading {
                rows
            } else {
                rows_given(account, news.drop_last())
            },
            _ => rows_given(account, news.drop_last()),
        }
    }
}

/// An export that ended well has read every row of the database, and has written the mbox file of
/// the messages in the rows, one for each row and in their order. It has told of each row that was
/// left out.
pub proof fn every_row_is_exported(account: Account, news: Seq<ExportNews>)
    requires
        export_moment(account, news).read.len() <= usize::MAX,
        export_moment(account, news).request is Finish,
        export_moment(account, news).request->Finish_0 is Ok,
    ensures
        ({
            let rows = rows_given(account, news);
            let emails = Seq::new(rows.len(), |i: int| rows[i]->Ok_0);
            &&& forall|i: int| 0 <= i < rows.len() ==> (#[trigger] rows[i]) is Ok
            &&& export_moment(account, news).written == mbox_of(emails)
            &&& export_moment(account, news).told == left_out(emails)
        }),
{
    whole_export_writes_the_mbox_file(account, news);
    lemma_rows_given(account, news);
    first_error_is_the_first(rows_given(account, news));
}

proof fn lemma_rows_given(account: Account, news: Seq<ExportNews>)
    ensures
        ({
            let now = export_moment(account, news);
            let rows = rows_given(account, news);
            now.state.stage is Exporting || now.request is Finish && now.request->Finish_0 is Ok
                ==> {
                &&& first_error(rows) is None
                &&& now.read == Seq::new(rows.len(), |i: int| rows[i]->Ok_0)
            }
        }),
        export_moment(account, news).request is Finish ==> export_moment(
            account,
            news,
        ).state.stage is Done,
    decreases news.len(),
{
    let now = export_moment(account, news);
    if news.len() > 0 {
        let before = export_moment(account, news.drop_last());
        lemma_rows_given(account, news.drop_last());
        if let ExportNews::EmailsRead(rows) = news.last() {
            if before.state.stage is Reading {
                each_row_is_read(rows);
                assert(emails_read(rows) =~= Seq::new(rows.len(), |i: int| rows[i]->Ok_0));
                assert(rows_given(account, news) == rows);
            } else {
                assert(rows_given(account, news) == rows_given(account, news.drop_last()));
            }
        } else {
            assert(rows_given(account, news) == rows_given(account, news.drop_last()));
        }
    }
}

/// After an export that ended well, the file has the entry of each row that can have one: the
/// separating line, the message of the row byte for byte, and a line break.
pub proof fn row_with_an_entry_is_in_the_file(
    account: Account,
    news: Seq<ExportNews>,
    i: int,
) -> (around: (Seq<u8>, Seq<u8>))
    requires
        export_moment(account, news).read.len() <= usize::MAX,
        export_moment(account, news).request is Finish,
        export_moment(account, news).request->Finish_0 is Ok,
        0 <= i < rows_given(account, news).len(),
        entry_of(rows_given(account, news)[i]->Ok_0) is Some,
        entry_of(rows_given(account, news)[i]->Ok_0)->0 is Ok,
    ensures
        rows_given(account, news)[i] is Ok,
        export_moment(account, news).written == around.0 + entry_of(
            rows_given(account, news)[i]->Ok_0,
        )->0->Ok_0 + around.1,
{
    let rows = rows_given(account, news);
    let emails = Seq::new(rows.len(), |k: int| rows[k]->Ok_0);
    every_row_is_exported(account, news);
    assert(rows[i] is Ok);
    assert(emails[i] == rows[i]->Ok_0);
    let rest = every_entry_is_in_the_file(emails, i);
    (mbox_of(emails.take(i)), rest)
}

} // verus!
