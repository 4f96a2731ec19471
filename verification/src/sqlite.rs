//! The backup engine that keeps messages in an SQLite database.
//!
//! The engine decides what is asked of the database; whoever runs it performs each command and
//! hands back the reply.

use std::collections::HashSet;
use vstd::prelude::*;
use vstd::std_specs::hash::*;
use vstd::string::*;

use crate::config::{shown_account, Account, BackupEngineConfig, BackupSetting, GBackupAccount};
use crate::error::{BackupEngineError, BackupFailure, ExportEngineError, ExportFailure};
use crate::message::{kept, ExportEmail, Kept, Rfc822Data};
use crate::reply::{first_error, first_error_is_the_first, lemma_first_error, reply_view};
use crate::text::concat;
use crate::uids::{difference, Uid};

verus! {

/// The name of the database in the directory of the backup.
pub const DATABASE_FILE: &'static str = "backup.sqlite";

/// Makes the table of the messages, where there is none yet.
pub const CREATE_TABLE: &'static str =
    "CREATE TABLE IF NOT EXISTS email (
                uid INTEGER PRIMARY KEY,
                rfc822_body BLOB
            )";

/// Reads the identifiers of the messages that are kept.
pub const SELECT_UIDS: &'static str = "SELECT uid FROM email";

/// Reads the messages that are kept.
pub const SELECT_EMAILS: &'static str = "SELECT uid, rfc822_body FROM email";

/// Keeps a message, in place of one with the same identifier.
pub const INSERT_EMAIL: &'static str = "INSERT OR REPLACE INTO email VALUES (?, ?)";

/// Keeps messages in an SQLite database.
pub struct SqliteEngine<'a> {
    pub account: &'a GBackupAccount,
    /// The directory that holds the database.
    pub backup_dir: String,
}

/// Why the engine cannot be made for an account that is not configured for it.
pub open spec fn not_sqlite(account: Account) -> BackupFailure {
    BackupFailure::EngineLoadError(
        "Can't init Sqlite engine from account config "@ + shown_account(account),
    )
}

/// The rows of the result of a query for identifiers.
pub open spec fn uid_rows(rows: Seq<Result<Uid, String>>) -> Seq<Result<Uid, Seq<char>>> {
    rows.map_values(|row: Result<Uid, String>| reply_view(row))
}

/// The identifiers that the rows hold.
pub open spec fn uids_read(rows: Seq<Result<Uid, Seq<char>>>) -> Set<Uid> {
    Set::new(|uid: Uid| rows.contains(Ok::<Uid, Seq<char>>(uid)))
}

fn collect_uids(rows: &Vec<Result<Uid, String>>) -> (uids: Result<HashSet<Uid>, String>)
    ensures
        match first_error(uid_rows(rows@)) {
            Some(e) => uids is Err && uids->Err_0@ == e,
            None => uids is Ok && uids->Ok_0@ == uids_read(uid_rows(rows@)),
        },
{
    broadcast use group_hash_axioms;

    let ghost views = uid_rows(rows@);
    let mut uids: HashSet<Uid> = HashSet::new();
    let mut i: usize = 0;
    while i < rows.len()
        invariant
            i <= rows.len(),
            views == uid_rows(rows@),
            forall|k: int| 0 <= k < i ==> (#[trigger] views[k]) is Ok,
            forall|uid: Uid|
                uids@.contains(uid) <==> exists|k: int|
                    0 <= k < i && #[trigger] views[k] == Ok::<Uid, Seq<char>>(uid),
        decreases rows.len() - i,
    {
        let ghost before = uids@;
        assert(views[i as int] == reply_view(rows@[i as int]));
        match &rows[i] {
            Ok(uid) => {
                uids.insert(*uid);
            },
            Err(e) => {
                proof {
                    lemma_first_error(views, i as int);
                }
                return Err(e.clone());
            },
        }
        i = i + 1;
    }
    proof {
        lemma_first_error(views, i as int);
        assert(uids@ =~= uids_read(views));
    }
    Ok(uids)
}

/// The rows of the result of a query for messages: the identifier, then the raw message.
pub open spec fn email_rows(rows: Seq<Result<(Uid, Rfc822Data), String>>) -> Seq<
    Result<Kept, Seq<char>>,
> {
    rows.map_values(|row: Result<(Uid, Rfc822Data), String>| email_row(row))
}

/// One row of the result of a query for messages.
pub open spec fn email_row(row: Result<(Uid, Rfc822Data), String>) -> Result<Kept, Seq<char>> {
    match row {
        Ok((uid, raw_data)) => Ok(Kept { raw_data: raw_data@, uid }),
        Err(e) => Err(e@),
    }
}

/// The messages that the rows hold, in order.
pub open spec fn emails_read(rows: Seq<Result<Kept, Seq<char>>>) -> Seq<Kept> {
    rows.map_values(|row: Result<Kept, Seq<char>>| row->Ok_0)
}

impl<'a> SqliteEngine<'a> {
    /// Makes the engine for an account that is configured for it. The database is opened by
    /// whoever runs the engine.
    pub fn new(account: &'a GBackupAccount) -> (engine: Result<
        Box<SqliteEngine<'a>>,
        BackupEngineError,
    >)
        ensures
            match account@.backup {
                Some(BackupSetting::Sqlite { backup_dir }) => engine is Ok && engine->Ok_0.account
                    == account && engine->Ok_0.backup_dir@ == backup_dir,
                _ => engine is Err && engine->Err_0@ == not_sqlite(account@),
            },
            engine is Ok <==> account.backup matches Some(BackupEngineConfig::Sqlite { .. }),
            account.backup matches Some(BackupEngineConfig::Sqlite { backup_dir })
                ==> engine->Ok_0.backup_dir@ == backup_dir@,
            engine is Err ==> engine->Err_0@ == BackupFailure::EngineLoadError(
                "Can't init Sqlite engine from account config "@ + shown_account(account@),
            ),
    {
        if let Some(BackupEngineConfig::Sqlite { backup_dir }) = &account.backup {
            Ok(Box::new(SqliteEngine { account, backup_dir: backup_dir.clone() }))
        } else {
            Err(
                BackupEngineError::EngineLoadError(
                    concat(
                        "Can't init Sqlite engine from account config ",
                        account.show().as_str(),
                    ),
                ),
            )
        }
    }

    /// Leaves out the messages that are kept already. `rows` is the result of the query for
    /// them; a query that could not be started counts as a row that could not be read.
    pub fn filter_for_backup(
        &self,
        search_uids: &HashSet<Uid>,
        rows: &Vec<Result<Uid, String>>,
    ) -> (uids: Result<HashSet<Uid>, BackupEngineError>)
        ensures
            match first_error(uid_rows(rows@)) {
                Some(e) => uids is Err && uids->Err_0@ == BackupFailure::EngineRunSqliteError(e),
                None => uids is Ok && uids->Ok_0@ == search_uids@.difference(
                    uids_read(uid_rows(rows@)),
                ),
            },
            uids is Ok <==> forall|i: int| 0 <= i < rows@.len() ==> (#[trigger] rows@[i]) is Ok,
            uids is Ok ==> forall|uid: Uid| #[trigger]
                uids->Ok_0@.contains(uid) <==> search_uids@.contains(uid) && forall|i: int|
                    0 <= i < rows@.len() ==> #[trigger] rows@[i] != Ok::<Uid, String>(uid),
            uids is Err ==> exists|i: int|
                {
                    &&& 0 <= i < rows@.len()
                    &&& (#[trigger] rows@[i]) is Err
                    &&& uids->Err_0@ == BackupFailure::EngineRunSqliteError(rows@[i]->Err_0@)
                    &&& forall|k: int| 0 <= k < i ==> (#[trigger] rows@[k]) is Ok
                },
    {
        proof {
            lemma_rows(rows@);
        }
        match collect_uids(rows) {
            Ok(backed_up_uids) => Ok(difference(search_uids, &backed_up_uids)),
            Err(e) => Err(BackupEngineError::EngineRunSqliteError(e)),
        }
    }

    /// Reads the messages that are kept. `rows` is the result of the query for them; a query
    /// that could not be started counts as a row that could not be read.
    pub fn get_all_emails_raw(
        &self,
        rows: Vec<Result<(Uid, Rfc822Data), String>>,
    ) -> (emails: Result<Vec<ExportEmail>, ExportEngineError>)
        ensures
            match first_error(email_rows(rows@)) {
                Some(e) => emails is Err && emails->Err_0@ == ExportFailure::SqliteError(e),
                None => emails is Ok && kept(emails->Ok_0@) == emails_read(email_rows(rows@)),
            },
            emails is Ok <==> forall|i: int| 0 <= i < rows@.len() ==> (#[trigger] rows@[i]) is Ok,
            emails is Ok ==> emails->Ok_0@.len() == rows@.len(),
            emails is Ok ==> forall|i: int|
                0 <= i < rows@.len() ==> {
                    &&& (#[trigger] emails->Ok_0@[i]).uid == rows@[i]->Ok_0.0
                    &&& emails->Ok_0@[i].raw_data@ == rows@[i]->Ok_0.1@
                },
            emails is Err ==> exists|i: int|
                {
                    &&& 0 <= i < rows@.len()
                    &&& (#[trigger] rows@[i]) is Err
                    &&& emails->Err_0@ == ExportFailure::SqliteError(rows@[i]->Err_0@)
                    &&& forall|k: int| 0 <= k < i ==> (#[trigger] rows@[k]) is Ok
                },
    {
        let ghost given = rows@;
        proof {
            lemma_email_rows(rows@);
        }
        let ghost views = email_rows(rows@);
        let mut emails: Vec<ExportEmail> = Vec::new();
        for row in it: rows
            invariant
                given == it.seq(),
                views == email_rows(it.seq()),
                emails@.len() == it.index(),
                it.index() <= views.len(),
                forall|k: int| 0 <= k < it.index() ==> (#[trigger] views[k]) is Ok,
                forall|k: int|
                    0 <= k < it.index() ==> (#[trigger] emails@[k])@ == views[k]->Ok_0,
        {
            assert(views[it.index()] == email_row(row));
            match row {
                Ok((uid, raw_data)) => {
                    emails.push(ExportEmail { raw_data, uid });
                },
                Err(e) => {
                    proof {
                        lemma_first_error(views, emails@.len() as int);
                        lemma_email_rows(given);
                    }
                    return Err(ExportEngineError::SqliteError(e));
                },
            }
        }
        proof {
            lemma_first_error(views, emails@.len() as int);
            assert(kept(emails@) =~= emails_read(views));
            assert forall|i: int| 0 <= i < given.len() implies {
                &&& (#[trigger] emails@[i]).uid == given[i]->Ok_0.0
                &&& emails@[i].raw_data@ == given[i]->Ok_0.1@
            } by {
                assert(views[i] is Ok);
                assert(views[i] == email_row(given[i]));
                assert(emails@[i]@ == views[i]->Ok_0);
            }
        }
        Ok(emails)
    }
}

proof fn lemma_rows(rows: Seq<Result<Uid, String>>)
    ensures
        first_error(uid_rows(rows)) is None <==> forall|i: int|
            0 <= i < rows.len() ==> (#[trigger] rows[i]) is Ok,
        first_error(uid_rows(rows)) is Some ==> exists|i: int|
            {
                &&& 0 <= i < rows.len()
                &&& (#[trigger] rows[i]) is Err
                &&& first_error(uid_rows(rows))->0 == rows[i]->Err_0@
                &&& forall|k: int| 0 <= k < i ==> (#[trigger] rows[k]) is Ok
            },
        forall|uid: Uid| #[trigger]
            uids_read(uid_rows(rows)).contains(uid) <==> exists|i: int|
                0 <= i < rows.len() && #[trigger] rows[i] == Ok::<Uid, String>(uid),
{
    let views = uid_rows(rows);
    first_error_is_the_first(views);
    assert forall|i: int| 0 <= i < rows.len() implies #[trigger] views[i] == reply_view(
        rows[i],
    ) by {}
    if forall|i: int| 0 <= i < rows.len() ==> (#[trigger] rows[i]) is Ok {
        assert forall|i: int| 0 <= i < views.len() implies (#[trigger] views[i]) is Ok by {
            assert(rows[i] is Ok);
        }
    }
    if first_error(views) is None {
        assert forall|i: int| 0 <= i < rows.len() implies (#[trigger] rows[i]) is Ok by {
            assert(views[i] is Ok);
        }
    } else {
        let i = choose|i: int|
            {
                &&& 0 <= i < views.len()
                &&& #[trigger] views[i] == Err::<Uid, Seq<char>>(first_error(views)->0)
                &&& forall|k: int| 0 <= k < i ==> (#[trigger] views[k]) is Ok
            };
        assert(rows[i] is Err);
        assert forall|k: int| 0 <= k < i implies (#[trigger] rows[k]) is Ok by {
            assert(views[k] is Ok);
        }
    }
    assert forall|uid: Uid| #[trigger] uids_read(views).contains(uid) <==> exists|i: int|
        0 <= i < rows.len() && #[trigger] rows[i] == Ok::<Uid, String>(uid) by {
        if uids_read(views).contains(uid) {
            let i = views.index_of(Ok::<Uid, Seq<char>>(uid));
            assert(rows[i] == Ok::<Uid, String>(uid));
        }
        if exists|i: int| 0 <= i < rows.len() && #[trigger] rows[i] == Ok::<Uid, String>(uid) {
            let i = choose|i: int|
                0 <= i < rows.len() && #[trigger] rows[i] == Ok::<Uid, String>(uid);
            assert(views[i] == Ok::<Uid, Seq<char>>(uid));
        }
    }
}

proof fn lemma_email_rows(rows: Seq<Result<(Uid, Rfc822Data), String>>)
    ensures
        first_error(email_rows(rows)) is None <==> forall|i: int|
            0 <= i < rows.len() ==> (#[trigger] rows[i]) is Ok,
        first_error(email_rows(rows)) is Some ==> exists|i: int|
            {
                &&& 0 <= i < rows.len()
                &&& (#[trigger] rows[i]) is Err
                &&& first_error(email_rows(rows))->0 == rows[i]->Err_0@
                &&& forall|k: int| 0 <= k < i ==> (#[trigger] rows[k]) is Ok
            },
{
    let views = email_rows(rows);
    first_error_is_the_first(views);
    assert forall|i: int| 0 <= i < rows.len() implies #[trigger] views[i] == email_row(
        rows[i],
    ) by {}
    if forall|i: int| 0 <= i < rows.len() ==> (#[trigger] rows[i]) is Ok {
        assert forall|i: int| 0 <= i < views.len() implies (#[trigger] views[i]) is Ok by {
            assert(rows[i] is Ok);
        }
    }
    if first_error(views) is None {
        assert forall|i: int| 0 <= i < rows.len() implies (#[trigger] rows[i]) is Ok by {
            assert(views[i] is Ok);
        }
    } else {
        let i = choose|i: int|
            {
                &&& 0 <= i < views.len()
                &&& #[trigger] views[i] == Err::<Kept, Seq<char>>(first_error(views)->0)
                &&& forall|k: int| 0 <= k < i ==> (#[trigger] views[k]) is Ok
            };
        assert(rows[i] is Err);
        assert forall|k: int| 0 <= k < i implies (#[trigger] rows[k]) is Ok by {
            assert(views[k] is Ok);
        }
    }
}

/// An identifier counts as kept where a row has it, at whatever place, and only there.
pub proof fn kept_is_what_a_row_has(rows: Seq<Result<Uid, Seq<char>>>, uid: Uid)
    ensures
        uids_read(rows).contains(uid) <==> exists|i: int|
            0 <= i < rows.len() && #[trigger] rows[i] == Ok::<Uid, Seq<char>>(uid),
{
    if uids_read(rows).contains(uid) {
        let i = rows.index_of(Ok::<Uid, Seq<char>>(uid));
        assert(rows[i] == Ok::<Uid, Seq<char>>(uid));
    }
}

/// Each row is read as one message, in order.
pub proof fn each_row_is_read(rows: Seq<Result<Kept, Seq<char>>>)
    ensures
        emails_read(rows).len() == rows.len(),
        forall|i: int| 0 <= i < rows.len() ==> #[trigger] emails_read(rows)[i] == rows[i]->Ok_0,
{
}

/// The models of rows have all that the rows have, in order.
pub proof fn models_have_the_whole_rows(
    uids: Seq<Result<Uid, String>>,
    emails: Seq<Result<(Uid, Rfc822Data), String>>,
)
    ensures
        uid_rows(uids).len() == uids.len(),
        forall|i: int|
            0 <= i < uids.len() ==> {
                &&& uids[i] is Ok ==> #[trigger] uid_rows(uids)[i] == Ok::<Uid, Seq<char>>(
                    uids[i]->Ok_0,
                )
                &&& uids[i] is Err ==> uid_rows(uids)[i] == Err::<Uid, Seq<char>>(uids[i]->Err_0@)
            },
        email_rows(emails).len() == emails.len(),
        forall|i: int|
            0 <= i < emails.len() ==> {
                &&& emails[i] is Ok ==> #[trigger] email_rows(emails)[i] == Ok::<Kept, Seq<char>>(
                    Kept { raw_data: emails[i]->Ok_0.1@, uid: emails[i]->Ok_0.0 },
                )
                &&& emails[i] is Err ==> email_rows(emails)[i] == Err::<Kept, Seq<char>>(
                    emails[i]->Err_0@,
                )
            },
{
}

} // verus!
