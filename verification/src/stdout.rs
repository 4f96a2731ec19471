//! The backup engine that keeps nothing: it shows the subjects of the messages that it would keep.

use std::collections::HashSet;
use vstd::prelude::*;
use vstd::string::*;
use vstd::utf8::*;

use crate::config::{shown_account, Account, BackupEngineConfig, BackupSetting, GBackupAccount};
use crate::error::{BackupEngineError, BackupFailure, ExportEngineError};
use crate::message::{copy_bytes, mails, ExportEmail, Mail, Message};
use crate::text::{concat, from_utf8, text_views};
use crate::uids::{pick, Uid};

verus! {

/// Shows what it would back up, and backs up nothing.
pub struct StdoutEngine<'a> {
    pub account: &'a GBackupAccount,
    /// The number of messages that are fetched at most.
    pub count: usize,
}

/// Why the engine cannot be made for an account that is not configured for it.
pub open spec fn not_stdout(account: Account) -> BackupFailure {
    BackupFailure::EngineLoadError(
        "Can't init Stdout engine from account config "@ + shown_account(account),
    )
}

/// The line that is shown for a message with this subject.
pub open spec fn subject_line(subject: Seq<u8>) -> Seq<char> {
    "Would back up message w subject: "@ + decode_utf8(subject)
}

/// The message has a subject, and it is valid UTF-8.
pub open spec fn can_show(mail: Mail) -> bool {
    mail.subject is Some && valid_utf8(mail.subject->0)
}

/// All of the messages can be shown.
pub open spec fn can_show_all(mails: Seq<Mail>) -> bool {
    forall|i: int| 0 <= i < mails.len() ==> can_show(#[trigger] mails[i])
}

/// The lines for the messages, in order, up to the first that cannot be shown.
pub open spec fn subject_lines(mails: Seq<Mail>) -> Seq<Seq<char>>
    decreases mails.len(),
{
    if mails.len() == 0 || !can_show(mails[0]) {
        seq![]
    } else {
        seq![subject_line(mails[0].subject->0)] + subject_lines(mails.drop_first())
    }
}

impl<'a> StdoutEngine<'a> {
    /// Makes the engine for an account that is configured for it.
    pub fn new(account: &'a GBackupAccount) -> (engine: Result<
        Box<StdoutEngine<'a>>,
        BackupEngineError,
    >)
        ensures
            match account@.backup {
                Some(BackupSetting::Stdout { count }) => engine is Ok && engine->Ok_0.account
                    == account && engine->Ok_0.count == count,
                _ => engine is Err && engine->Err_0@ == not_stdout(account@),
            },
            engine is Ok <==> account.backup matches Some(BackupEngineConfig::Stdout { .. }),
            account.backup matches Some(BackupEngineConfig::Stdout { count })
                ==> engine->Ok_0.count == count,
            engine is Err ==> engine->Err_0@ == BackupFailure::EngineLoadError(
                "Can't init Stdout engine from account config "@ + shown_account(account@),
            ),
    {
        if let Some(BackupEngineConfig::Stdout { count }) = &account.backup {
            Ok(Box::new(StdoutEngine { account, count: *count }))
        } else {
            Err(
                BackupEngineError::EngineLoadError(
                    concat(
                        "Can't init Stdout engine from account config ",
                        account.show().as_str(),
                    ),
                ),
            )
        }
    }

    /// Picks the messages that are fetched: as many of those found as the engine shows.
    pub fn filter_for_backup(&self, search_uids: &HashSet<Uid>) -> (picked: Result<
        HashSet<Uid>,
        BackupEngineError,
    >)
        ensures
            picked is Ok,
            picked->Ok_0@.subset_of(search_uids@),
            picked->Ok_0@.len() == if search_uids@.len() < self.count {
                search_uids@.len()
            } else {
                self.count as nat
            },
    {
        Ok(pick(search_uids, self.count))
    }

    /// The lines for the messages, in order, up to the first that cannot be shown, and whether
    /// all could be.
    pub fn show(&self, to_backup: &Vec<Message>) -> (shown: (Vec<String>, bool))
        ensures
            text_views(shown.0@) == subject_lines(mails(to_backup@)),
            shown.1 == can_show_all(mails(to_backup@)),
            shown.0@.len() <= to_backup@.len(),
            forall|i: int|
                #![trigger to_backup@[i]]
                #![trigger shown.0@[i]]
                0 <= i < shown.0@.len() ==> {
                    &&& to_backup@[i].subject is Some
                    &&& valid_utf8(to_backup@[i].subject->0@)
                    &&& shown.0@[i]@ == "Would back up message w subject: "@
                        + decode_utf8(to_backup@[i].subject->0@)
                },
            shown.1 <==> shown.0@.len() == to_backup@.len(),
            shown.0@.len() < to_backup@.len() ==> to_backup@[shown.0@.len() as int].subject is None
                || !valid_utf8(to_backup@[shown.0@.len() as int].subject->0@),
    {
        let ghost all = mails(to_backup@);
        let mut lines: Vec<String> = Vec::new();
        let mut i: usize = 0;
        assert(all.skip(0) =~= all);
        assert(text_views(lines@) + subject_lines(all) =~= subject_lines(all));
        while i < to_backup.len()
            invariant
                i <= to_backup.len(),
                all == mails(to_backup@),
                forall|k: int| 0 <= k < i ==> can_show(#[trigger] all[k]),
                lines@.len() == i,
                forall|k: int|
                    #![trigger to_backup@[k]]
                    #![trigger lines@[k]]
                    0 <= k < i ==> {
                        &&& to_backup@[k].subject is Some
                        &&& valid_utf8(to_backup@[k].subject->0@)
                        &&& lines@[k]@ == "Would back up message w subject: "@
                            + decode_utf8(to_backup@[k].subject->0@)
                    },
                text_views(lines@) + subject_lines(all.skip(i as int)) == subject_lines(all),
            decreases to_backup.len() - i,
        {
            let ghost rest = all.skip(i as int);
            let ghost before = text_views(lines@);
            assert(rest[0] == to_backup@[i as int]@);
            assert(all[i as int] == rest[0]);
            let text = match &to_backup[i].subject {
                Some(subject) => from_utf8(copy_bytes(subject)),
                None => None,
            };
            match text {
                Some(text) => {
                    let line = concat("Would back up message w subject: ", text.as_str());
                    lines.push(line);
                    proof {
                        assert(text_views(lines@) =~= before.push(line@));
                        assert(rest.drop_first() =~= all.skip(i + 1));
                        assert(text_views(lines@) + subject_lines(all.skip(i + 1)) =~= before
                            + subject_lines(rest));
                    }
                },
                None => {
                    assert(before + subject_lines(rest) =~= before);
                    return (lines, false);
                },
            }
            i = i + 1;
        }
        assert(text_views(lines@) + subject_lines(all.skip(i as int)) =~= text_views(lines@));
        (lines, true)
    }

    /// The lines that a run of the engine shows, one for each message.
    pub fn run_backup(&self, to_backup: &Vec<Message>) -> (lines: Vec<String>)
        requires
            can_show_all(mails(to_backup@)),
        ensures
            lines@.len() == to_backup@.len(),
            forall|i: int|
                0 <= i < to_backup@.len() ==> (#[trigger] lines@[i])@ == subject_line(
                    to_backup@[i].subject->0@,
                ),
            forall|i: int|
                0 <= i < to_backup@.len() ==> (#[trigger] lines@[i])@
                    == "Would back up message w subject: "@ + decode_utf8(
                    to_backup@[i].subject->0@,
                ),
    {
        let (lines, complete) = self.show(to_backup);
        proof {
            lemma_lines_of_all(mails(to_backup@));
            assert forall|i: int| 0 <= i < to_backup@.len() implies (#[trigger] lines@[i])@
                == subject_line(to_backup@[i].subject->0@) by {
                assert(text_views(lines@)[i] == lines@[i]@);
                assert(mails(to_backup@)[i] == to_backup@[i]@);
                assert(can_show(mails(to_backup@)[i]));
            }
        }
        lines
    }

    /// The engine keeps nothing, so there is nothing to export.
    pub fn get_all_emails_raw(&self) -> (emails: Result<Vec<ExportEmail>, ExportEngineError>)
        ensures
            emails == Err::<Vec<ExportEmail>, _>(ExportEngineError::UnsupportedOp),
    {
        Err(ExportEngineError::UnsupportedOp)
    }
}

proof fn lemma_lines_of_all(all: Seq<Mail>)
    requires
        can_show_all(all),
    ensures
        subject_lines(all).len() == all.len(),
        forall|i: int|
            0 <= i < all.len() ==> #[trigger] subject_lines(all)[i] == subject_line(
                all[i].subject->0,
            ),
    decreases all.len(),
{
    if all.len() > 0 {
        assert(can_show(all[0]));
        let rest = all.drop_first();
        assert forall|i: int| 0 <= i < rest.len() implies can_show(#[trigger] rest[i]) by {
            assert(rest[i] == all[i + 1]);
        }
        lemma_lines_of_all(rest);
        assert forall|i: int| 0 <= i < all.len() implies #[trigger] subject_lines(all)[i]
            == subject_line(all[i].subject->0) by {
            if i > 0 {
                assert(subject_lines(all)[i] == subject_lines(rest)[i - 1]);
            }
        }
    }
}

/// Messages can be shown exactly where each has a subject that is valid UTF-8.
pub proof fn shown_are_messages_with_subjects(mails: Seq<Mail>)
    ensures
        can_show_all(mails) <==> forall|i: int|
            0 <= i < mails.len() ==> (#[trigger] mails[i]).subject is Some && valid_utf8(
                mails[i].subject->0,
            ),
{
    if can_show_all(mails) {
        assert forall|i: int| 0 <= i < mails.len() implies (#[trigger] mails[i]).subject is Some
            && valid_utf8(mails[i].subject->0) by {
            assert(can_show(mails[i]));
        }
    }
}

/// A message that can be shown adds its line in front of those of the others; one that cannot ends
/// them.
pub proof fn subjects_are_shown_one_by_one(mail: Mail, mails: Seq<Mail>)
    ensures
        subject_lines(seq![]) == Seq::<Seq<char>>::empty(),
        mail.subject is Some && valid_utf8(mail.subject->0) ==> subject_lines(seq![mail] + mails)
            == seq!["Would back up message w subject: "@ + decode_utf8(mail.subject->0)]
            + subject_lines(mails),
        mail.subject is None || !valid_utf8(mail.subject->0) ==> subject_lines(seq![mail] + mails)
            == Seq::<Seq<char>>::empty(),
{
    assert((seq![mail] + mails).drop_first() =~= mails);
}

} // verus!
