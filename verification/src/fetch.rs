//! What is asked of the mail server, and what is kept of its replies.

use vstd::prelude::*;
use vstd::string::*;

use crate::backup::BackupRunner;
use crate::config::{Account, GBackupAccount, LoadPassword};
use crate::error::{Failure, GBackupError};
use crate::message::{mails, Mail, Message};
use crate::reply::{first_error, first_error_is_the_first, lemma_first_error};
use crate::text::concat;
use crate::uids::{list_views, uid_set, write_uid_set, Uid};

verus! {

/// The mailbox that is backed up.
pub const ALL_MAIL_INBOX: &'static str = "[Gmail]/All Mail";

/// The name of the mail server.
pub const IMAP_HOST: &'static str = "imap.gmail.com";

/// The port of the mail server.
pub const IMAP_PORT: u16 = 993;

/// Asks for all messages of a mailbox.
pub const SEARCH_ALL: &'static str = "ALL";

/// Asks for whole messages, without marking them as seen.
pub const WHOLE_MESSAGE: &'static str = "BODY.PEEK[]";

/// How to log in at the mail server.
pub struct SessionRequest {
    /// The environment variable that holds the password.
    pub password_var: String,
    pub host: &'static str,
    pub port: u16,
    pub username: String,
    /// What is reported once the session is open.
    pub greeting: String,
}

/// What one worker fetches, in a session of its own.
pub struct FetchRequest {
    pub session: SessionRequest,
    pub mailbox: &'static str,
    /// The identifiers of the messages, as an IMAP set.
    pub uids: String,
    /// What is asked for of each message.
    pub items: &'static str,
}

/// The model of a [`SessionRequest`].
pub struct Session {
    pub password_var: Seq<char>,
    pub host: Seq<char>,
    pub port: u16,
    pub username: Seq<char>,
    pub greeting: Seq<char>,
}

/// The model of a [`FetchRequest`].
pub struct Job {
    pub session: Session,
    pub mailbox: Seq<char>,
    pub uids: Seq<char>,
    pub items: Seq<char>,
}

impl View for SessionRequest {
    type V = Session;

    open spec fn view(&self) -> Session {
        Session {
            password_var: self.password_var@,
            host: self.host@,
            port: self.port,
            username: self.username@,
            greeting: self.greeting@,
        }
    }
}

impl View for FetchRequest {
    type V = Job;

    open spec fn view(&self) -> Job {
        Job {
            session: self.session@,
            mailbox: self.mailbox@,
            uids: self.uids@,
            items: self.items@,
        }
    }
}

/// How an account logs in.
pub open spec fn session_of(account: Account) -> Session {
    Session {
        password_var: account.password_var,
        host: IMAP_HOST@,
        port: IMAP_PORT,
        username: account.username,
        greeting: "Successfully created IMAP session for "@ + account.username,
    }
}

/// The fetch of these messages of an account.
pub open spec fn job_of(account: Account, chunk: Seq<Uid>) -> Job {
    Job {
        session: session_of(account),
        mailbox: ALL_MAIL_INBOX@,
        uids: uid_set(chunk),
        items: WHOLE_MESSAGE@,
    }
}

/// The models of a list of fetches.
pub open spec fn job_views(requests: Seq<FetchRequest>) -> Seq<Job> {
    requests.map_values(|r: FetchRequest| r@)
}

/// One fetch for each of the pieces, in order.
pub open spec fn jobs_of(account: Account, pieces: Seq<Seq<Uid>>) -> Seq<Job> {
    pieces.map_values(|piece: Seq<Uid>| job_of(account, piece))
}

/// The steps of a session with the mail server, in their order.
pub enum SessionStep {
    /// The password is looked up in the environment.
    Password,
    /// Encryption is set up.
    Tls,
    /// The server is connected to.
    Connect,
    /// The account is logged in.
    Login,
    /// The mailbox is selected.
    Select,
    /// The messages are fetched.
    Fetch,
}

/// Which step of a session failed, and what was said about it.
pub struct SessionFailure {
    pub step: SessionStep,
    pub text: String,
}

/// The model of a [`SessionFailure`].
pub struct Trouble {
    pub step: SessionStep,
    pub text: Seq<char>,
}

impl View for SessionFailure {
    type V = Trouble;

    open spec fn view(&self) -> Trouble {
        Trouble { step: self.step, text: self.text@ }
    }
}

/// The failure of a run that a failed step of a session is: a password that is not there is one
/// of the environment, encryption that cannot be set up is one of its own, and all that the mail
/// server has a part in is one of IMAP.
pub open spec fn session_failure(trouble: Trouble) -> Failure {
    match trouble.step {
        SessionStep::Password => Failure::VarError(trouble.text),
        SessionStep::Tls => Failure::TLSError(trouble.text),
        SessionStep::Connect => Failure::IMAPError(trouble.text),
        SessionStep::Login => Failure::IMAPError(trouble.text),
        SessionStep::Select => Failure::IMAPError(trouble.text),
        SessionStep::Fetch => Failure::IMAPError(trouble.text),
    }
}

impl SessionFailure {
    /// The failure of a run that this is.
    pub fn error(self) -> (error: GBackupError)
        ensures
            error@ == session_failure(self@),
            self.step is Password ==> error is VarError && error->VarError_0@ == self.text@,
            self.step is Tls ==> error is TLSError && error->TLSError_0@ == self.text@,
            !(self.step is Password) && !(self.step is Tls) ==> error is IMAPError
                && error->IMAPError_0@ == self.text@,
    {
        match self.step {
            SessionStep::Password => GBackupError::VarError(self.text),
            SessionStep::Tls => GBackupError::TLSError(self.text),
            SessionStep::Connect => GBackupError::IMAPError(self.text),
            SessionStep::Login => GBackupError::IMAPError(self.text),
            SessionStep::Select => GBackupError::IMAPError(self.text),
            SessionStep::Fetch => GBackupError::IMAPError(self.text),
        }
    }
}

impl BackupRunner {
    /// How the account logs in.
    pub fn new_imap_session(account: &GBackupAccount) -> (request: SessionRequest)
        ensures
            request@ == session_of(account@),
            request.password_var@ == account@.password_var,
            request.host@ == "imap.gmail.com"@,
            request.port == 993,
            request.username@ == account.username@,
            request.greeting@ == "Successfully created IMAP session for "@ + account.username@,
    {
        let LoadPassword::EnvVar { name } = &account.password;
        SessionRequest {
            password_var: name.clone(),
            host: IMAP_HOST,
            port: IMAP_PORT,
            username: account.username.clone(),
            greeting: concat("Successfully created IMAP session for ", account.username.as_str()),
        }
    }

    /// The fetch of the messages in `chunk`.
    pub fn do_fetch(account: &GBackupAccount, chunk: &Vec<Uid>) -> (request: FetchRequest)
        ensures
            request@ == job_of(account@, chunk@),
            request.mailbox@ == "[Gmail]/All Mail"@,
            request.items@ == "BODY.PEEK[]"@,
            request.uids@ == uid_set(chunk@),
            request.session.password_var@ == account@.password_var,
            request.session.host@ == "imap.gmail.com"@,
            request.session.port == 993,
            request.session.username@ == account.username@,
    {
        FetchRequest {
            session: BackupRunner::new_imap_session(account),
            mailbox: ALL_MAIL_INBOX,
            uids: write_uid_set(chunk),
            items: WHOLE_MESSAGE,
        }
    }
}

/// One fetch for each of the pieces, in order.
pub fn fetch_requests(account: &GBackupAccount, pieces: &Vec<Vec<Uid>>) -> (requests: Vec<
    FetchRequest,
>)
    ensures
        job_views(requests@) == jobs_of(account@, list_views(pieces@)),
        requests@.len() == pieces@.len(),
        forall|k: int|
            0 <= k < pieces@.len() ==> {
                &&& (#[trigger] requests@[k]).mailbox@ == "[Gmail]/All Mail"@
                &&& requests@[k].items@ == "BODY.PEEK[]"@
                &&& requests@[k].uids@ == uid_set(pieces@[k]@)
                &&& requests@[k].session@ == session_of(account@)
            },
{
    let mut requests: Vec<FetchRequest> = Vec::new();
    let mut i: usize = 0;
    while i < pieces.len()
        invariant
            i <= pieces.len(),
            requests@.len() == i,
            forall|k: int|
                0 <= k < i ==> (#[trigger] requests@[k])@ == job_of(account@, pieces@[k]@),
            forall|k: int|
                0 <= k < i ==> {
                    &&& (#[trigger] requests@[k]).mailbox@ == "[Gmail]/All Mail"@
                    &&& requests@[k].items@ == "BODY.PEEK[]"@
                    &&& requests@[k].uids@ == uid_set(pieces@[k]@)
                    &&& requests@[k].session@ == session_of(account@)
                },
        decreases pieces.len() - i,
    {
        requests.push(BackupRunner::do_fetch(account, &pieces[i]));
        i = i + 1;
    }
    assert(job_views(requests@) =~= jobs_of(account@, list_views(pieces@)));
    requests
}

/// The item is a message: it has an identifier and a body. A server may send others unasked.
pub open spec fn is_whole(mail: Mail) -> bool {
    mail.uid is Some && mail.body is Some
}

/// The items that are messages, in order.
pub open spec fn whole(mails: Seq<Mail>) -> Seq<Mail>
    decreases mails.len(),
{
    if mails.len() == 0 {
        seq![]
    } else if is_whole(mails.last()) {
        whole(mails.drop_last()).push(mails.last())
    } else {
        whole(mails.drop_last())
    }
}

/// What a worker fetched, or what went wrong.
pub open spec fn fetch_view(result: Result<Vec<Message>, SessionFailure>) -> Result<
    Seq<Mail>,
    Trouble,
> {
    match result {
        Ok(messages) => Ok(mails(messages@)),
        Err(e) => Err(e@),
    }
}

/// What the workers fetched.
pub open spec fn fetch_views(results: Seq<Result<Vec<Message>, SessionFailure>>) -> Seq<
    Result<Seq<Mail>, Trouble>,
> {
    results.map_values(|r: Result<Vec<Message>, SessionFailure>| fetch_view(r))
}

/// The messages that the workers fetched, in the order in which they came.
pub open spec fn fetched(results: Seq<Result<Seq<Mail>, Trouble>>) -> Seq<Mail>
    decreases results.len(),
{
    if results.len() == 0 {
        seq![]
    } else {
        fetched(results.drop_last()) + whole(results.last()->Ok_0)
    }
}

fn add_whole(messages: Vec<Message>, gathered: &mut Vec<Message>)
    ensures
        mails(final(gathered)@) == mails(old(gathered)@) + whole(mails(messages@)),
{
    let ghost all = mails(messages@);
    let ghost before = mails(gathered@);
    assert(before + whole(all.take(0)) =~= before);
    for message in it: messages
        invariant
            all == mails(it.seq()),
            mails(gathered@) == before + whole(all.take(it.index())),
            it.index() == it.seq().len() ==> mails(gathered@) == before + whole(all),
    {
        assert(all[it.index()] == message@);
        assert(all.take(it.index() + 1).drop_last() =~= all.take(it.index()));
        assert(it.index() + 1 == it.seq().len() ==> all.take(it.index() + 1) =~= all);
        let ghost so_far = mails(gathered@);
        if message.uid.is_some() && message.body.is_some() {
            gathered.push(message);
            assert(mails(gathered@) =~= so_far.push(message@));
        }
        assert(mails(gathered@) =~= before + whole(all.take(it.index() + 1)));
    }
}

/// Puts together what the workers fetched, in the order in which it came. The first failure of a
/// worker is the failure of all.
pub fn gather(results: Vec<Result<Vec<Message>, SessionFailure>>) -> (messages: Result<
    Vec<Message>,
    GBackupError,
>)
    ensures
        match first_error(fetch_views(results@)) {
            Some(e) => messages is Err && messages->Err_0@ == session_failure(e),
            None => messages is Ok && mails(messages->Ok_0@) == fetched(fetch_views(results@)),
        },
        messages is Ok <==> forall|j: int|
            0 <= j < results@.len() ==> (#[trigger] results@[j]) is Ok,
        messages is Ok ==> forall|j: int, i: int|
            #![trigger results@[j]->Ok_0@[i]]
            0 <= j < results@.len() && 0 <= i < results@[j]->Ok_0@.len()
                && results@[j]->Ok_0@[i].uid is Some && results@[j]->Ok_0@[i].body is Some
                ==> mails(messages->Ok_0@).contains(results@[j]->Ok_0@[i]@),
        messages is Ok ==> forall|k: int|
            0 <= k < messages->Ok_0@.len() ==> {
                &&& (#[trigger] messages->Ok_0@[k]).uid is Some
                &&& messages->Ok_0@[k].body is Some
                &&& exists|j: int|
                    0 <= j < results@.len() && #[trigger] mails(results@[j]->Ok_0@).contains(
                        messages->Ok_0@[k]@,
                    )
            },
{
    let ghost given = results@;
    let ghost views = fetch_views(results@);
    proof {
        first_error_is_the_first(views);
        assert forall|j: int| 0 <= j < given.len() implies ((#[trigger] given[j]) is Ok
            <==> views[j] is Ok) by {}
        assert((forall|j: int| 0 <= j < given.len() ==> (#[trigger] given[j]) is Ok) <==> (forall|
            j: int,
        |
            0 <= j < views.len() ==> (#[trigger] views[j]) is Ok)) by {
            if forall|j: int| 0 <= j < given.len() ==> (#[trigger] given[j]) is Ok {
                assert forall|j: int| 0 <= j < views.len() implies (#[trigger] views[j]) is Ok by {
                    assert(given[j] is Ok);
                }
            }
            if forall|j: int| 0 <= j < views.len() ==> (#[trigger] views[j]) is Ok {
                assert forall|j: int| 0 <= j < given.len() implies (#[trigger] given[j]) is Ok by {
                    assert(views[j] is Ok);
                }
            }
        }
    }
    let mut gathered: Vec<Message> = Vec::new();
    assert(mails(gathered@) =~= fetched(views.take(0)));
    assert(views.len() == 0 ==> views =~= views.take(0));
    proof {
        if views.len() == 0 {
            lemma_first_error(views, 0);
        }
    }
    for result in it: results
        invariant
            views == fetch_views(it.seq()),
            forall|k: int| 0 <= k < it.index() ==> (#[trigger] views[k]) is Ok,
            mails(gathered@) == fetched(views.take(it.index())),
            it.index() == it.seq().len() ==> mails(gathered@) == fetched(views) && first_error(
                views,
            ) is None,
    {
        assert(views[it.index()] == fetch_view(result));
        assert(views.take(it.index() + 1).drop_last() =~= views.take(it.index()));
        assert(it.index() + 1 == it.seq().len() ==> views.take(it.index() + 1) =~= views);
        match result {
            Ok(messages) => {
                add_whole(messages, &mut gathered);
                assert(it.index() + 1 == it.seq().len() ==> first_error(views) is None) by {
                    lemma_all_ok(views);
                }
            },
            Err(e) => {
                assert(first_error(views) == Some(e@)) by {
                    lemma_error_behind_ok(views, e@);
                }
                return Err(e.error());
            },
        }
    }
    proof {
        lemma_gathered(given, gathered@);
    }
    Ok(gathered)
}

proof fn lemma_all_ok<T, E>(replies: Seq<Result<T, E>>)
    ensures
        (forall|k: int| 0 <= k < replies.len() ==> (#[trigger] replies[k]) is Ok) ==> first_error(
            replies,
        ) is None,
{
    if forall|k: int| 0 <= k < replies.len() ==> (#[trigger] replies[k]) is Ok {
        lemma_first_error(replies, replies.len() as int);
    }
}

proof fn lemma_error_behind_ok<T, E>(replies: Seq<Result<T, E>>, e: E)
    requires
        exists|i: int|
            0 <= i < replies.len() && #[trigger] replies[i] == Err::<T, E>(e) && (forall|k: int|
                0 <= k < i ==> (#[trigger] replies[k]) is Ok),
    ensures
        first_error(replies) == Some(e),
{
    let i = choose|i: int|
        0 <= i < replies.len() && #[trigger] replies[i] == Err::<T, E>(e) && (forall|k: int|
            0 <= k < i ==> (#[trigger] replies[k]) is Ok);
    lemma_first_error(replies, i);
}

/// Of the items of a reply those are kept that have an identifier and a body, whatever these are,
/// and in their order.
pub proof fn items_are_kept_one_by_one(items: Seq<Mail>, item: Mail)
    ensures
        whole(seq![]) == Seq::<Mail>::empty(),
        item.uid is Some && item.body is Some ==> whole(items.push(item)) == whole(items).push(
            item,
        ),
        item.uid is None || item.body is None ==> whole(items.push(item)) == whole(items),
{
    assert(items.push(item).drop_last() =~= items);
}

/// What the workers fetched is put together reply by reply, and item by item: a further item is
/// added at the end, where it has an identifier and a body.
pub proof fn replies_are_put_together_one_by_one(
    results: Seq<Result<Seq<Mail>, Trouble>>,
    items: Seq<Mail>,
    item: Mail,
)
    ensures
        fetched(seq![]) == Seq::<Mail>::empty(),
        fetched(results.push(Ok(seq![]))) == fetched(results),
        item.uid is Some && item.body is Some ==> fetched(results.push(Ok(items.push(item))))
            == fetched(results.push(Ok(items))).push(item),
        item.uid is None || item.body is None ==> fetched(results.push(Ok(items.push(item))))
            == fetched(results.push(Ok(items))),
{
    items_are_kept_one_by_one(items, item);
    assert(results.push(Ok(seq![])).drop_last() =~= results);
    assert(results.push(Ok(items)).drop_last() =~= results);
    assert(results.push(Ok(items.push(item))).drop_last() =~= results);
    assert(fetched(results) + seq![] =~= fetched(results));
    assert(fetched(results) + whole(items).push(item) =~= (fetched(results) + whole(items)).push(
        item,
    ));
}

proof fn lemma_whole_contains(items: Seq<Mail>, item: Mail)
    ensures
        whole(items).contains(item) <==> items.contains(item) && item.uid is Some
            && item.body is Some,
    decreases items.len(),
{
    if items.len() > 0 {
        let front = items.drop_last();
        let last = items.last();
        lemma_whole_contains(front, item);
        items_are_kept_one_by_one(front, last);
        assert(items =~= front.push(last));
        lemma_push_contains(front, last, item);
        lemma_push_contains(whole(front), last, item);
    }
}

proof fn lemma_push_contains(items: Seq<Mail>, last: Mail, item: Mail)
    ensures
        items.push(last).contains(item) <==> items.contains(item) || item == last,
{
    let all = items.push(last);
    if items.contains(item) {
        let k = items.index_of(item);
        assert(all[k] == item);
    }
    if item == last {
        assert(all[items.len() as int] == item);
    }
    if all.contains(item) && item != last {
        let k = all.index_of(item);
        assert(items[k] == item);
    }
}

/// Where no worker failed, every item that has an identifier and a body is among the messages that
/// were put together, whoever fetched it, and whatever the body is.
pub proof fn every_message_is_gathered(results: Seq<Result<Seq<Mail>, Trouble>>, j: int, i: int)
    requires
        0 <= j < results.len(),
        results[j] is Ok,
        0 <= i < results[j]->Ok_0.len(),
        results[j]->Ok_0[i].uid is Some,
        results[j]->Ok_0[i].body is Some,
    ensures
        fetched(results).contains(results[j]->Ok_0[i]),
    decreases results.len(),
{
    let item = results[j]->Ok_0[i];
    let front = fetched(results.drop_last());
    let last = whole(results.last()->Ok_0);
    if j == results.len() - 1 {
        assert(results[j]->Ok_0.contains(item));
        lemma_whole_contains(results[j]->Ok_0, item);
        let k = last.index_of(item);
        assert(fetched(results)[front.len() + k] == item);
    } else {
        every_message_is_gathered(results.drop_last(), j, i);
        let k = front.index_of(item);
        assert(fetched(results)[k] == item);
    }
}

/// Nothing else is among the messages that were put together: each is an item of a reply, and has
/// an identifier and a body.
pub proof fn only_messages_are_gathered(results: Seq<Result<Seq<Mail>, Trouble>>, k: int) -> (at: (
    int,
    int,
))
    requires
        0 <= k < fetched(results).len(),
    ensures
        0 <= at.0 < results.len(),
        0 <= at.1 < results[at.0]->Ok_0.len(),
        results[at.0]->Ok_0[at.1] == fetched(results)[k],
        fetched(results)[k].uid is Some,
        fetched(results)[k].body is Some,
    decreases results.len(),
{
    let front = fetched(results.drop_last());
    let items = results.last()->Ok_0;
    if k < front.len() {
        only_messages_are_gathered(results.drop_last(), k)
    } else {
        let item = fetched(results)[k];
        assert(whole(items)[k - front.len()] == item);
        lemma_whole_contains(items, item);
        (results.len() - 1, items.index_of(item))
    }
}

proof fn lemma_gathered(
    results: Seq<Result<Vec<Message>, SessionFailure>>,
    messages: Seq<Message>,
)
    requires
        forall|j: int| 0 <= j < results.len() ==> (#[trigger] results[j]) is Ok,
        mails(messages) == fetched(fetch_views(results)),
    ensures
        forall|j: int, i: int|
            #![trigger results[j]->Ok_0@[i]]
            0 <= j < results.len() && 0 <= i < results[j]->Ok_0@.len()
                && results[j]->Ok_0@[i].uid is Some && results[j]->Ok_0@[i].body is Some ==> mails(
                messages,
            ).contains(results[j]->Ok_0@[i]@),
        forall|k: int|
            0 <= k < messages.len() ==> {
                &&& (#[trigger] messages[k]).uid is Some
                &&& messages[k].body is Some
                &&& exists|j: int|
                    0 <= j < results.len() && #[trigger] mails(results[j]->Ok_0@).contains(
                        messages[k]@,
                    )
            },
{
    let views = fetch_views(results);
    assert forall|j: int, i: int|
        #![trigger results[j]->Ok_0@[i]]
        0 <= j < results.len() && 0 <= i < results[j]->Ok_0@.len() && results[j]->Ok_0@[i].uid
            is Some && results[j]->Ok_0@[i].body is Some implies mails(messages).contains(
        results[j]->Ok_0@[i]@,
    ) by {
        assert(results[j] is Ok);
        assert(views[j] == Ok::<Seq<Mail>, Trouble>(mails(results[j]->Ok_0@)));
        assert(views[j]->Ok_0[i] == results[j]->Ok_0@[i]@);
        every_message_is_gathered(views, j, i);
    }
    assert forall|k: int| 0 <= k < messages.len() implies {
        &&& (#[trigger] messages[k]).uid is Some
        &&& messages[k].body is Some
        &&& exists|j: int|
            0 <= j < results.len() && #[trigger] mails(results[j]->Ok_0@).contains(messages[k]@)
    } by {
        assert(mails(messages)[k] == messages[k]@);
        let (j, i) = only_messages_are_gathered(views, k);
        assert(results[j] is Ok);
        assert(views[j] == Ok::<Seq<Mail>, Trouble>(mails(results[j]->Ok_0@)));
        assert(mails(results[j]->Ok_0@)[i] == messages[k]@);
        assert(mails(results[j]->Ok_0@).contains(messages[k]@));
    }
}

/// Each fetch of a download, whatever the account is configured for, selects the mailbox with all
/// mail, asks for whole messages, and logs in as the account does at the mail server.
pub proof fn fetches_ask_for_whole_messages(account: Account, pieces: Seq<Seq<Uid>>, k: int)
    requires
        0 <= k < pieces.len(),
    ensures
        jobs_of(account, pieces).len() == pieces.len(),
        jobs_of(account, pieces)[k].mailbox == "[Gmail]/All Mail"@,
        jobs_of(account, pieces)[k].items == "BODY.PEEK[]"@,
        jobs_of(account, pieces)[k].uids == uid_set(pieces[k]),
        jobs_of(account, pieces)[k].session == session_of(account),
{
}

/// Whatever an account is configured for, it logs in at the mail server under its own name, with
/// the password from its own variable.
pub proof fn account_logs_in_as_itself(account: Account)
    ensures
        session_of(account).password_var == account.password_var,
        session_of(account).host == "imap.gmail.com"@,
        session_of(account).port == 993,
        session_of(account).username == account.username,
        session_of(account).greeting == "Successfully created IMAP session for "@
            + account.username,
{
}

/// The models of fetches and of their results have all that these have, in order.
pub proof fn models_have_the_whole_fetches(
    requests: Seq<FetchRequest>,
    results: Seq<Result<Vec<Message>, SessionFailure>>,
)
    ensures
        job_views(requests).len() == requests.len(),
        forall|k: int|
            0 <= k < requests.len() ==> {
                let request = requests[k];
                &&& (#[trigger] job_views(requests)[k]).mailbox == request.mailbox@
                &&& job_views(requests)[k].items == request.items@
                &&& job_views(requests)[k].uids == request.uids@
                &&& job_views(requests)[k].session.password_var == request.session.password_var@
                &&& job_views(requests)[k].session.host == request.session.host@
                &&& job_views(requests)[k].session.port == request.session.port
                &&& job_views(requests)[k].session.username == request.session.username@
                &&& job_views(requests)[k].session.greeting == request.session.greeting@
            },
        fetch_views(results).len() == results.len(),
        forall|j: int|
            0 <= j < results.len() ==> {
                &&& results[j] is Ok ==> #[trigger] fetch_views(results)[j] == Ok::<
                    Seq<Mail>,
                    Trouble,
                >(mails(results[j]->Ok_0@))
                &&& results[j] is Err ==> fetch_views(results)[j] == Err::<Seq<Mail>, Trouble>(
                    Trouble { step: results[j]->Err_0.step, text: results[j]->Err_0.text@ },
                )
            },
{
}

} // verus!
