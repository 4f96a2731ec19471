//! Messages, as they come from the server and as they are kept.

use vstd::prelude::*;

use crate::uids::Uid;

verus! {

/// A message in its raw form.
pub type Rfc822Data = Vec<u8>;

/// One item of the server's reply to a fetch.
pub struct Message {
    /// The identifier, where the item carries one.
    pub uid: Option<Uid>,
    /// The raw message, where the item carries it.
    pub body: Option<Rfc822Data>,
    /// The subject, where the item carries an envelope with one.
    pub subject: Option<Vec<u8>>,
}

/// A message as it is kept, ready to be exported.
pub struct ExportEmail {
    pub raw_data: Rfc822Data,
    pub uid: Uid,
}

/// The model of a [`Message`].
pub struct Mail {
    pub uid: Option<Uid>,
    pub body: Option<Seq<u8>>,
    pub subject: Option<Seq<u8>>,
}

/// The model of an [`ExportEmail`].
pub struct Kept {
    pub raw_data: Seq<u8>,
    pub uid: Uid,
}

/// The contents of an optional list of bytes.
pub open spec fn bytes_view(bytes: Option<Vec<u8>>) -> Option<Seq<u8>> {
    match bytes {
        Some(bytes) => Some(bytes@),
        None => None,
    }
}

impl View for Message {
    type V = Mail;

    open spec fn view(&self) -> Mail {
        Mail { uid: self.uid, body: bytes_view(self.body), subject: bytes_view(self.subject) }
    }
}

impl View for ExportEmail {
    type V = Kept;

    open spec fn view(&self) -> Kept {
        Kept { raw_data: self.raw_data@, uid: self.uid }
    }
}

/// The models of a list of messages.
pub open spec fn mails(messages: Seq<Message>) -> Seq<Mail> {
    messages.map_values(|m: Message| m@)
}

/// The models of a list of kept messages.
pub open spec fn kept(emails: Seq<ExportEmail>) -> Seq<Kept> {
    emails.map_values(|e: ExportEmail| e@)
}

/// Copies a list of bytes.
pub(crate) fn copy_bytes(bytes: &Vec<u8>) -> (copy: Vec<u8>)
    ensures
        copy@ == bytes@,
{
    vstd::slice::slice_to_vec(bytes.as_slice())
}

/// The models of messages are those of each message, in order, with all that it has.
pub proof fn models_have_the_whole_messages(messages: Seq<Message>)
    ensures
        mails(messages).len() == messages.len(),
        forall|i: int|
            0 <= i < messages.len() ==> {
                &&& (#[trigger] mails(messages)[i]).uid == messages[i].uid
                &&& messages[i].body is None ==> mails(messages)[i].body is None
                &&& messages[i].body is Some ==> mails(messages)[i].body == Some(
                    messages[i].body->0@,
                )
                &&& messages[i].subject is None ==> mails(messages)[i].subject is None
                &&& messages[i].subject is Some ==> mails(messages)[i].subject == Some(
                    messages[i].subject->0@,
                )
            },
{
}

/// The models of kept messages are those of each message, in order, with all that it has.
pub proof fn models_have_the_whole_emails(emails: Seq<ExportEmail>)
    ensures
        kept(emails).len() == emails.len(),
        forall|i: int|
            0 <= i < emails.len() ==> {
                &&& (#[trigger] kept(emails)[i]).uid == emails[i].uid
                &&& kept(emails)[i].raw_data == emails[i].raw_data@
            },
{
}

} // verus!
