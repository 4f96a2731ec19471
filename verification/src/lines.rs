//! The lines of an mbox file: the separating lines show where each message begins.

use vstd::prelude::*;
use vstd::utf8::*;

use crate::mbox::{entry_of, lemma_line_is_one_line, mbox_of};
use crate::message::Kept;
use crate::separator::{
    facts_of, lemma_encode_concat, line_of, one_line, separator, single_address, unbroken,
};

verus! {

/// What stands behind the last line break.
pub open spec fn last_line(bytes: Seq<u8>) -> Seq<u8>
    decreases bytes.len(),
{
    if bytes.len() == 0 || bytes.last() == 10 {
        seq![]
    } else {
        last_line(bytes.drop_last()).push(bytes.last())
    }
}

/// The lines that end in a line break, without it.
pub open spec fn broken_lines(bytes: Seq<u8>) -> Seq<Seq<u8>>
    decreases bytes.len(),
{
    if bytes.len() == 0 {
        seq![]
    } else if bytes.last() == 10 {
        broken_lines(bytes.drop_last()).push(last_line(bytes.drop_last()))
    } else {
        broken_lines(bytes.drop_last())
    }
}

/// The lines, without their line breaks. The last is what stands behind the last break.
pub open spec fn lines(bytes: Seq<u8>) -> Seq<Seq<u8>> {
    broken_lines(bytes).push(last_line(bytes))
}

/// The line begins with the word `From` and a space.
pub open spec fn is_marked(line: Seq<u8>) -> bool {
    &&& line.len() >= 5
    &&& line[0] == 70
    &&& line[1] == 114
    &&& line[2] == 111
    &&& line[3] == 109
    &&& line[4] == 32
}

/// Those of the lines that begin with the word `From` and a space, in order.
pub open spec fn marked(lines: Seq<Seq<u8>>) -> Seq<Seq<u8>>
    decreases lines.len(),
{
    if lines.len() == 0 {
        seq![]
    } else if is_marked(lines.last()) {
        marked(lines.drop_last()).push(lines.last())
    } else {
        marked(lines.drop_last())
    }
}

/// The separating lines, without their line breaks, of those messages that have an entry, in
/// order.
pub open spec fn separators(emails: Seq<Kept>) -> Seq<Seq<u8>>
    decreases emails.len(),
{
    if emails.len() == 0 {
        seq![]
    } else {
        let email = emails.last();
        match line_of(email.uid, facts_of(email.raw_data)) {
            Some(Ok(line)) => separators(emails.drop_last()).push(line.drop_last()),
            _ => separators(emails.drop_last()),
        }
    }
}

proof fn lemma_lines_of_both(first: Seq<u8>, second: Seq<u8>)
    requires
        last_line(first) == Seq::<u8>::empty(),
    ensures
        last_line(first + second) == last_line(second),
        broken_lines(first + second) == broken_lines(first) + broken_lines(second),
    decreases second.len(),
{
    if second.len() == 0 {
        assert(first + second =~= first);
        assert(broken_lines(first) + broken_lines(second) =~= broken_lines(first));
    } else {
        lemma_lines_of_both(first, second.drop_last());
        assert((first + second).drop_last() =~= first + second.drop_last());
        assert(broken_lines(first + second) =~= broken_lines(first) + broken_lines(second));
    }
}

proof fn lemma_unbroken_line(bytes: Seq<u8>)
    requires
        forall|i: int| 0 <= i < bytes.len() ==> #[trigger] bytes[i] != 10,
    ensures
        last_line(bytes) == bytes,
        broken_lines(bytes) == Seq::<Seq<u8>>::empty(),
    decreases bytes.len(),
{
    if bytes.len() > 0 {
        let front = bytes.drop_last();
        assert forall|i: int| 0 <= i < front.len() implies #[trigger] front[i] != 10 by {
            assert(front[i] == bytes[i]);
        }
        lemma_unbroken_line(front);
        assert(bytes[bytes.len() - 1] != 10);
        assert(last_line(bytes) =~= bytes);
    }
}

proof fn lemma_marked_of_both(first: Seq<Seq<u8>>, second: Seq<Seq<u8>>)
    ensures
        marked(first + second) == marked(first) + marked(second),
    decreases second.len(),
{
    if second.len() == 0 {
        assert(first + second =~= first);
        assert(marked(first) + marked(second) =~= marked(first));
    } else {
        lemma_marked_of_both(first, second.drop_last());
        assert((first + second).drop_last() =~= first + second.drop_last());
        assert(marked(first + second) =~= marked(first) + marked(second));
    }
}

proof fn lemma_none_marked(lines: Seq<Seq<u8>>)
    requires
        forall|i: int| 0 <= i < lines.len() ==> !is_marked(#[trigger] lines[i]),
    ensures
        marked(lines) == Seq::<Seq<u8>>::empty(),
    decreases lines.len(),
{
    if lines.len() > 0 {
        let front = lines.drop_last();
        assert forall|i: int| 0 <= i < front.len() implies !is_marked(#[trigger] front[i]) by {
            assert(front[i] == lines[i]);
        }
        lemma_none_marked(front);
        assert(!is_marked(lines[lines.len() - 1]));
    }
}

proof fn lemma_separator_is_marked(address: Seq<char>, date: Seq<char>)
    requires
        one_line(encode_utf8(separator(address, date))),
    ensures
        is_marked(encode_utf8(separator(address, date)).drop_last()),
{
    let line = encode_utf8(separator(address, date));
    let rest = address + " "@ + date + "\n"@;
    reveal_strlit("From ");
    assert(separator(address, date) =~= "From "@ + rest);
    lemma_encode_concat("From "@, rest);
    is_ascii_chars_encode_utf8("From "@);
    let word = encode_utf8("From "@);
    assert(word[0] == 70 && word[1] == 114 && word[2] == 111 && word[3] == 109 && word[4] == 32)
        by {
        assert("From "@[0] as u8 == 70);
        assert("From "@[1] as u8 == 114);
        assert("From "@[2] as u8 == 111);
        assert("From "@[3] as u8 == 109);
        assert("From "@[4] as u8 == 32);
    }
    assert(line =~= word + encode_utf8(rest));
    assert(line.len() > 5);
}

/// The message has an entry in the file.
pub open spec fn has_entry(email: Kept) -> bool {
    entry_of(email) is Some && entry_of(email)->0 is Ok
}

/// No line of the message begins with the word `From` and a space.
pub open spec fn is_unmarked(raw: Seq<u8>) -> bool {
    forall|i: int| 0 <= i < lines(raw).len() ==> !is_marked(#[trigger] lines(raw)[i])
}

proof fn lemma_lines_of_entry(email: Kept)
    requires
        has_entry(email),
        unbroken(facts_of(email.raw_data)),
        is_unmarked(email.raw_data),
    ensures
        last_line(entry_of(email)->0->Ok_0) == Seq::<u8>::empty(),
        marked(broken_lines(entry_of(email)->0->Ok_0)) == seq![
            line_of(email.uid, facts_of(email.raw_data))->0->Ok_0.drop_last(),
        ],
{
    let facts = facts_of(email.raw_data);
    let line = line_of(email.uid, facts)->0->Ok_0;
    let front = line.drop_last();
    let body = email.raw_data + seq![10u8];
    lemma_line_is_one_line(email.uid, facts);
    assert forall|i: int| 0 <= i < front.len() implies #[trigger] front[i] != 10 by {
        assert(front[i] == line[i]);
    }
    lemma_unbroken_line(front);
    assert(broken_lines(line) =~= seq![front]);
    assert(body.drop_last() =~= email.raw_data);
    assert(broken_lines(body) == lines(email.raw_data));
    assert(entry_of(email)->0->Ok_0 =~= line + body);
    lemma_lines_of_both(line, body);
    lemma_marked_of_both(broken_lines(line), broken_lines(body));
    lemma_none_marked(lines(email.raw_data));
    lemma_separator_is_marked(single_address(facts.addresses->0)->0, facts.date_text->0);
    assert(marked(seq![front]) =~= seq![front]) by {
        reveal_with_fuel(marked, 2);
        assert(seq![front].drop_last() =~= seq![]);
        assert(is_marked(front));
    }
    assert(seq![front] + Seq::<Seq<u8>>::empty() =~= seq![front]);
}

/// The file can be taken apart again: where no line of a message in it begins with the word `From`
/// and a space, the lines of the file that do are the separating lines of the entries, in order.
///
/// That no mailbox and no date has a line break in it is what reading the headers gives.
pub proof fn separating_lines_mark_the_entries(emails: Seq<Kept>)
    requires
        forall|k: int|
            0 <= k < emails.len() && has_entry(#[trigger] emails[k]) ==> unbroken(
                facts_of(emails[k].raw_data),
            ) && is_unmarked(emails[k].raw_data),
    ensures
        marked(lines(mbox_of(emails))) == separators(emails),
{
    lemma_marked_lines(emails);
    let file = mbox_of(emails);
    assert(lines(file).drop_last() =~= broken_lines(file));
}

proof fn lemma_marked_lines(emails: Seq<Kept>)
    requires
        forall|k: int|
            0 <= k < emails.len() && has_entry(#[trigger] emails[k]) ==> unbroken(
                facts_of(emails[k].raw_data),
            ) && is_unmarked(emails[k].raw_data),
    ensures
        last_line(mbox_of(emails)) == Seq::<u8>::empty(),
        marked(broken_lines(mbox_of(emails))) == separators(emails),
    decreases emails.len(),
{
    if emails.len() > 0 {
        let front = emails.drop_last();
        let email = emails[emails.len() - 1];
        assert forall|k: int| 0 <= k < front.len() && has_entry(#[trigger] front[k]) implies unbroken(
            facts_of(front[k].raw_data),
        ) && is_unmarked(front[k].raw_data) by {
            assert(front[k] == emails[k]);
        }
        lemma_marked_lines(front);
        match entry_of(email) {
            Some(Ok(entry)) => {
                lemma_lines_of_entry(email);
                lemma_lines_of_both(mbox_of(front), entry);
                lemma_marked_of_both(broken_lines(mbox_of(front)), broken_lines(entry));
                assert(separators(emails) =~= separators(front) + marked(broken_lines(entry)));
            },
            _ => {
                assert(mbox_of(emails) =~= mbox_of(front));
            },
        }
    }
}

/// The entries of those messages that have one, in order.
pub open spec fn entries(emails: Seq<Kept>) -> Seq<Seq<u8>>
    decreases emails.len(),
{
    if emails.len() == 0 {
        seq![]
    } else {
        match entry_of(emails.last()) {
            Some(Ok(entry)) => entries(emails.drop_last()).push(entry),
            _ => entries(emails.drop_last()),
        }
    }
}

/// The raw messages that have an entry, in order.
pub open spec fn messages(emails: Seq<Kept>) -> Seq<Seq<u8>>
    decreases emails.len(),
{
    if emails.len() == 0 {
        seq![]
    } else if has_entry(emails.last()) {
        messages(emails.drop_last()).push(emails.last().raw_data)
    } else {
        messages(emails.drop_last())
    }
}

/// What an entry holds after its separating line, which has this length without its line break:
/// all but the last byte.
pub open spec fn content(entry: Seq<u8>, separator_len: nat) -> Seq<u8> {
    entry.subrange(separator_len as int + 1, entry.len() - 1)
}

/// The file is the entries one after the other.
pub proof fn file_is_its_entries(emails: Seq<Kept>)
    ensures
        mbox_of(emails) == entries(emails).flatten(),
    decreases emails.len(),
{
    if emails.len() > 0 {
        let front = emails.drop_last();
        file_is_its_entries(front);
        match entry_of(emails.last()) {
            Some(Ok(entry)) => {
                lemma_flatten_one_more(entries(front), entry);
            },
            _ => {
                assert(mbox_of(emails) =~= mbox_of(front));
            },
        }
    } else {
        assert(mbox_of(emails) =~= entries(emails).flatten());
    }
}

proof fn lemma_flatten_one_more(parts: Seq<Seq<u8>>, part: Seq<u8>)
    ensures
        parts.push(part).flatten() == parts.flatten() + part,
    decreases parts.len(),
{
    let all = parts.push(part);
    if parts.len() == 0 {
        assert(all.drop_first() =~= seq![]);
        assert(all.drop_first().flatten() =~= seq![]);
        assert(all.flatten() =~= parts.flatten() + part);
    } else {
        let rest = parts.drop_first();
        assert(all.drop_first() =~= rest.push(part));
        lemma_flatten_one_more(rest, part);
        assert(all.flatten() =~= parts.flatten() + part);
    }
}

/// The messages can be had back: each entry is a separating line, a message byte for byte, and a
/// line break.
pub proof fn entries_hold_the_messages(emails: Seq<Kept>)
    requires
        forall|k: int|
            0 <= k < emails.len() && has_entry(#[trigger] emails[k]) ==> unbroken(
                facts_of(emails[k].raw_data),
            ),
    ensures
        entries(emails).len() == messages(emails).len(),
        separators(emails).len() == messages(emails).len(),
        forall|k: int|
            0 <= k < messages(emails).len() ==> {
                &&& #[trigger] entries(emails)[k] == separators(emails)[k] + seq![10u8] + messages(
                    emails,
                )[k] + seq![10u8]
                &&& content(entries(emails)[k], separators(emails)[k].len()) == messages(emails)[k]
            },
    decreases emails.len(),
{
    if emails.len() > 0 {
        let front = emails.drop_last();
        let email = emails[emails.len() - 1];
        assert forall|k: int| 0 <= k < front.len() && has_entry(
            #[trigger] front[k],
        ) implies unbroken(facts_of(front[k].raw_data)) by {
            assert(front[k] == emails[k]);
        }
        entries_hold_the_messages(front);
        if has_entry(email) {
            let facts = facts_of(email.raw_data);
            let line = line_of(email.uid, facts)->0->Ok_0;
            let entry = entry_of(email)->0->Ok_0;
            lemma_line_is_one_line(email.uid, facts);
            assert(line =~= line.drop_last() + seq![10u8]);
            assert(content(entry, line.drop_last().len()) =~= email.raw_data);
        }
    }
}

} // verus!
