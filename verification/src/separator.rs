//! The line that stands before a message in an mbox file: it names the sender and the date.

use vstd::prelude::*;
use vstd::string::*;
use vstd::utf8::*;

use crate::error::{ExportEngineError, ExportFailure};
use crate::mail::{
    address_views, addrparse_header, dateparse, decoded_value, eq_but_for_ascii_case, finds_key,
    format_utc, get_first_value, header_list, header_views, parse_headers, parsed_date, raw_value,
    utc_text, value_addresses, SEPARATOR_DATE,
};
use crate::message::Kept;
use crate::text::{
    ascii_lowercase, concat, concat3, decimal, decimal_text, lowercase, text_view, text_views,
    to_lowercase,
};
use crate::uids::Uid;

verus! {

/// What was read of the headers of a message.
pub struct HeaderReading {
    /// The names of the headers in lower case, in order, where they could be read.
    pub keys: Option<Vec<String>>,
    /// The value of the first `Date` header.
    pub date_value: Option<String>,
    /// The addresses of the first `From` header: each mailbox, and nothing for a group.
    pub addresses: Option<Vec<Option<String>>>,
    /// The date that the value of the `Date` header gives.
    pub date: Option<i64>,
    /// That date in the form that a separating line has.
    pub date_text: Option<String>,
}

/// The model of a [`HeaderReading`].
pub struct HeaderFacts {
    pub keys: Option<Seq<Seq<char>>>,
    pub date_value: Option<Seq<char>>,
    pub addresses: Option<Seq<Option<Seq<char>>>>,
    pub date: Option<i64>,
    pub date_text: Option<Seq<char>>,
}

impl View for HeaderReading {
    type V = HeaderFacts;

    open spec fn view(&self) -> HeaderFacts {
        HeaderFacts {
            keys: match self.keys {
                Some(keys) => Some(text_views(keys@)),
                None => None,
            },
            date_value: text_view(self.date_value),
            addresses: match self.addresses {
                Some(addresses) => Some(address_views(addresses@)),
                None => None,
            },
            date: self.date,
            date_text: text_view(self.date_text),
        }
    }
}

/// The place of the first `From` header among names in lower case.
pub open spec fn from_index(keys: Seq<Seq<char>>) -> Option<nat>
    decreases keys.len(),
{
    if keys.len() == 0 {
        None
    } else if keys[0] == "from"@ {
        Some(0)
    } else {
        match from_index(keys.drop_first()) {
            Some(i) => Some(i + 1),
            None => None,
        }
    }
}

/// The names of the headers in lower case.
pub open spec fn lowercase_keys(headers: Seq<(Seq<char>, Seq<u8>)>) -> Seq<Seq<char>> {
    headers.map_values(|header: (Seq<char>, Seq<u8>)| lowercase(header.0))
}

/// The mailbox, where the addresses are one mailbox and nothing else.
pub open spec fn single_address(addresses: Seq<Option<Seq<char>>>) -> Option<Seq<char>> {
    if addresses.len() == 1 {
        addresses[0]
    } else {
        None
    }
}

/// The line that stands before a message from `address` that was sent at `date`.
pub open spec fn separator(address: Seq<char>, date: Seq<char>) -> Seq<char> {
    "From "@ + address + " "@ + date + "\n"@
}

/// Why there is no separating line for a message.
pub open spec fn format_failure(text: Seq<char>) -> ExportFailure {
    ExportFailure::MboxFormatError(text)
}

/// The separating line of a message, or why it has none. Nothing where the message has a date
/// that the calendar does not have.
pub open spec fn line_of(uid: Uid, facts: HeaderFacts) -> Option<Result<Seq<u8>, ExportFailure>> {
    let id = decimal(uid as nat);
    if facts.keys is None {
        Some(Err(format_failure("Can't parse headers for email: "@ + id + "!"@)))
    } else if from_index(facts.keys->0) is None {
        Some(Err(format_failure("Can't find 'From' header in: "@ + id)))
    } else if facts.date_value is None {
        Some(Err(format_failure("Can't find 'Date' header in: "@ + id)))
    } else if facts.addresses is None {
        Some(Err(format_failure("Can't parse address from header in email: "@ + id + "!"@)))
    } else if single_address(facts.addresses->0) is None {
        Some(Err(format_failure("Can't find a single address from header in email: "@ + id)))
    } else if facts.date is None {
        Some(Err(format_failure("Can't parse Date from header in email: "@ + id)))
    } else if facts.date_text is None {
        None
    } else {
        Some(
            Ok(encode_utf8(separator(single_address(facts.addresses->0)->0, facts.date_text->0))),
        )
    }
}

/// What there is to read in headers, or where they cannot be read.
pub open spec fn facts_in(headers: Option<Seq<(Seq<char>, Seq<u8>)>>) -> HeaderFacts {
    let keys = match headers {
        Some(headers) => Some(lowercase_keys(headers)),
        None => None,
    };
    let from = if keys is Some {
        from_index(keys->0)
    } else {
        None
    };
    let date_value = if finds_key(headers, "Date"@) {
        Some(decoded_value(raw_value(headers->0, "Date"@)->0))
    } else {
        None
    };
    let date = if date_value is Some {
        parsed_date(date_value->0)
    } else {
        None
    };
    HeaderFacts {
        keys,
        date_value,
        addresses: if from is Some {
            value_addresses(headers->0[from->0 as int].1)
        } else {
            None
        },
        date,
        date_text: if date is Some {
            utc_text(date->0, SEPARATOR_DATE@)
        } else {
            None
        },
    }
}

/// What there is to read in the headers of a message.
pub open spec fn facts_of(raw: Seq<u8>) -> HeaderFacts {
    facts_in(header_list(raw))
}

/// The view of a separating line.
pub open spec fn line_view(line: Result<Vec<u8>, ExportEngineError>) -> Result<
    Seq<u8>,
    ExportFailure,
> {
    match line {
        Ok(line) => Ok(line@),
        Err(e) => Err(e@),
    }
}

/// The view of a separating line that there may not be.
pub open spec fn maybe_line_view(line: Option<Result<Vec<u8>, ExportEngineError>>) -> Option<
    Result<Seq<u8>, ExportFailure>,
> {
    match line {
        Some(line) => Some(line_view(line)),
        None => None,
    }
}

/// Finds the first `From` header among names in lower case.
pub fn find_from(keys: &Vec<String>) -> (index: Option<usize>)
    ensures
        match index {
            Some(i) => i < keys@.len() && from_index(text_views(keys@)) == Some(i as nat),
            None => from_index(text_views(keys@)) is None,
        },
        index is Some ==> index->0 < keys@.len() && keys@[index->0 as int]@ == "from"@
            && forall|k: int| 0 <= k < index->0 ==> (#[trigger] keys@[k])@ != "from"@,
        index is None ==> forall|k: int| 0 <= k < keys@.len() ==> (#[trigger] keys@[k])@ != "from"@,
{
    let ghost views = text_views(keys@);
    let name = "from".to_owned();
    let mut i: usize = 0;
    assert(views.skip(0) =~= views);
    while i < keys.len()
        invariant
            i <= keys.len(),
            views == text_views(keys@),
            name@ == "from"@,
            forall|k: int| 0 <= k < i ==> (#[trigger] keys@[k])@ != "from"@,
            from_index(views) == match from_index(views.skip(i as int)) {
                Some(k) => Some((i + k) as nat),
                None => None,
            },
        decreases keys.len() - i,
    {
        assert(views.skip(i as int)[0] == keys@[i as int]@);
        if keys[i] == name {
            return Some(i);
        }
        assert(views.skip(i as int).drop_first() =~= views.skip(i + 1));
        i = i + 1;
    }
    None
}

/// The mailbox, where the addresses are one mailbox and nothing else.
pub fn extract_single(addresses: &Vec<Option<String>>) -> (single: Option<String>)
    ensures
        text_view(single) == single_address(address_views(addresses@)),
        single is Some <==> addresses@.len() == 1 && addresses@[0] is Some,
        single is Some ==> single->0@ == addresses@[0]->0@,
{
    if addresses.len() == 1 {
        assert(address_views(addresses@)[0] == text_view(addresses@[0]));
        match &addresses[0] {
            Some(address) => Some(address.clone()),
            None => None,
        }
    } else {
        None
    }
}

fn failed(text: String) -> (line: Option<Result<Vec<u8>, ExportEngineError>>)
    ensures
        maybe_line_view(line) == Some(Err::<Seq<u8>, _>(format_failure(text@))),
{
    Some(Err(ExportEngineError::MboxFormatError(text)))
}

/// Decides on the separating line of a message by what was read of its headers.
pub fn write_line(uid: Uid, reading: &HeaderReading) -> (line: Option<
    Result<Vec<u8>, ExportEngineError>,
>)
    ensures
        maybe_line_view(line) == line_of(uid, reading@),
{
    let id = decimal_text(uid as u64);
    let from = match &reading.keys {
        Some(keys) => find_from(keys),
        None => {
            return failed(concat3("Can't parse headers for email: ", id.as_str(), "!"));
        },
    };
    if from.is_none() {
        return failed(concat("Can't find 'From' header in: ", id.as_str()));
    }
    if reading.date_value.is_none() {
        return failed(concat("Can't find 'Date' header in: ", id.as_str()));
    }
    let single = match &reading.addresses {
        Some(addresses) => extract_single(addresses),
        None => {
            return failed(
                concat3("Can't parse address from header in email: ", id.as_str(), "!"),
            );
        },
    };
    let address = match single {
        Some(address) => address,
        None => {
            return failed(
                concat("Can't find a single address from header in email: ", id.as_str()),
            );
        },
    };
    if reading.date.is_none() {
        return failed(concat("Can't parse Date from header in email: ", id.as_str()));
    }
    match &reading.date_text {
        Some(date) => {
            let mut line = "From ".to_owned();
            line.append(address.as_str());
            line.append(" ");
            line.append(date.as_str());
            line.append("\n");
            Some(Ok(vstd::slice::slice_to_vec(line.as_str().as_bytes())))
        },
        None => None,
    }
}

fn lower_keys(headers: &Vec<(String, Vec<u8>)>) -> (lower: Vec<String>)
    ensures
        text_views(lower@) == lowercase_keys(header_views(headers@)),
        forall|k: int|
            0 <= k < headers@.len() && is_ascii_chars(#[trigger] header_views(headers@)[k].0)
                ==> text_views(lower@)[k] == ascii_lowercase(header_views(headers@)[k].0),
{
    let mut lower: Vec<String> = Vec::new();
    let mut i: usize = 0;
    while i < headers.len()
        invariant
            i <= headers.len(),
            lower@.len() == i,
            forall|k: int| 0 <= k < i ==> (#[trigger] lower@[k])@ == lowercase(headers@[k].0@),
            forall|k: int|
                0 <= k < i && is_ascii_chars(headers@[k].0@) ==> (#[trigger] lower@[k])@
                    == ascii_lowercase(headers@[k].0@),
        decreases headers.len() - i,
    {
        lower.push(to_lowercase(headers[i].0.as_str()));
        i = i + 1;
    }
    assert(text_views(lower@) =~= lowercase_keys(header_views(headers@)));
    lower
}

/// No mailbox and no date of the reading has a line break in it.
pub open spec fn unbroken(facts: HeaderFacts) -> bool {
    &&& facts.addresses is Some ==> forall|i: int|
        0 <= i < facts.addresses->0.len() && (#[trigger] facts.addresses->0[i]) is Some
            ==> !facts.addresses->0[i]->0.contains('\n')
    &&& facts.date_text is Some ==> !facts.date_text->0.contains('\n')
}

/// Reads the headers of a message.
///
/// The name of a header is found in any case of its letters, as far as they are ASCII.
pub fn read_headers(raw: &Vec<u8>) -> (reading: HeaderReading)
    ensures
        reading@ == facts_of(raw@),
        unbroken(reading@),
        reading@.keys is Some ==> forall|i: int|
            0 <= i < header_list(raw@)->0.len() && is_ascii_chars(
                (#[trigger] header_list(raw@)->0[i]).0,
            ) ==> reading@.keys->0[i] == ascii_lowercase(header_list(raw@)->0[i].0),
{
    let keys = match parse_headers(raw) {
        Ok(headers) => Some(lower_keys(&headers)),
        Err(_) => None,
    };
    let from = match &keys {
        Some(keys) => find_from(keys),
        None => None,
    };
    let addresses = match from {
        Some(index) => match addrparse_header(raw, index) {
            Ok(addresses) => {
                proof {
                    assert forall|i: int|
                        0 <= i < addresses@.len() && (#[trigger] address_views(
                            addresses@,
                        )[i]) is Some implies !address_views(addresses@)[i]->0.contains('\n') by {
                        assert(addresses@[i] is Some);
                    }
                }
                Some(addresses)
            },
            Err(_) => None,
        },
        None => None,
    };
    let date_value = get_first_value(raw, "Date");
    let date = match &date_value {
        Some(value) => match dateparse(value.as_str()) {
            Ok(date) => Some(date),
            Err(_) => None,
        },
        None => None,
    };
    let date_text = match date {
        Some(date) => format_utc(date, SEPARATOR_DATE),
        None => None,
    };
    HeaderReading { keys, date_value, addresses, date, date_text }
}

/// The bytes are one line: they end in a line break, and have no other.
pub open spec fn one_line(bytes: Seq<u8>) -> bool {
    &&& bytes.len() > 0
    &&& bytes.last() == 10
    &&& forall|i: int| 0 <= i < bytes.len() - 1 ==> #[trigger] bytes[i] != 10
}

/// The encoding of two texts is the two encodings one after the other.
pub(crate) proof fn lemma_encode_concat(a: Seq<char>, b: Seq<char>)
    ensures
        encode_utf8(a + b) == encode_utf8(a) + encode_utf8(b),
    decreases a.len(),
{
    if a.len() == 0 {
        assert(a + b =~= b);
        assert(encode_utf8(a) + encode_utf8(b) =~= encode_utf8(b));
    } else {
        assert((a + b).drop_first() =~= a.drop_first() + b);
        lemma_encode_concat(a.drop_first(), b);
        assert(encode_utf8(a + b) =~= encode_utf8(a) + encode_utf8(b));
    }
}

proof fn lemma_scalar_without_break(c: u32)
    requires
        is_scalar(c),
        c != 10,
    ensures
        forall|i: int| 0 <= i < encode_scalar(c).len() ==> #[trigger] encode_scalar(c)[i] != 10,
{
    assert(c <= 0x7f && c != 10 ==> (c & 0x7f) as u8 != 10) by (bit_vector);
    assert((0xC0 | ((c >> 6) & 0x1F) as u8) != 10) by (bit_vector);
    assert((0xE0 | ((c >> 12) & 0x0F) as u8) != 10) by (bit_vector);
    assert((0xF0 | ((c >> 18) & 0x07) as u8) != 10) by (bit_vector);
    assert((0x80 | (c & 0x3F) as u8) != 10) by (bit_vector);
    assert((0x80 | ((c >> 6) & 0x3F) as u8) != 10) by (bit_vector);
    assert((0x80 | ((c >> 12) & 0x3F) as u8) != 10) by (bit_vector);
}

proof fn lemma_text_without_break(text: Seq<char>)
    requires
        !text.contains('\n'),
    ensures
        forall|i: int| 0 <= i < encode_utf8(text).len() ==> #[trigger] encode_utf8(text)[i] != 10,
    decreases text.len(),
{
    if text.len() > 0 {
        let rest = text.drop_first();
        assert(text[0] != '\n');
        assert forall|i: int| 0 <= i < rest.len() implies #[trigger] rest[i] != '\n' by {
            assert(rest[i] == text[i + 1]);
        }
        lemma_text_without_break(rest);
        let first = text[0];
        char_is_scalar(first);
        char_u32_cast(first, first as u32);
        lemma_scalar_without_break(first as u32);
        let head = encode_scalar(first as u32);
        assert forall|i: int| 0 <= i < encode_utf8(text).len() implies #[trigger] encode_utf8(
            text,
        )[i] != 10 by {
            if i < head.len() {
                assert(encode_utf8(text)[i] == head[i]);
            } else {
                assert(encode_utf8(text)[i] == encode_utf8(rest)[i - head.len()]);
            }
        }
    }
}

/// A separating line is one line where neither the mailbox nor the date has a line break.
pub(crate) proof fn lemma_separator_is_one_line(address: Seq<char>, date: Seq<char>)
    requires
        !address.contains('\n'),
        !date.contains('\n'),
    ensures
        one_line(encode_utf8(separator(address, date))),
{
    reveal_strlit("From ");
    reveal_strlit(" ");
    reveal_strlit("\n");
    let text = "From "@ + address + " "@ + date;
    assert(!text.contains('\n')) by {
        assert forall|i: int| 0 <= i < text.len() implies #[trigger] text[i] != '\n' by {
            if 5 <= i < 5 + address.len() {
                assert(text[i] == address[i - 5]);
            } else if i > 5 + address.len() {
                assert(text[i] == date[i - 6 - address.len()]);
            }
        }
    }
    lemma_text_without_break(text);
    lemma_encode_concat(text, "\n"@);
    is_ascii_chars_encode_utf8("\n"@);
    assert(encode_utf8("\n"@) =~= seq![10u8]);
}

/// A separating line is that of the mailbox and the date: headers that give the same addresses and
/// the same date give the same line, whatever their names are and whatever the identifier of the
/// message is.
pub proof fn line_is_that_of_mailbox_and_date(
    uid: Uid,
    facts: HeaderFacts,
    other_uid: Uid,
    other: HeaderFacts,
)
    requires
        line_of(uid, facts) is Some,
        line_of(uid, facts)->0 is Ok,
        other.keys is Some,
        from_index(other.keys->0) is Some,
        other.date_value is Some,
        other.addresses == facts.addresses,
        other.date == facts.date,
        other.date_text == facts.date_text,
    ensures
        line_of(other_uid, other) == line_of(uid, facts),
{
}

/// The header has the name `From`, in whatever case.
pub open spec fn is_from(header: (Seq<char>, Seq<u8>)) -> bool {
    lowercase(header.0) == "from"@
}

/// The header has the name `Date`, in whatever case.
pub open spec fn is_date(header: (Seq<char>, Seq<u8>)) -> bool {
    eq_but_for_ascii_case(header.0, "Date"@)
}

/// The value, as it stands in the message, of the first `From` header.
pub open spec fn from_value(headers: Seq<(Seq<char>, Seq<u8>)>) -> Option<Seq<u8>>
    decreases headers.len(),
{
    if headers.len() == 0 {
        None
    } else if is_from(headers[0]) {
        Some(headers[0].1)
    } else {
        from_value(headers.drop_first())
    }
}

proof fn lemma_from_value(headers: Seq<(Seq<char>, Seq<u8>)>)
    ensures
        match from_index(lowercase_keys(headers)) {
            Some(i) => i < headers.len() && from_value(headers) == Some(headers[i as int].1),
            None => from_value(headers) is None,
        },
    decreases headers.len(),
{
    if headers.len() > 0 {
        lemma_from_value(headers.drop_first());
        assert(lowercase_keys(headers).drop_first() =~= lowercase_keys(headers.drop_first()));
    }
}

/// A separating line depends on the first `From` header and the first `Date` header alone: a
/// message that has the values of another in these two has its line, whatever else stands in it
/// and whatever its identifier is.
pub proof fn line_depends_on_from_and_date(email: Kept, other: Kept)
    requires
        line_of(email.uid, facts_of(email.raw_data)) is Some,
        line_of(email.uid, facts_of(email.raw_data))->0 is Ok,
        header_list(other.raw_data) is Some,
        from_value(header_list(other.raw_data)->0) == from_value(
            header_list(email.raw_data)->0,
        ),
        raw_value(header_list(other.raw_data)->0, "Date"@) == raw_value(
            header_list(email.raw_data)->0,
            "Date"@,
        ),
    ensures
        line_of(other.uid, facts_of(other.raw_data)) == line_of(
            email.uid,
            facts_of(email.raw_data),
        ),
{
    lemma_from_value(header_list(email.raw_data)->0);
    lemma_from_value(header_list(other.raw_data)->0);
    line_is_that_of_mailbox_and_date(
        email.uid,
        facts_of(email.raw_data),
        other.uid,
        facts_of(other.raw_data),
    );
}

/// The `From` and `Date` headers, in order.
pub open spec fn from_and_date(headers: Seq<(Seq<char>, Seq<u8>)>) -> Seq<(Seq<char>, Seq<u8>)>
    decreases headers.len(),
{
    if headers.len() == 0 {
        seq![]
    } else if is_from(headers[0]) || is_date(headers[0]) {
        seq![headers[0]] + from_and_date(headers.drop_first())
    } else {
        from_and_date(headers.drop_first())
    }
}

proof fn lemma_from_and_date(headers: Seq<(Seq<char>, Seq<u8>)>)
    ensures
        from_value(from_and_date(headers)) == from_value(headers),
        raw_value(from_and_date(headers), "Date"@) == raw_value(headers, "Date"@),
    decreases headers.len(),
{
    if headers.len() > 0 {
        let rest = headers.drop_first();
        lemma_from_and_date(rest);
        if is_from(headers[0]) || is_date(headers[0]) {
            assert(from_and_date(headers).drop_first() =~= from_and_date(rest));
        }
    }
}

/// Adding, changing or removing headers other than `From` and `Date` leaves the separating line
/// as it is, as long as the headers can be read. So do another body and another identifier.
pub proof fn other_headers_do_not_matter(email: Kept, other: Kept)
    requires
        line_of(email.uid, facts_of(email.raw_data)) is Some,
        line_of(email.uid, facts_of(email.raw_data))->0 is Ok,
        header_list(other.raw_data) is Some,
        from_and_date(header_list(other.raw_data)->0) == from_and_date(
            header_list(email.raw_data)->0,
        ),
    ensures
        line_of(other.uid, facts_of(other.raw_data)) == line_of(
            email.uid,
            facts_of(email.raw_data),
        ),
{
    lemma_from_and_date(header_list(email.raw_data)->0);
    lemma_from_and_date(header_list(other.raw_data)->0);
    line_depends_on_from_and_date(email, other);
}

/// The `From` header is the first of that name, wherever it stands among the others.
pub proof fn from_is_the_first_of_its_name(keys: Seq<Seq<char>>)
    ensures
        from_index(keys) is None <==> forall|k: int|
            0 <= k < keys.len() ==> #[trigger] keys[k] != "from"@,
        from_index(keys) is Some ==> {
            &&& from_index(keys)->0 < keys.len()
            &&& keys[from_index(keys)->0 as int] == "from"@
            &&& forall|k: int| 0 <= k < from_index(keys)->0 ==> #[trigger] keys[k] != "from"@
        },
    decreases keys.len(),
{
    if keys.len() > 0 && keys[0] != "from"@ {
        let rest = keys.drop_first();
        from_is_the_first_of_its_name(rest);
        assert forall|k: int| 0 <= k < rest.len() implies #[trigger] rest[k] == keys[k + 1] by {}
        if from_index(rest) is None {
            assert forall|k: int| 0 <= k < keys.len() implies #[trigger] keys[k] != "from"@ by {
                if k > 0 {
                    assert(rest[k - 1] != "from"@);
                }
            }
        } else {
            let i = from_index(rest)->0 as int;
            assert(keys[i + 1] == rest[i]);
            assert forall|k: int| 0 <= k < i + 1 implies #[trigger] keys[k] != "from"@ by {
                if k > 0 {
                    assert(rest[k - 1] != "from"@);
                }
            }
        }
    }
}

/// The value of the `From` header is that of the first header whose name is `from` in lower case.
pub proof fn from_value_is_of_the_first_from(headers: Seq<(Seq<char>, Seq<u8>)>)
    ensures
        from_value(headers) is None <==> forall|k: int|
            0 <= k < headers.len() ==> lowercase((#[trigger] headers[k]).0) != "from"@,
        from_value(headers) is Some ==> exists|i: int|
            {
                &&& 0 <= i < headers.len()
                &&& lowercase((#[trigger] headers[i]).0) == "from"@
                &&& from_value(headers) == Some(headers[i].1)
                &&& forall|k: int| 0 <= k < i ==> lowercase((#[trigger] headers[k]).0) != "from"@
            },
{
    let keys = lowercase_keys(headers);
    from_is_the_first_of_its_name(keys);
    lemma_from_value(headers);
    assert forall|k: int| 0 <= k < headers.len() implies #[trigger] keys[k] == lowercase(
        headers[k].0,
    ) by {}
    if from_index(keys) is Some {
        let i = from_index(keys)->0 as int;
        assert(lowercase(headers[i].0) == keys[i]);
        assert forall|k: int| 0 <= k < i implies lowercase((#[trigger] headers[k]).0)
            != "from"@ by {
            assert(keys[k] != "from"@);
        }
    } else {
        assert forall|k: int| 0 <= k < headers.len() implies lowercase((#[trigger] headers[k]).0)
            != "from"@ by {
            assert(keys[k] != "from"@);
        }
    }
}

/// The value of the `Date` header is that of the first header whose name is `date` but for the
/// case of its letters.
pub proof fn date_value_is_of_the_first_date(headers: Seq<(Seq<char>, Seq<u8>)>)
    ensures
        raw_value(headers, "Date"@) is None <==> forall|k: int|
            0 <= k < headers.len() ==> ascii_lowercase((#[trigger] headers[k]).0) != "date"@,
        raw_value(headers, "Date"@) is Some ==> exists|j: int|
            {
                &&& 0 <= j < headers.len()
                &&& ascii_lowercase((#[trigger] headers[j]).0) == "date"@
                &&& raw_value(headers, "Date"@) == Some(headers[j].1)
                &&& forall|k: int|
                    0 <= k < j ==> ascii_lowercase((#[trigger] headers[k]).0) != "date"@
            },
    decreases headers.len(),
{
    reveal_strlit("Date");
    reveal_strlit("date");
    assert(ascii_lowercase("Date"@) =~= "date"@);
    if headers.len() > 0 && ascii_lowercase(headers[0].0) != "date"@ {
        let rest = headers.drop_first();
        date_value_is_of_the_first_date(rest);
        assert forall|k: int| 0 <= k < rest.len() implies #[trigger] rest[k] == headers[k
            + 1] by {}
        if raw_value(rest, "Date"@) is None {
            assert forall|k: int| 0 <= k < headers.len() implies ascii_lowercase(
                (#[trigger] headers[k]).0,
            ) != "date"@ by {
                if k > 0 {
                    assert(ascii_lowercase(rest[k - 1].0) != "date"@);
                }
            }
        } else {
            let j = choose|j: int|
                {
                    &&& 0 <= j < rest.len()
                    &&& ascii_lowercase((#[trigger] rest[j]).0) == "date"@
                    &&& raw_value(rest, "Date"@) == Some(rest[j].1)
                    &&& forall|k: int|
                        0 <= k < j ==> ascii_lowercase((#[trigger] rest[k]).0) != "date"@
                };
            assert(ascii_lowercase(headers[j + 1].0) == "date"@);
            assert forall|k: int| 0 <= k < j + 1 implies ascii_lowercase((#[trigger] headers[k]).0)
                != "date"@ by {
                if k > 0 {
                    assert(ascii_lowercase(rest[k - 1].0) != "date"@);
                }
            }
        }
    } else if headers.len() > 0 {
        assert(raw_value(headers, "Date"@) == Some(headers[0].1));
    }
}

/// What was read of headers decides on the separating line. Where there are names with a `from`
/// among them, a date value, one address that is a mailbox, a date and its text, the line is made
/// of the mailbox and that text; else it is told what is not there first.
pub proof fn reading_decides_on_the_line(uid: Uid, facts: HeaderFacts)
    ensures
        ({
            let id = decimal(uid as nat);
            let has_from = exists|k: int|
                0 <= k < facts.keys->0.len() && #[trigger] facts.keys->0[k] == "from"@;
            if facts.keys is None {
                line_of(uid, facts) == Some(
                    Err::<Seq<u8>, ExportFailure>(
                        ExportFailure::MboxFormatError(
                            "Can't parse headers for email: "@ + id + "!"@,
                        ),
                    ),
                )
            } else if !has_from {
                line_of(uid, facts) == Some(
                    Err::<Seq<u8>, ExportFailure>(
                        ExportFailure::MboxFormatError("Can't find 'From' header in: "@ + id),
                    ),
                )
            } else if facts.date_value is None {
                line_of(uid, facts) == Some(
                    Err::<Seq<u8>, ExportFailure>(
                        ExportFailure::MboxFormatError("Can't find 'Date' header in: "@ + id),
                    ),
                )
            } else if facts.addresses is None {
                line_of(uid, facts) == Some(
                    Err::<Seq<u8>, ExportFailure>(
                        ExportFailure::MboxFormatError(
                            "Can't parse address from header in email: "@ + id + "!"@,
                        ),
                    ),
                )
            } else if facts.addresses->0.len() != 1 || facts.addresses->0[0] is None {
                line_of(uid, facts) == Some(
                    Err::<Seq<u8>, ExportFailure>(
                        ExportFailure::MboxFormatError(
                            "Can't find a single address from header in email: "@ + id,
                        ),
                    ),
                )
            } else if facts.date is None {
                line_of(uid, facts) == Some(
                    Err::<Seq<u8>, ExportFailure>(
                        ExportFailure::MboxFormatError(
                            "Can't parse Date from header in email: "@ + id,
                        ),
                    ),
                )
            } else if facts.date_text is None {
                line_of(uid, facts) is None
            } else {
                line_of(uid, facts) == Some(
                    Ok::<Seq<u8>, ExportFailure>(
                        encode_utf8(
                            "From "@ + facts.addresses->0[0]->0 + " "@ + facts.date_text->0
                                + "\n"@,
                        ),
                    ),
                )
            }
        }),
{
    if facts.keys is Some {
        from_is_the_first_of_its_name(facts.keys->0);
    }
}

/// What is read of a message is what its headers give: the names in lower case, the value of the
/// first `Date` header and the date in it, and the addresses in the first `From` header.
pub proof fn reading_is_that_of_the_headers(raw: Seq<u8>)
    ensures
        facts_of(raw).keys is None <==> header_list(raw) is None,
        header_list(raw) is Some ==> {
            let headers = header_list(raw)->0;
            let facts = facts_of(raw);
            let from = from_value(headers);
            let value = raw_value(headers, "Date"@);
            &&& facts.keys->0.len() == headers.len()
            &&& forall|k: int|
                0 <= k < headers.len() ==> #[trigger] facts.keys->0[k] == lowercase(headers[k].0)
            &&& facts.addresses == if from is Some {
                value_addresses(from->0)
            } else {
                None
            }
            &&& facts.date_value == if value is Some {
                Some(decoded_value(value->0))
            } else {
                None
            }
            &&& facts.date == if value is Some {
                parsed_date(decoded_value(value->0))
            } else {
                None
            }
            &&& facts.date_text == if facts.date is Some {
                utc_text(facts.date->0, "%a %b %d %T %Y"@)
            } else {
                None
            }
        },
{
    if header_list(raw) is Some {
        lemma_from_value(header_list(raw)->0);
    }
}

/// A message whose headers can be read, whose first `From` header gives one address that is a
/// mailbox, of whatever length, and whose first `Date` header gives a date that the calendar has,
/// has a separating line: the one of that mailbox and of that date in UTC.
pub proof fn mailbox_and_date_make_the_line(
    email: Kept,
    i: int,
    j: int,
    mailbox: Seq<char>,
    date: i64,
    text: Seq<char>,
)
    requires
        header_list(email.raw_data) is Some,
        0 <= i < header_list(email.raw_data)->0.len(),
        lowercase(header_list(email.raw_data)->0[i].0) == "from"@,
        forall|k: int|
            0 <= k < i ==> lowercase((#[trigger] header_list(email.raw_data)->0[k]).0) != "from"@,
        0 <= j < header_list(email.raw_data)->0.len(),
        ascii_lowercase(header_list(email.raw_data)->0[j].0) == "date"@,
        forall|k: int|
            0 <= k < j ==> ascii_lowercase((#[trigger] header_list(email.raw_data)->0[k]).0)
                != "date"@,
        value_addresses(header_list(email.raw_data)->0[i].1) == Some(seq![Some(mailbox)]),
        parsed_date(decoded_value(header_list(email.raw_data)->0[j].1)) == Some(date),
        utc_text(date, "%a %b %d %T %Y"@) == Some(text),
    ensures
        line_of(email.uid, facts_of(email.raw_data)) == Some(
            Ok::<Seq<u8>, ExportFailure>(
                encode_utf8("From "@ + mailbox + " "@ + text + "\n"@),
            ),
        ),
{
    let headers = header_list(email.raw_data)->0;
    let facts = facts_of(email.raw_data);
    from_value_is_of_the_first_from(headers);
    date_value_is_of_the_first_date(headers);
    reading_is_that_of_the_headers(email.raw_data);
    reading_decides_on_the_line(email.uid, facts);
    assert(lowercase(headers[i].0) == "from"@);
    assert(ascii_lowercase(headers[j].0) == "date"@);
    assert(facts.keys->0[i] == "from"@);
    assert(from_value(headers) == Some(headers[i].1));
    assert(raw_value(headers, "Date"@) == Some(headers[j].1));
    assert(facts.addresses->0[0] == Some(mailbox));
}

/// The model of a reading has all that was read.
pub proof fn model_has_the_whole_reading(reading: HeaderReading)
    ensures
        reading@.keys is None <==> reading.keys is None,
        reading.keys is Some ==> reading@.keys == Some(text_views(reading.keys->0@)),
        reading@.date_value is None <==> reading.date_value is None,
        reading.date_value is Some ==> reading@.date_value == Some(reading.date_value->0@),
        reading@.addresses is None <==> reading.addresses is None,
        reading.addresses is Some ==> reading@.addresses->0.len() == reading.addresses->0@.len(),
        reading.addresses is Some ==> forall|k: int|
            0 <= k < reading.addresses->0@.len() ==> {
                &&& reading.addresses->0@[k] is None ==> (#[trigger] reading@.addresses->0[k])
                    is None
                &&& reading.addresses->0@[k] is Some ==> reading@.addresses->0[k] == Some(
                    reading.addresses->0@[k]->0@,
                )
            },
        reading@.date == reading.date,
        reading@.date_text is None <==> reading.date_text is None,
        reading.date_text is Some ==> reading@.date_text == Some(reading.date_text->0@),
{
}

/// The view of a separating line has all of it, or all that is said of why there is none.
pub proof fn view_shows_the_whole_line(line: Result<Vec<u8>, ExportEngineError>)
    ensures
        line is Ok ==> line_view(line) == Ok::<Seq<u8>, ExportFailure>(line->Ok_0@),
        line is Err ==> line_view(line) == Err::<Seq<u8>, ExportFailure>(line->Err_0@),
        maybe_line_view(Some(line)) == Some(line_view(line)),
        maybe_line_view(None) is None,
{
}

/// The names in lower case are those of each header, in order.
pub proof fn lowercase_keys_are_of_each_header(headers: Seq<(Seq<char>, Seq<u8>)>)
    ensures
        lowercase_keys(headers).len() == headers.len(),
        forall|k: int|
            0 <= k < headers.len() ==> #[trigger] lowercase_keys(headers)[k] == lowercase(
                headers[k].0,
            ),
{
}

} // verus!
