//! Reading the headers of a message, and dates. The mail parser and the calendar are outside
//! crates; this is all that the library believes of them.

use vstd::prelude::*;
use vstd::string::*;

use chrono::TimeZone;
use mailparse::MailHeaderMap;

use crate::text::{ascii_lowercase, text_view};

verus! {

/// Why the mail parser could not read something.
#[verifier::external_type_specification]
#[verifier::external_body]
pub struct ExMailParseError(mailparse::MailParseError);

/// The headers of a message: the name of each, and its value as it stands in the message.
pub open spec fn header_views(headers: Seq<(String, Vec<u8>)>) -> Seq<(Seq<char>, Seq<u8>)> {
    headers.map_values(|header: (String, Vec<u8>)| (header.0@, header.1@))
}

/// The headers that were read, or nothing where they could not be.
pub open spec fn headers_view(
    headers: Result<Vec<(String, Vec<u8>)>, mailparse::MailParseError>,
) -> Option<Seq<(Seq<char>, Seq<u8>)>> {
    match headers {
        Ok(headers) => Some(header_views(headers@)),
        Err(_) => None,
    }
}

/// The headers of a message, in order, or nothing where they cannot be read. Of each, the name,
/// and the value as it stands in the message.
pub uninterp spec fn header_list(raw: Seq<u8>) -> Option<Seq<(Seq<char>, Seq<u8>)>>;

/// Calls `mailparse::parse_headers`, and takes the name of each header by
/// `mailparse::MailHeader::get_key` and its value by `get_value_raw`.
///
/// Believed: whether the headers can be read, and their names and values in order, depend on the
/// bytes of the message alone.
#[verifier::external_body]
pub(crate) fn parse_headers(raw: &Vec<u8>) -> (headers: Result<
    Vec<(String, Vec<u8>)>,
    mailparse::MailParseError,
>)
    ensures
        headers_view(headers) == header_list(raw@),
{
    let (headers, _) = mailparse::parse_headers(raw)?;
    Ok(headers.iter().map(|h| (h.get_key(), h.get_value_raw().to_vec())).collect())
}

/// The texts are equal but for the case of the letters `A` to `Z`.
pub open spec fn eq_but_for_ascii_case(a: Seq<char>, b: Seq<char>) -> bool {
    ascii_lowercase(a) == ascii_lowercase(b)
}

/// The value, as it stands in the message, of the first header that has this name, but for the
/// case of its letters.
pub open spec fn raw_value(headers: Seq<(Seq<char>, Seq<u8>)>, key: Seq<char>) -> Option<Seq<u8>>
    decreases headers.len(),
{
    if headers.len() == 0 {
        None
    } else if eq_but_for_ascii_case(headers[0].0, key) {
        Some(headers[0].1)
    } else {
        raw_value(headers.drop_first(), key)
    }
}

/// The headers can be read, and one of them has this name, but for the case of its letters.
pub open spec fn finds_key(headers: Option<Seq<(Seq<char>, Seq<u8>)>>, key: Seq<char>) -> bool {
    headers is Some && raw_value(headers->0, key) is Some
}

/// What a value that stands in a message says, unfolded and decoded.
pub uninterp spec fn decoded_value(value: Seq<u8>) -> Seq<char>;

/// Calls `get_first_value` of `mailparse::MailHeaderMap` on the headers of a message.
///
/// Believed: it finds the first header of that name, but for the case of its letters, where the
/// headers can be read and there is one. It gives what `mailparse::MailHeader::get_value` makes
/// of it, which depends on the bytes of its value alone. How a value is unfolded and decoded is
/// left to the parser.
#[verifier::external_body]
pub(crate) fn get_first_value(raw: &Vec<u8>, key: &str) -> (value: Option<String>)
    ensures
        value is Some <==> finds_key(header_list(raw@), key@),
        value is Some ==> value->0@ == decoded_value(raw_value(header_list(raw@)->0, key@)->0),
{
    let (headers, _) = mailparse::parse_headers(raw).ok()?;
    headers.get_first_value(key)
}

/// The views of a list of addresses: the mailbox, or nothing for a group of mailboxes.
pub open spec fn address_views(addresses: Seq<Option<String>>) -> Seq<Option<Seq<char>>> {
    addresses.map_values(|a: Option<String>| text_view(a))
}

/// The addresses that were read, or nothing where they could not be.
pub open spec fn addresses_view(
    addresses: Result<Vec<Option<String>>, mailparse::MailParseError>,
) -> Option<Seq<Option<Seq<char>>>> {
    match addresses {
        Ok(addresses) => Some(address_views(addresses@)),
        Err(_) => None,
    }
}

/// The addresses in a value as it stands in a message: each mailbox, and nothing for a group of
/// mailboxes. Nothing at all where the value cannot be read as addresses.
pub uninterp spec fn value_addresses(value: Seq<u8>) -> Option<Seq<Option<Seq<char>>>>;

/// Calls `mailparse::addrparse_header` on the header of a message at this place.
///
/// Believed: the addresses depend on the bytes of the value of that header alone, and a mailbox
/// has no line break in it: the parser unfolds the lines, and an encoded word can be part of a
/// name only.
#[verifier::external_body]
pub(crate) fn addrparse_header(raw: &Vec<u8>, index: usize) -> (addresses: Result<
    Vec<Option<String>>,
    mailparse::MailParseError,
>)
    requires
        header_list(raw@) is Some,
        index < header_list(raw@)->0.len(),
    ensures
        addresses_view(addresses) == value_addresses(header_list(raw@)->0[index as int].1),
        addresses is Ok ==> forall|i: int|
            0 <= i < addresses->Ok_0@.len() && (#[trigger] addresses->Ok_0@[i]) is Some
                ==> !addresses->Ok_0@[i]->0@.contains('\n'),
{
    let (headers, _) = mailparse::parse_headers(raw)?;
    let list = mailparse::addrparse_header(&headers[index])?.into_inner();
    Ok(
        list.into_iter().map(
            |a|
                match a {
                    mailparse::MailAddr::Single(single) => Some(single.addr),
                    mailparse::MailAddr::Group(_) => None,
                },
        ).collect(),
    )
}

/// The date that was read, or nothing where it could not be.
pub open spec fn date_view(date: Result<i64, mailparse::MailParseError>) -> Option<i64> {
    match date {
        Ok(date) => Some(date),
        Err(_) => None,
    }
}

/// The date that a text gives, in seconds since the beginning of 1970, or nothing where it gives
/// none.
pub uninterp spec fn parsed_date(text: Seq<char>) -> Option<i64>;

/// Calls `mailparse::dateparse`.
///
/// Believed: the date depends on the characters of the text alone.
#[verifier::external_body]
pub(crate) fn dateparse(text: &str) -> (date: Result<i64, mailparse::MailParseError>)
    ensures
        date_view(date) == parsed_date(text@),
{
    mailparse::dateparse(text)
}

/// The form of the date in a line that separates messages: day of the week, month, day, time,
/// year.
pub const SEPARATOR_DATE: &'static str = "%a %b %d %T %Y";

/// The first second that the calendar has.
pub const FIRST_SECOND: i64 = -8334601228800;

/// The last second that the calendar has.
pub const LAST_SECOND: i64 = 8210266876799;

/// A date, given in seconds since the beginning of 1970, written in this form for UTC, or nothing
/// where the calendar does not have it.
pub uninterp spec fn utc_text(seconds: i64, form: Seq<char>) -> Option<Seq<char>>;

/// Calls `timestamp_opt` of `chrono::Utc` and writes what it returns with
/// `chrono::DateTime::format`.
///
/// Believed: the text depends on the date and on the form alone, there is one exactly for the
/// dates that the calendar has, and it has no line break in it. A form that chrono does not know
/// makes it panic, so the form is fixed.
#[verifier::external_body]
pub(crate) fn format_utc(seconds: i64, form: &str) -> (text: Option<String>)
    requires
        form@ == SEPARATOR_DATE@,
    ensures
        text_view(text) == utc_text(seconds, form@),
        text is Some <==> FIRST_SECOND <= seconds <= LAST_SECOND,
        text is Some ==> !text->0@.contains('\n'),
{
    let date = chrono::Utc.timestamp_opt(seconds, 0).single()?;
    Some(date.format(form).to_string())
}

/// The views of headers and of addresses have all that was read, in order.
pub proof fn views_show_all_that_was_read(
    headers: Seq<(String, Vec<u8>)>,
    addresses: Seq<Option<String>>,
)
    ensures
        header_views(headers).len() == headers.len(),
        forall|k: int|
            0 <= k < headers.len() ==> {
                &&& (#[trigger] header_views(headers)[k]).0 == headers[k].0@
                &&& header_views(headers)[k].1 == headers[k].1@
            },
        address_views(addresses).len() == addresses.len(),
        forall|k: int|
            0 <= k < addresses.len() ==> {
                &&& addresses[k] is None ==> (#[trigger] address_views(addresses)[k]) is None
                &&& addresses[k] is Some ==> address_views(addresses)[k] == Some(
                    addresses[k]->0@,
                )
            },
{
}

/// The views of what the parser gave have it where it succeeded, and only there.
pub proof fn views_show_whether_it_was_read(
    headers: Result<Vec<(String, Vec<u8>)>, mailparse::MailParseError>,
    addresses: Result<Vec<Option<String>>, mailparse::MailParseError>,
    date: Result<i64, mailparse::MailParseError>,
)
    ensures
        headers is Ok ==> headers_view(headers) == Some(header_views(headers->Ok_0@)),
        headers is Err ==> headers_view(headers) is None,
        addresses is Ok ==> addresses_view(addresses) == Some(address_views(addresses->Ok_0@)),
        addresses is Err ==> addresses_view(addresses) is None,
        date is Ok ==> date_view(date) == Some(date->Ok_0),
        date is Err ==> date_view(date) is None,
{
}

/// A value is found where a header has its name, but for the case of its letters, and it is that of
/// the first such header.
pub proof fn value_is_of_the_first_of_its_name(
    headers: Seq<(Seq<char>, Seq<u8>)>,
    key: Seq<char>,
    j: int,
)
    requires
        0 <= j < headers.len(),
        ascii_lowercase(headers[j].0) == ascii_lowercase(key),
        forall|k: int|
            0 <= k < j ==> ascii_lowercase((#[trigger] headers[k]).0) != ascii_lowercase(key),
    ensures
        raw_value(headers, key) == Some(headers[j].1),
        finds_key(Some(headers), key),
    decreases headers.len(),
{
    if j > 0 {
        let rest = headers.drop_first();
        assert(ascii_lowercase(headers[0].0) != ascii_lowercase(key));
        assert forall|k: int| 0 <= k < j - 1 implies ascii_lowercase((#[trigger] rest[k]).0)
            != ascii_lowercase(key) by {
            assert(rest[k] == headers[k + 1]);
        }
        value_is_of_the_first_of_its_name(rest, key, j - 1);
    }
}

} // verus!
