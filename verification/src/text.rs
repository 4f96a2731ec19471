//! Text: decimal numerals, lists, and the quoting and case rules of the standard library.

use vstd::prelude::*;
use vstd::string::*;
use vstd::utf8::*;

verus! {

/// The character of the decimal digit `d`.
pub open spec fn digit(d: nat) -> char {
    (48 + d) as char
}

/// The decimal numeral of `n`, without leading zeros.
pub open spec fn decimal(n: nat) -> Seq<char>
    decreases n,
{
    if n < 10 {
        seq![digit(n)]
    } else {
        decimal(n / 10).push(digit(n % 10))
    }
}

/// `parts` in order, with `sep` between each two neighbours.
pub open spec fn joined(parts: Seq<Seq<char>>, sep: Seq<char>) -> Seq<char>
    decreases parts.len(),
{
    if parts.len() == 0 {
        seq![]
    } else if parts.len() == 1 {
        parts[0]
    } else {
        joined(parts.drop_last(), sep) + sep + parts.last()
    }
}

/// The views of a list of strings.
pub open spec fn text_views(texts: Seq<String>) -> Seq<Seq<char>> {
    texts.map_values(|t: String| t@)
}

/// The view of an optional string.
pub open spec fn text_view(text: Option<String>) -> Option<Seq<char>> {
    match text {
        Some(text) => Some(text@),
        None => None,
    }
}

fn digit_text(d: u64) -> (text: &'static str)
    requires
        d < 10,
    ensures
        text@ == seq![digit(d as nat)],
{
    proof {
        reveal_strlit("0");
        reveal_strlit("1");
        reveal_strlit("2");
        reveal_strlit("3");
        reveal_strlit("4");
        reveal_strlit("5");
        reveal_strlit("6");
        reveal_strlit("7");
        reveal_strlit("8");
        reveal_strlit("9");
    }
    if d == 0 {
        "0"
    } else if d == 1 {
        "1"
    } else if d == 2 {
        "2"
    } else if d == 3 {
        "3"
    } else if d == 4 {
        "4"
    } else if d == 5 {
        "5"
    } else if d == 6 {
        "6"
    } else if d == 7 {
        "7"
    } else if d == 8 {
        "8"
    } else {
        "9"
    }
}

/// Writes `n` in decimal.
pub fn decimal_text(n: u64) -> (text: String)
    ensures
        text@ == decimal(n as nat),
    decreases n,
{
    let last = digit_text(n % 10);
    let mut text = if n < 10 {
        String::new()
    } else {
        decimal_text(n / 10)
    };
    text.append(last);
    text
}

/// Joins `parts` with `sep` between each two neighbours.
pub fn join(parts: &Vec<String>, sep: &str) -> (text: String)
    ensures
        text@ == joined(text_views(parts@), sep@),
{
    let ghost views = text_views(parts@);
    let mut text = String::new();
    let mut i: usize = 0;
    while i < parts.len()
        invariant
            i <= parts.len(),
            views == text_views(parts@),
            text@ == joined(views.take(i as int), sep@),
        decreases parts.len() - i,
    {
        if i > 0 {
            text.append(sep);
        }
        text.append(parts[i].as_str());
        assert(views.take(i + 1).drop_last() =~= views.take(i as int));
        i = i + 1;
    }
    assert(views.take(i as int) =~= views);
    text
}

/// Puts two texts one after the other.
pub fn concat(first: &str, second: &str) -> (text: String)
    ensures
        text@ == first@ + second@,
{
    let mut text = first.to_owned();
    text.append(second);
    text
}

/// Puts three texts one after the other.
pub fn concat3(first: &str, second: &str, third: &str) -> (text: String)
    ensures
        text@ == first@ + second@ + third@,
{
    let mut text = concat(first, second);
    text.append(third);
    text
}

/// A report of no lines.
pub(crate) fn no_lines() -> (report: Vec<String>)
    ensures
        text_views(report@) == Seq::<Seq<char>>::empty(),
{
    let report: Vec<String> = Vec::new();
    assert(text_views(report@) =~= seq![]);
    report
}

/// A report of one line.
pub(crate) fn one_line(line: String) -> (report: Vec<String>)
    ensures
        text_views(report@) == seq![line@],
{
    let mut report: Vec<String> = Vec::new();
    report.push(line);
    assert(text_views(report@) =~= seq![line@]);
    report
}

/// What the standard library's `Debug` format makes of a text: the text in double quotes, with
/// its escapes.
pub uninterp spec fn quoted(text: Seq<char>) -> Seq<char>;

/// Formats `text` with the standard library's `Debug` for `str` (`{:?}`).
///
/// Believed: the result depends on the characters of `text` alone. Which characters are escaped,
/// and how, is left to the standard library.
#[verifier::external_body]
pub(crate) fn debug_str(text: &str) -> (shown: String)
    ensures
        shown@ == quoted(text@),
{
    format!("{:?}", text)
}

/// `text` with the letters `A` to `Z` replaced by `a` to `z`.
pub open spec fn ascii_lowercase(text: Seq<char>) -> Seq<char> {
    text.map_values(
        |c: char|
            if 'A' <= c <= 'Z' {
                (c as u32 + 32) as char
            } else {
                c
            },
    )
}

/// What the standard library's `str::to_lowercase` makes of a text.
pub uninterp spec fn lowercase(text: Seq<char>) -> Seq<char>;

/// Calls `str::to_lowercase` of the standard library.
///
/// Believed: the result depends on the characters of `text` alone, and on ASCII text it replaces
/// the letters `A` to `Z`. The lowercase of the other characters is Unicode's and is not spelled
/// out.
#[verifier::external_body]
pub(crate) fn to_lowercase(text: &str) -> (lower: String)
    ensures
        lower@ == lowercase(text@),
        is_ascii_chars(text@) ==> lower@ == ascii_lowercase(text@),
{
    text.to_lowercase()
}

/// Calls `String::from_utf8` of the standard library.
///
/// Believed: it succeeds exactly on valid UTF-8, and then gives the characters that the bytes
/// encode.
#[verifier::external_body]
pub(crate) fn from_utf8(bytes: Vec<u8>) -> (text: Option<String>)
    ensures
        text is Some <==> valid_utf8(bytes@),
        text is Some ==> text->0@ == decode_utf8(bytes@),
{
    String::from_utf8(bytes).ok()
}

/// The number that a row of decimal digits gives.
pub open spec fn number(text: Seq<char>) -> nat
    decreases text.len(),
{
    if text.len() == 0 {
        0
    } else {
        number(text.drop_last()) * 10 + (text.last() as nat - 48) as nat
    }
}

/// A numeral gives its number, is made of digits, and has no needless zero at its front.
pub proof fn numeral_gives_its_number(n: nat)
    ensures
        number(decimal(n)) == n,
        decimal(n).len() > 0,
        forall|i: int| 0 <= i < decimal(n).len() ==> '0' <= #[trigger] decimal(n)[i] <= '9',
        n > 0 ==> decimal(n)[0] != '0',
        n == 0 ==> decimal(n).len() == 1,
    decreases n,
{
    reveal_with_fuel(number, 2);
    let d = digit(n % 10);
    assert(n % 10 < 10);
    assert(d as nat == 48 + n % 10);
    if n < 10 {
        assert(decimal(n).drop_last() =~= seq![]);
        assert(decimal(n).last() == d);
    } else {
        numeral_gives_its_number(n / 10);
        assert(decimal(n).drop_last() =~= decimal(n / 10));
        assert(decimal(n).last() == d);
        assert forall|i: int| 0 <= i < decimal(n).len() implies '0' <= #[trigger] decimal(n)[i]
            <= '9' by {
            if i < decimal(n / 10).len() {
                assert(decimal(n)[i] == decimal(n / 10)[i]);
            }
        }
        assert(decimal(n)[0] == decimal(n / 10)[0]);
    }
}

/// Joining goes part by part: one part stays as it is, and each further part follows the
/// separator.
pub proof fn joining_adds_part_after_part(parts: Seq<Seq<char>>, part: Seq<char>, sep: Seq<char>)
    ensures
        joined(seq![], sep) == Seq::<char>::empty(),
        joined(seq![part], sep) == part,
        parts.len() > 0 ==> joined(parts.push(part), sep) == joined(parts, sep) + sep + part,
{
    assert(parts.push(part).drop_last() =~= parts);
}

/// The views of a list of strings are those of its members, in order.
pub proof fn views_are_of_each_text(texts: Seq<String>)
    ensures
        text_views(texts).len() == texts.len(),
        forall|i: int| 0 <= i < texts.len() ==> #[trigger] text_views(texts)[i] == texts[i]@,
{
}

/// Lowercase changes the letters `A` to `Z` alone, each to the one 32 places behind it.
pub proof fn lowercase_of_ascii(text: Seq<char>)
    ensures
        ascii_lowercase(text).len() == text.len(),
        forall|i: int|
            0 <= i < text.len() ==> {
                let c = text[i];
                &&& 'A' <= c <= 'Z' ==> #[trigger] ascii_lowercase(text)[i] as nat == c as nat + 32
                &&& !('A' <= c <= 'Z') ==> ascii_lowercase(text)[i] == c
            },
{
}

/// The view of an optional string is that of the string, where there is one.
pub proof fn view_is_of_the_text(text: Option<String>)
    ensures
        text is Some ==> text_view(text) == Some(text->0@),
        text is None ==> text_view(text) is None,
{
}

} // verus!
