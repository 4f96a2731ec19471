//! Message identifiers: which to fetch, and how they are divided among the workers.

use std::collections::HashSet;
use vstd::prelude::*;
use vstd::std_specs::hash::*;

use crate::text::{
    decimal, decimal_text, digit, join, joined, joining_adds_part_after_part, text_views,
};

verus! {

/// The identifier of a message in its mailbox.
pub type Uid = u32;

/// `list` names each member of `set` once, and nothing else.
pub open spec fn lists(list: Seq<Uid>, set: Set<Uid>) -> bool {
    &&& list.no_duplicates()
    &&& list.to_set() == set
}

/// Lists the members of `set`, in the order in which the set happens to be walked.
pub fn list_uids(set: &HashSet<Uid>) -> (list: Vec<Uid>)
    ensures
        lists(list@, set@),
        list@.len() == set@.len(),
        list@.no_duplicates(),
        list@.to_set() == set@,
{
    broadcast use group_hash_axioms;

    let mut list: Vec<Uid> = Vec::new();
    assert(set@.len() == 0 ==> list@ =~= vstd::std_specs::iter::IteratorSpec::remaining(
        &spec_hash_keys_iter(set),
    ).unref());
    for uid in it: set.iter()
        invariant
            it.seq().unref().to_set() == set@,
            it.seq().no_duplicates(),
            it.seq().len() == set@.len(),
            list@.len() == it.index(),
            forall|i: int| 0 <= i < it.index() ==> list@[i] == *#[trigger] it.seq()[i],
            it.index() == it.seq().len() ==> lists(list@, set@),
    {
        list.push(*uid);
        assert(it.index() + 1 == it.seq().len() ==> list@ =~= it.seq().unref());
    }
    list
}

/// The members of `uids` that are not in `known`.
pub fn difference(uids: &HashSet<Uid>, known: &HashSet<Uid>) -> (rest: HashSet<Uid>)
    ensures
        rest@ == uids@.difference(known@),
        forall|uid: Uid| #[trigger]
            rest@.contains(uid) <==> uids@.contains(uid) && !known@.contains(uid),
{
    broadcast use group_hash_axioms;

    let list = list_uids(uids);
    let mut rest: HashSet<Uid> = HashSet::new();
    let mut i: usize = 0;
    while i < list.len()
        invariant
            i <= list.len(),
            forall|u: Uid|
                rest@.contains(u) <==> list@.take(i as int).contains(u) && !known@.contains(u),
        decreases list.len() - i,
    {
        let uid = list[i];
        if !known.contains(&uid) {
            rest.insert(uid);
        }
        proof {
            lemma_take_one_more(list@, i as int);
        }
        i = i + 1;
    }
    assert(list@.take(i as int) =~= list@);
    assert(rest@ =~= uids@.difference(known@)) by {
        assert forall|u: Uid| list@.contains(u) <==> uids@.contains(u) by {
            assert(list@.to_set().contains(u) <==> list@.contains(u));
        }
    }
    rest
}

/// Picks `count` members of `uids`, or all of them where there are fewer. Which ones are picked
/// depends on the order in which the set happens to be walked.
pub fn pick(uids: &HashSet<Uid>, count: usize) -> (picked: HashSet<Uid>)
    ensures
        picked@.subset_of(uids@),
        picked@.len() == if uids@.len() < count {
            uids@.len()
        } else {
            count as nat
        },
{
    broadcast use group_hash_axioms;

    let list = list_uids(uids);
    let mut picked: HashSet<Uid> = HashSet::new();
    let mut i: usize = 0;
    assert(list@.take(0).to_set() =~= picked@);
    while i < list.len() && i < count
        invariant
            i <= list.len(),
            i <= count,
            picked@ == list@.take(i as int).to_set(),
        decreases list.len() - i,
    {
        picked.insert(list[i]);
        proof {
            lemma_take_one_more(list@, i as int);
            assert(list@.take(i + 1).to_set() =~= list@.take(i as int).to_set().insert(
                list@[i as int],
            ));
        }
        i = i + 1;
    }
    proof {
        list@.take(i as int).unique_seq_to_set();
        assert forall|u: Uid| picked@.contains(u) implies uids@.contains(u) by {
            assert(list@.take(i as int).contains(u));
            assert(list@.contains(u));
            assert(list@.to_set().contains(u));
        }
    }
    picked
}

proof fn lemma_take_one_more(list: Seq<Uid>, i: int)
    requires
        0 <= i < list.len(),
    ensures
        list.take(i + 1) == list.take(i).push(list[i]),
        forall|u: Uid|
            #[trigger] list.take(i + 1).contains(u) <==> list.take(i).contains(u) || u == list[i],
{
    assert(list.take(i + 1) =~= list.take(i).push(list[i]));
    assert forall|u: Uid|
        #[trigger] list.take(i + 1).contains(u) <==> list.take(i).contains(u) || u == list[i] by {
        if list.take(i).contains(u) {
            let k = list.take(i).index_of(u);
            assert(list.take(i + 1)[k] == u);
        }
        if u == list[i] {
            assert(list.take(i + 1)[i] == u);
        }
        if list.take(i + 1).contains(u) && u != list[i] {
            let k = list.take(i + 1).index_of(u);
            assert(list.take(i)[k] == u);
        }
    }
}

/// How many identifiers a worker is given at most, where `total` are divided among `workers`.
pub open spec fn share(total: nat, workers: nat) -> nat {
    total / workers + 1
}

/// `list` cut into pieces of `len`, of which the last may be shorter.
pub open spec fn chunks(list: Seq<Uid>, len: nat) -> Seq<Seq<Uid>>
    decreases list.len(),
{
    if list.len() == 0 || len == 0 {
        seq![]
    } else if list.len() <= len {
        seq![list]
    } else {
        seq![list.take(len as int)] + chunks(list.skip(len as int), len)
    }
}

/// The contents of a list of lists.
pub open spec fn list_views(lists: Seq<Vec<Uid>>) -> Seq<Seq<Uid>> {
    lists.map_values(|list: Vec<Uid>| list@)
}

/// The length of the pieces into which the identifiers are cut for the workers.
pub fn chunk_len(total: usize, workers: usize) -> (len: usize)
    requires
        workers > 0,
        total < usize::MAX,
    ensures
        len == share(total as nat, workers as nat),
        len == total / workers + 1,
{
    assert(total as nat / workers as nat <= total) by (nonlinear_arith)
        requires
            workers > 0,
    ;
    total / workers + 1
}

/// Cuts `list` into pieces of `len`, of which the last may be shorter.
pub fn cut(list: &Vec<Uid>, len: usize) -> (pieces: Vec<Vec<Uid>>)
    requires
        len > 0,
    ensures
        list_views(pieces@) == chunks(list@, len as nat),
        list_views(pieces@).flatten() == list@,
        forall|k: int|
            0 <= k < pieces@.len() ==> {
                &&& 0 < (#[trigger] pieces@[k])@.len() <= len
                &&& k < pieces@.len() - 1 ==> pieces@[k]@.len() == len
            },
{
    let mut pieces: Vec<Vec<Uid>> = Vec::new();
    let mut start: usize = 0;
    proof {
        assert(list@.skip(0) =~= list@);
        assert(list_views(pieces@) + chunks(list@, len as nat) =~= chunks(list@, len as nat));
    }
    while start < list.len()
        invariant
            len > 0,
            start <= list.len(),
            list_views(pieces@) + chunks(list@.skip(start as int), len as nat) == chunks(
                list@,
                len as nat,
            ),
        decreases list.len() - start,
    {
        let end = if list.len() - start <= len {
            list.len()
        } else {
            start + len
        };
        let ghost before = list_views(pieces@);
        let ghost rest = list@.skip(start as int);
        let piece = vstd::slice::slice_to_vec(
            vstd::slice::slice_subrange(list.as_slice(), start, end),
        );
        proof {
            if rest.len() <= len {
                assert(piece@ =~= rest);
                assert(chunks(list@.skip(end as int), len as nat) =~= seq![]);
                assert(chunks(rest, len as nat) =~= seq![piece@] + chunks(
                    list@.skip(end as int),
                    len as nat,
                ));
            } else {
                assert(piece@ =~= rest.take(len as int));
                assert(rest.skip(len as int) =~= list@.skip(end as int));
            }
        }
        pieces.push(piece);
        proof {
            assert(list_views(pieces@) =~= before.push(piece@));
            assert(list_views(pieces@) + chunks(list@.skip(end as int), len as nat) =~= before
                + chunks(rest, len as nat));
        }
        start = end;
    }
    assert(list_views(pieces@) + chunks(list@.skip(start as int), len as nat) =~= list_views(
        pieces@,
    ));
    proof {
        pieces_make_up_the_list(list@, len as nat);
        assert forall|k: int| 0 <= k < pieces@.len() implies {
            &&& 0 < (#[trigger] pieces@[k])@.len() <= len
            &&& k < pieces@.len() - 1 ==> pieces@[k]@.len() == len
        } by {
            assert(list_views(pieces@)[k] == pieces@[k]@);
            pieces_are_of_fair_length(list@, len as nat, k);
        }
    }
    pieces
}

/// The identifiers as an IMAP set: their numerals, with commas between them.
pub open spec fn uid_set(uids: Seq<Uid>) -> Seq<char> {
    joined(numerals(uids), ","@)
}

/// The numerals of a list of identifiers.
pub open spec fn numerals(uids: Seq<Uid>) -> Seq<Seq<char>> {
    uids.map_values(|uid: Uid| decimal(uid as nat))
}

/// Writes each of `uids` in decimal.
pub fn write_numerals(uids: &Vec<Uid>) -> (texts: Vec<String>)
    ensures
        text_views(texts@) == numerals(uids@),
        texts@.len() == uids@.len(),
        forall|i: int|
            0 <= i < uids@.len() ==> (#[trigger] texts@[i])@ == decimal(uids@[i] as nat),
{
    let mut texts: Vec<String> = Vec::new();
    let mut i: usize = 0;
    while i < uids.len()
        invariant
            i <= uids.len(),
            text_views(texts@) == numerals(uids@.take(i as int)),
        decreases uids.len() - i,
    {
        let text = decimal_text(uids[i] as u64);
        let ghost before = text_views(texts@);
        texts.push(text);
        proof {
            assert(text_views(texts@) =~= before.push(text@));
            assert(numerals(uids@.take(i + 1)) =~= numerals(uids@.take(i as int)).push(
                decimal(uids@[i as int] as nat),
            ));
        }
        i = i + 1;
    }
    assert(uids@.take(i as int) =~= uids@);
    assert forall|k: int| 0 <= k < uids@.len() implies (#[trigger] texts@[k])@ == decimal(
        uids@[k] as nat,
    ) by {
        assert(text_views(texts@)[k] == texts@[k]@);
    }
    texts
}

/// Writes `uids` as an IMAP set.
pub fn write_uid_set(uids: &Vec<Uid>) -> (text: String)
    ensures
        text@ == uid_set(uids@),
{
    join(&write_numerals(uids), ",")
}

/// Cutting loses nothing and adds nothing: the pieces put together again are the list, in its
/// order.
pub proof fn pieces_make_up_the_list(list: Seq<Uid>, len: nat)
    requires
        len > 0,
    ensures
        chunks(list, len).flatten() == list,
    decreases list.len(),
{
    if list.len() == 0 {
        assert(chunks(list, len).flatten() =~= list);
    } else if list.len() <= len {
        assert(chunks(list, len).drop_first() =~= seq![]);
        assert(chunks(list, len).drop_first().flatten() =~= seq![]);
        assert(chunks(list, len).flatten() =~= list);
    } else {
        let rest = list.skip(len as int);
        pieces_make_up_the_list(rest, len);
        assert(chunks(list, len).drop_first() =~= chunks(rest, len));
        assert(chunks(list, len).flatten() =~= list.take(len as int) + rest);
        assert(list.take(len as int) + rest =~= list);
    }
}

/// No piece is empty, none is longer than asked, and all but the last are as long as asked.
pub proof fn pieces_are_of_fair_length(list: Seq<Uid>, len: nat, k: int)
    requires
        0 <= k < chunks(list, len).len(),
    ensures
        0 < chunks(list, len)[k].len() <= len,
        k < chunks(list, len).len() - 1 ==> chunks(list, len)[k].len() == len,
    decreases list.len(),
{
    if list.len() > len && k > 0 {
        pieces_are_of_fair_length(list.skip(len as int), len, k - 1);
    }
}

/// There are never more pieces than workers, so each worker opens at most one connection.
pub proof fn no_more_pieces_than_workers(list: Seq<Uid>, workers: nat)
    requires
        workers > 0,
    ensures
        chunks(list, share(list.len(), workers)).len() <= workers,
{
    let total = list.len();
    let len = share(total, workers);
    let count = chunks(list, len).len();
    if count > workers {
        lemma_piece_count(list, len);
        assert(workers * (total / workers + 1) > total) by (nonlinear_arith)
            requires
                workers > 0,
        ;
        assert((count - 1) * len >= workers * len) by (nonlinear_arith)
            requires
                count - 1 >= workers,
        ;
    }
}

proof fn lemma_piece_count(list: Seq<Uid>, len: nat)
    requires
        len > 0,
    ensures
        list.len() == 0 ==> chunks(list, len).len() == 0,
        list.len() > 0 ==> (chunks(list, len).len() - 1) * len < list.len(),
    decreases list.len(),
{
    if list.len() > len {
        let rest = list.skip(len as int);
        lemma_piece_count(rest, len);
        let count = chunks(rest, len).len();
        assert((count - 1) * len + len == count * len) by (nonlinear_arith);
        assert(chunks(list, len).len() - 1 == count);
    } else {
        assert(0 * len == 0) by (nonlinear_arith);
    }
}

/// The value of a decimal digit.
pub open spec fn digit_value(c: char) -> nat {
    (c as nat - 48) as nat
}

/// Reads an IMAP set: numerals in decimal with commas between them.
pub open spec fn read_uid_set(text: Seq<char>) -> Seq<nat>
    decreases text.len(),
{
    if text.len() == 0 {
        seq![0]
    } else {
        let read = read_uid_set(text.drop_last());
        if text.last() == ',' {
            read.push(0)
        } else {
            read.drop_last().push(read.last() * 10 + digit_value(text.last()))
        }
    }
}

/// A set that is sent to the server names the identifiers that it was made of, in their order.
pub proof fn uid_set_names_its_members(uids: Seq<Uid>)
    requires
        uids.len() > 0,
    ensures
        read_uid_set(uid_set(uids)) == uids.map_values(|uid: Uid| uid as nat),
    decreases uids.len(),
{
    reveal_strlit(",");
    let values = uids.map_values(|uid: Uid| uid as nat);
    let last = uids.last() as nat;
    if uids.len() == 1 {
        lemma_read_numeral(seq![], last);
        assert(numerals(uids)[0] == decimal(last));
        assert(seq![] + decimal(last) =~= decimal(last));
        assert(read_uid_set(uid_set(uids)) =~= values);
    } else {
        let front = uids.drop_last();
        uid_set_names_its_members(front);
        assert(numerals(uids).drop_last() =~= numerals(front));
        let head = uid_set(front) + ","@;
        assert(uid_set(uids) =~= head + decimal(last));
        assert(head.drop_last() =~= uid_set(front));
        lemma_read_numeral(head, last);
        assert(values =~= front.map_values(|uid: Uid| uid as nat).push(last));
        assert(read_uid_set(head).drop_last() =~= read_uid_set(uid_set(front)));
    }
}

proof fn lemma_read_numeral(head: Seq<char>, n: nat)
    requires
        read_uid_set(head).len() > 0,
        read_uid_set(head).last() == 0,
    ensures
        read_uid_set(head + decimal(n)) == read_uid_set(head).drop_last().push(n),
    decreases n,
{
    let text = head + decimal(n);
    let d = digit(n % 10);
    assert(n % 10 < 10);
    assert(digit_value(d) == n % 10);
    assert(d != ',');
    if n < 10 {
        assert(text.drop_last() =~= head);
    } else {
        lemma_read_numeral(head, n / 10);
        assert(text.drop_last() =~= head + decimal(n / 10));
        assert(read_uid_set(text) =~= read_uid_set(head).drop_last().push(n / 10 * 10 + n % 10));
    }
}

proof fn lemma_pieces_cover(list: Seq<Uid>, len: nat)
    requires
        len > 0,
    ensures
        chunks(list, len).len() * len >= list.len(),
    decreases list.len(),
{
    if list.len() > len {
        let rest = list.skip(len as int);
        lemma_pieces_cover(rest, len);
        let count = chunks(rest, len).len();
        assert((count + 1) * len == count * len + len) by (nonlinear_arith);
        assert(chunks(list, len).len() == count + 1);
    } else if list.len() > 0 {
        assert(1 * len == len) by (nonlinear_arith);
    }
}

/// Where there are enough identifiers, every worker has a piece: as many as the square of the
/// number of workers are enough.
pub proof fn every_worker_has_a_piece(list: Seq<Uid>, workers: nat)
    requires
        workers > 0,
        list.len() >= workers * workers,
    ensures
        chunks(list, share(list.len(), workers)).len() == workers,
{
    let total = list.len();
    let len = share(total, workers);
    let count = chunks(list, len).len();
    no_more_pieces_than_workers(list, workers);
    lemma_pieces_cover(list, len);
    if count < workers {
        let each = total / workers;
        assert(each >= workers && each * workers <= total) by (nonlinear_arith)
            requires
                workers > 0,
                total >= workers * workers,
                each == total / workers,
        ;
        assert(count * (each + 1) < total) by (nonlinear_arith)
            requires
                count + 1 <= workers,
                each >= workers,
                each * workers <= total,
                count >= 0,
                workers > 0,
        ;
    }
}

/// An IMAP set goes member by member: one member is its numeral, and each further member follows
/// a comma.
pub proof fn uid_set_adds_member_after_member(uids: Seq<Uid>, uid: Uid)
    ensures
        uid_set(seq![]) == Seq::<char>::empty(),
        uid_set(seq![uid]) == decimal(uid as nat),
        uids.len() > 0 ==> uid_set(uids.push(uid)) == uid_set(uids) + ","@ + decimal(uid as nat),
{
    assert(numerals(seq![]) =~= seq![]);
    assert(numerals(seq![uid]) =~= seq![decimal(uid as nat)]);
    assert(numerals(uids.push(uid)) =~= numerals(uids).push(decimal(uid as nat)));
    joining_adds_part_after_part(numerals(uids), decimal(uid as nat), ","@);
}

/// The numerals of identifiers are those of each, in order.
pub proof fn numerals_are_of_each_uid(uids: Seq<Uid>)
    ensures
        numerals(uids).len() == uids.len(),
        forall|i: int|
            0 <= i < uids.len() ==> #[trigger] numerals(uids)[i] == decimal(uids[i] as nat),
{
}

/// A list of a set has each member once, and nothing else.
pub proof fn list_has_each_member_once(list: Seq<Uid>, set: Set<Uid>)
    ensures
        lists(list, set) <==> list.no_duplicates() && forall|uid: Uid| #[trigger]
            list.contains(uid) <==> set.contains(uid),
{
    if lists(list, set) {
        assert forall|uid: Uid| #[trigger] list.contains(uid) <==> set.contains(uid) by {
            assert(list.to_set().contains(uid) <==> list.contains(uid));
        }
    }
    if list.no_duplicates() && forall|uid: Uid| #[trigger] list.contains(uid) <==> set.contains(
        uid,
    ) {
        assert(list.to_set() =~= set);
    }
}

/// A share is the whole number of identifiers for each worker, and one more.
pub proof fn share_is_one_more_than_the_quotient(total: nat, workers: nat)
    requires
        workers > 0,
    ensures
        share(total, workers) == total / workers + 1,
        share(total, workers) * workers > total,
{
    assert((total / workers + 1) * workers > total) by (nonlinear_arith)
        requires
            workers > 0,
    ;
}

/// The contents of a list of lists are those of each list, in order.
pub proof fn list_views_are_of_each_list(lists: Seq<Vec<Uid>>)
    ensures
        list_views(lists).len() == lists.len(),
        forall|k: int| 0 <= k < lists.len() ==> #[trigger] list_views(lists)[k] == lists[k]@,
{
}

} // verus!
