//! Replies from outside: what they give, or what went wrong.

use vstd::prelude::*;
use vstd::string::*;

verus! {

/// The view of a reply: what it gives, or the text of what went wrong.
pub open spec fn reply_view<T>(reply: Result<T, String>) -> Result<T, Seq<char>> {
    match reply {
        Ok(value) => Ok(value),
        Err(e) => Err(e@),
    }
}

/// What went wrong with the first of the replies that did not go well.
pub open spec fn first_error<T, E>(replies: Seq<Result<T, E>>) -> Option<E>
    decreases replies.len(),
{
    if replies.len() == 0 {
        None
    } else {
        match replies[0] {
            Ok(_) => first_error(replies.drop_first()),
            Err(e) => Some(e),
        }
    }
}

/// The first of the replies that did not go well is the one behind those that did.
pub(crate) proof fn lemma_first_error<T, E>(replies: Seq<Result<T, E>>, i: int)
    requires
        0 <= i <= replies.len(),
        forall|k: int| 0 <= k < i ==> (#[trigger] replies[k]) is Ok,
    ensures
        i == replies.len() ==> first_error(replies) is None,
        i < replies.len() && replies[i] is Err ==> first_error(replies) == Some(
            replies[i]->Err_0,
        ),
    decreases replies.len(),
{
    if i > 0 {
        assert(replies[0] is Ok);
        let rest = replies.drop_first();
        assert forall|k: int| 0 <= k < i - 1 implies (#[trigger] rest[k]) is Ok by {
            assert(rest[k] == replies[k + 1]);
        }
        lemma_first_error(rest, i - 1);
    }
}

/// A view shows what a reply gives, or the text of what went wrong.
pub proof fn view_shows_the_reply<T>(reply: Result<T, String>)
    ensures
        reply is Ok ==> reply_view(reply) == Ok::<T, Seq<char>>(reply->Ok_0),
        reply is Err ==> reply_view(reply) == Err::<T, Seq<char>>(reply->Err_0@),
{
}

/// There is a first error exactly where a reply did not go well, and it is that of the reply
/// before which all went well.
pub proof fn first_error_is_the_first<T, E>(replies: Seq<Result<T, E>>)
    ensures
        first_error(replies) is None <==> forall|i: int|
            0 <= i < replies.len() ==> (#[trigger] replies[i]) is Ok,
        first_error(replies) is Some ==> exists|i: int|
            {
                &&& 0 <= i < replies.len()
                &&& #[trigger] replies[i] == Err::<T, E>(first_error(replies)->0)
                &&& forall|k: int| 0 <= k < i ==> (#[trigger] replies[k]) is Ok
            },
    decreases replies.len(),
{
    if replies.len() > 0 {
        let rest = replies.drop_first();
        first_error_is_the_first(rest);
        if replies[0] is Ok {
            assert forall|i: int| 0 <= i < rest.len() implies #[trigger] rest[i] == replies[i
                + 1] by {}
            if first_error(rest) is Some {
                let i = choose|i: int|
                    {
                        &&& 0 <= i < rest.len()
                        &&& #[trigger] rest[i] == Err::<T, E>(first_error(rest)->0)
                        &&& forall|k: int| 0 <= k < i ==> (#[trigger] rest[k]) is Ok
                    };
                assert(replies[i + 1] == Err::<T, E>(first_error(replies)->0));
                assert forall|k: int| 0 <= k < i + 1 implies (#[trigger] replies[k]) is Ok by {
                    if k > 0 {
                        assert(rest[k - 1] is Ok);
                    }
                }
            } else {
                assert forall|k: int| 0 <= k < replies.len() implies (
                #[trigger] replies[k]) is Ok by {
                    if k > 0 {
                        assert(rest[k - 1] is Ok);
                    }
                }
            }
        } else {
            assert(replies[0] == Err::<T, E>(first_error(replies)->0));
        }
    }
}

} // verus!
