use vstd::prelude::*;
use crate::stream::{FiniteStream, PushBackable, TryByteStream};

verus! {

/// The byte that `skip_whitespaces` reads past.
pub const SPACE: u8 = 0x20;

/// `states` is a run of `try_next` calls each of which returned a space.
pub open spec fn is_space_run<S: TryByteStream<Ok = u8>>(states: Seq<S>) -> bool {
    &&& states.len() >= 1
    &&& forall|i: int|
        0 <= i < states.len() - 1 ==> #[trigger] S::try_next_post(
            states[i],
            states[i + 1],
            Some(Ok::<u8, S::Error>(SPACE)),
        )
}

/// What `skip_whitespaces` does: from `pre` it reads spaces, then one item
/// more. An end or a failure is passed on as it came; a byte that is not a
/// space is pushed back, which leaves `post`.
pub open spec fn skip_whitespaces_post<S: TryByteStream<Ok = u8> + PushBackable<Item = u8>>(
    pre: S,
    post: S,
    r: Option<Result<(), S::Error>>,
) -> bool {
    exists|states: Seq<S>|
        #[trigger] is_space_run(states) && states[0] == pre && match r {
            None => S::try_next_post(states.last(), post, None),
            Some(Err(e)) => S::try_next_post(states.last(), post, Some(Err(e))),
            Some(Ok(_)) => exists|b: u8, m: S, prev: Option<u8>|
                b != SPACE && S::try_next_post(states.last(), m, Some(Ok(b)))
                    && #[trigger] S::push_back_post(m, b, post, prev),
        }
}

/// Reads past the spaces at the front of `input` and pushes back the first
/// byte that is not one, so that it comes out next. Returns `Some(Ok(()))`
/// then, `None` if the stream ended first, and the stream's failure if it
/// failed first.
pub fn skip_whitespaces<S, E>(input: &mut S) -> (r: Option<Result<(), E>>)
    where
        S: FiniteStream<Ok = u8, Error = E> + PushBackable<Item = u8>,
    ensures
        skip_whitespaces_post(*old(input), *final(input), r),
{
    let ghost states: Seq<S> = seq![*input];
    loop
        invariant
            is_space_run(states),
            states[0] == *old(input),
            states.last() == *input,
        decreases input.remaining(),
    {
        let ghost pre = *input;
        let r = input.try_next();
        proof {
            if r is Some {
                S::lemma_next_shrinks(pre, *input, r);
            }
        }
        match r {
            None => {
                assert(is_space_run(states));
                return None;
            },
            Some(Err(e)) => {
                assert(is_space_run(states));
                return Some(Err(e));
            },
            Some(Ok(b)) => {
                if b != SPACE {
                    let ghost m = *input;
                    let prev = input.push_back(b);
                    assert(is_space_run(states));
                    assert(S::push_back_post(m, b, *input, prev));
                    return Some(Ok(()));
                }
                proof {
                    let next = states.push(*input);
                    assert forall|i: int| 0 <= i < next.len() - 1 implies #[trigger] S::try_next_post(
                        next[i],
                        next[i + 1],
                        Some(Ok::<u8, E>(SPACE)),
                    ) by {
                        if i < states.len() - 1 {
                            assert(S::try_next_post(states[i], states[i + 1], Some(Ok::<u8, E>(SPACE))));
                        }
                    }
                    states = next;
                }
            },
        }
    }
}

} // verus!
