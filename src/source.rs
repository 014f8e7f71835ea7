use std::collections::VecDeque;
use vstd::prelude::*;
use crate::stream::{ByteStream, FiniteStream, TryByteStream, is_run};

verus! {

/// A stream over items held in memory, handed out in order, then `None`.
pub struct VecStream<T, E> {
    items: VecDeque<Result<T, E>>,
}

impl<T, E> VecStream<T, E> {
    /// The items still to come, in order.
    pub closed spec fn pending(&self) -> Seq<Result<T, E>> {
        self.items@
    }

    pub fn new(items: Vec<Result<T, E>>) -> (r: Self)
        ensures
            r.pending() == items@,
    {
        let mut items = items;
        let ghost all = items@;
        let mut queue: VecDeque<Result<T, E>> = VecDeque::new();
        while items.len() > 0
            invariant
                items@ + queue@ == all,
            decreases items.len(),
        {
            let ghost (i0, q0) = (items@, queue@);
            let x = items.pop().unwrap();
            queue.push_front(x);
            assert(items@ + queue@ =~= i0 + q0);
        }
        assert(queue@ =~= all);
        VecStream { items: queue }
    }
}

impl<T, E> ByteStream for VecStream<T, E> {
    type Item = Result<T, E>;

    /// Hands out the first pending item, or `None` once none is left.
    open spec fn next_post(pre: Self, post: Self, r: Option<Result<T, E>>) -> bool {
        if pre.pending().len() == 0 {
            r is None && post.pending() == pre.pending()
        } else {
            r == Some(pre.pending()[0]) && post.pending() == pre.pending().drop_first()
        }
    }

    fn next(&mut self) -> (r: Option<Result<T, E>>) {
        self.items.pop_front()
    }
}

impl<T, E> FiniteStream for VecStream<T, E> {
    open spec fn remaining(&self) -> nat {
        self.pending().len()
    }

    proof fn lemma_next_shrinks(pre: Self, post: Self, r: Option<Result<T, E>>) {
    }
}

} // verus!

verus! {

/// Whatever a run of a `VecStream` yields is the front of its pending items,
/// in order, and the rest stays pending.
pub proof fn lemma_run_yields_pending<T, E>(states: Seq<VecStream<T, E>>, items: Seq<Result<T, E>>)
    requires
        is_run(states, items),
    ensures
        states[0].pending() == items + states.last().pending(),
    decreases items.len(),
{
    if items.len() > 0 {
        let n = items.len() - 1;
        let first = states.drop_last();
        assert(is_run(first, items.drop_last())) by {
            assert forall|i: int| 0 <= i < n implies #[trigger] VecStream::<T, E>::next_post(
                first[i],
                first[i + 1],
                Some(items.drop_last()[i]),
            ) by {
                assert(VecStream::<T, E>::next_post(states[i], states[i + 1], Some(items[i])));
            }
        }
        lemma_run_yields_pending(first, items.drop_last());
        assert(VecStream::<T, E>::next_post(states[n], states[n + 1], Some(items[n])));
        assert(states[0].pending() =~= items + states.last().pending());
    } else {
        assert(states[0].pending() =~= items + states.last().pending());
    }
}

/// Once a `VecStream` has answered `None`, it answers `None` again.
pub proof fn lemma_end_is_sticky<T, E>(
    s: VecStream<T, E>,
    t: VecStream<T, E>,
    u: VecStream<T, E>,
    r: Option<Result<T, E>>,
)
    requires
        VecStream::<T, E>::try_next_post(s, t, None),
        VecStream::<T, E>::try_next_post(t, u, r),
    ensures
        r is None,
        u.pending().len() == 0,
{
}

} // verus!
